//! What gitpkg asks git, and how it reads git's answers.
use vstd::prelude::*;

use crate::package::opt_string_view;
use crate::text::{chars_of, extend_chars, extend_str, find_char, idx_of, is_whitespace, is_ws, word_len, lemma_word_len_unique, lemma_idx_of, lemma_lead_ws_unique, owned_strings, parse_unsigned, parsed_unsigned, rfind_char_end, ridx_of, string_of, sub_chars, trim, trim_chars, trim_start, trim_str, views};
use crate::util::{decimal, decimal_chars};

verus! {

broadcast use vstd::string::group_string_axioms;

// ---------------------------------------------------------------------------
// Commits and refs

/// The ref `git ls-remote` is asked about: the branch's head, or `HEAD`.
pub open spec fn remote_ref(branch: Option<&str>) -> Seq<char> {
    match branch {
        Some(b) => "refs/heads/"@ + b@,
        None => "HEAD"@,
    }
}

pub fn ls_remote_ref(branch: Option<&str>) -> (r: String)
    ensures
        r@ == remote_ref(branch),
{
    match branch {
        Some(b) => {
            let mut v: Vec<char> = Vec::new();
            extend_str(&mut v, "refs/heads/");
            extend_str(&mut v, b);
            string_of(v.as_slice())
        },
        None => "HEAD".to_string(),
    }
}

/// `split_whitespace().next()`: the first run of non-whitespace
/// characters, none when the text is all whitespace.
pub open spec fn first_word(s: Seq<char>) -> Option<Seq<char>> {
    let t = trim_start(s);
    if t.len() == 0 {
        None
    } else {
        Some(t.take(word_len(t)))
    }
}

/// The commit hash `git ls-remote` printed: the first field of its output,
/// when git succeeded.
pub fn parse_remote_commit(success: bool, stdout: &str) -> (r: Option<String>)
    ensures
        opt_string_view(r) == (if success {
            first_word(stdout@)
        } else {
            None
        }),
{
    if !success {
        return None;
    }
    let v = chars_of(stdout);
    match first_word_chars(v.as_slice()) {
        Some(w) => Some(string_of(w.as_slice())),
        None => None,
    }
}

/// The first run of non-whitespace characters of `v`, if any.
pub fn first_word_chars(v: &[char]) -> (r: Option<Vec<char>>)
    ensures
        match r {
            Some(w) => first_word(v@) == Some(w@),
            None => first_word(v@) is None,
        },
{
    let mut a: usize = 0;
    while a < v.len() && is_whitespace(v[a])
        invariant
            a <= v@.len(),
            forall|j: int| 0 <= j < a ==> is_ws(v@[j]),
        decreases v@.len() - a,
    {
        a = a + 1;
    }
    proof {
        lemma_lead_ws_unique(v@, a as int);
    }
    if a == v.len() {
        return None;
    }
    let ghost t = v@.skip(a as int);
    let mut b: usize = a;
    while b < v.len() && !is_whitespace(v[b])
        invariant
            a <= b <= v@.len(),
            t == v@.skip(a as int),
            forall|j: int| a <= j < b ==> !is_ws(v@[j]),
        decreases v@.len() - b,
    {
        b = b + 1;
    }
    proof {
        assert forall|j: int| 0 <= j < b - a implies !is_ws(t[j]) by {
            assert(t[j] == v@[j + a]);
        }
        if b < v.len() {
            assert(t[b - a] == v@[b as int]);
        }
        lemma_word_len_unique(t, (b - a) as int);
        assert(t.take((b - a) as int) =~= v@.subrange(a as int, b as int));
    }
    Some(sub_chars(v, a, b))
}

/// The commit `git rev-parse HEAD` printed: its output trimmed, when git
/// succeeded.
pub fn parse_commit_hash(success: bool, stdout: &str) -> (r: Option<String>)
    ensures
        opt_string_view(r) == (if success {
            Some(trim(stdout@))
        } else {
            None
        }),
{
    if success {
        let t = trim_str(stdout);
        Some(string_of(t.as_slice()))
    } else {
        None
    }
}

/// Whether `git ls-remote --heads --tags` listed the ref: it succeeded and
/// printed more than whitespace.
pub fn branch_listed(success: bool, stdout: &str) -> (r: bool)
    ensures
        r == (success && trim(stdout@).len() > 0),
{
    if !success {
        return false;
    }
    let t = trim_str(stdout);
    t.len() > 0
}

/// The `git clone` arguments: a single branch when one is given, and
/// `--progress` when the progress is read from git's output.
pub open spec fn clone_arguments(url: Seq<char>, path: Seq<char>, branch: Option<&str>, progress: bool) -> Seq<
    Seq<char>,
> {
    let head = match branch {
        Some(b) => seq!["clone"@, "-b"@, b@, "--single-branch"@],
        None => seq!["clone"@],
    };
    head + seq![url, path] + if progress {
        seq!["--progress"@]
    } else {
        seq![]
    }
}

pub fn clone_args(url: &str, path: &str, branch: Option<&str>, progress: bool) -> (r: Vec<String>)
    ensures
        views(r@) == clone_arguments(url@, path@, branch, progress),
{
    let mut r = match branch {
        Some(b) => owned_strings(&["clone", "-b", b, "--single-branch"]),
        None => owned_strings(&["clone"]),
    };
    let tail = if progress {
        owned_strings(&[url, path, "--progress"])
    } else {
        owned_strings(&[url, path])
    };
    let ghost h = r@;
    let mut t = tail;
    r.append(&mut t);
    proof {
        assert(views(r@) =~= views(h) + views(tail@));
    }
    r
}

// ---------------------------------------------------------------------------
// Clone progress

/// The percentage in a line of `git clone --progress` output: the text
/// between the last space before the first `%` and that `%`, trimmed, read
/// as a `u8`.
pub open spec fn progress_percent(line: Seq<char>) -> Option<nat> {
    let i = idx_of(line, '%');
    let before = line.take(i);
    let j = ridx_of(before, ' ');
    if 0 <= i < line.len() && j >= 0 {
        parsed_unsigned(trim(before.skip(j)), 255)
    } else {
        None
    }
}

/// Read the percentage from a line of `git clone --progress` output.
pub fn parse_progress(line: &str) -> (r: Option<u8>)
    ensures
        match r {
            Some(p) => progress_percent(line@) == Some(p as nat),
            None => progress_percent(line@) is None,
        },
{
    let v = chars_of(line);
    let i = find_char(v.as_slice(), '%');
    proof {
        lemma_idx_of(v@, '%');
    }
    if i == v.len() {
        return None;
    }
    let before = sub_chars(v.as_slice(), 0, i);
    let k = rfind_char_end(before.as_slice(), ' ');
    if k == 0 {
        return None;
    }
    proof {
        crate::text::lemma_ridx_of(before@, ' ');
        assert(v@.take(i as int) =~= before@);
    }
    let num = sub_chars(before.as_slice(), k - 1, before.len());
    let t = trim_chars(num.as_slice());
    match parse_unsigned(t.as_slice(), 255) {
        Some(p) => Some(p as u8),
        None => None,
    }
}

/// `n` right-aligned in a field of three characters (`{:3}`).
pub open spec fn pad3(d: Seq<char>) -> Seq<char> {
    if d.len() >= 3 {
        d
    } else {
        Seq::new((3 - d.len()) as nat, |i: int| ' ') + d
    }
}

/// The progress line shown while cloning: a bar of 40 cells, `p * 40 / 100`
/// of them filled, then the percentage.
pub open spec fn progress_text(p: nat) -> Seq<char> {
    let filled = (p * 40 / 100) as nat;
    "\rCloning repository ["@ + Seq::new(filled, |i: int| '#') + Seq::new(
        (40 - filled) as nat,
        |i: int| ' ',
    ) + "] "@ + pad3(decimal(p)) + "%"@
}

/// The progress line shown while cloning, for a percentage up to 102
/// (beyond that the bar would hold more than 40 cells).
pub fn progress_line(p: u8) -> (r: String)
    requires
        p <= 102,
    ensures
        r@ == progress_text(p as nat),
{
    let filled: usize = (p as usize) * 40 / 100;
    let empty: usize = 40 - filled;
    let mut v: Vec<char> = Vec::new();
    extend_str(&mut v, "\rCloning repository [");
    let ghost start = v@;
    let mut i: usize = 0;
    while i < filled
        invariant
            i <= filled,
            v@ == start + Seq::new(i as nat, |k: int| '#'),
        decreases filled - i,
    {
        v.push('#');
        proof {
            assert(v@ =~= start + Seq::new((i + 1) as nat, |k: int| '#'));
        }
        i = i + 1;
    }
    let ghost mid = v@;
    let mut i: usize = 0;
    while i < empty
        invariant
            i <= empty,
            v@ == mid + Seq::new(i as nat, |k: int| ' '),
        decreases empty - i,
    {
        v.push(' ');
        proof {
            assert(v@ =~= mid + Seq::new((i + 1) as nat, |k: int| ' '));
        }
        i = i + 1;
    }
    extend_str(&mut v, "] ");
    let d = decimal_chars(p as u128);
    let ghost before_pad = v@;
    let mut pad: usize = if d.len() >= 3 {
        0
    } else {
        3 - d.len()
    };
    let mut i: usize = 0;
    while i < pad
        invariant
            i <= pad,
            v@ == before_pad + Seq::new(i as nat, |k: int| ' '),
        decreases pad - i,
    {
        v.push(' ');
        proof {
            assert(v@ =~= before_pad + Seq::new((i + 1) as nat, |k: int| ' '));
        }
        i = i + 1;
    }
    extend_chars(&mut v, d.as_slice());
    extend_str(&mut v, "%");
    proof {
        if d@.len() >= 3 {
            assert(Seq::new(0, |k: int| ' ') + d@ =~= d@);
        }
        assert(v@ =~= progress_text(p as nat));
    }
    string_of(v.as_slice())
}

} // verus!
