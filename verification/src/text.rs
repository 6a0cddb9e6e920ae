//! Character-level text model shared by the rest of the library.
//!
//! Strings are reasoned about through their `Seq<char>` views. Each spec
//! function here states one std string operation directly; the executable
//! helpers work on `Vec<char>` and are proved against those statements.
use vstd::prelude::*;

verus! {

broadcast use vstd::string::group_string_axioms;

// ---------------------------------------------------------------------------
// Trusted std primitive

/// `String::push`: appends one character to the string.
#[verifier::external_body]
pub fn push_char(s: &mut String, c: char)
    ensures
        final(s)@ == old(s)@.push(c),
{
    s.push(c)
}

// ---------------------------------------------------------------------------
// Conversions between strings and character vectors

/// The characters of a string slice, in order.
pub fn chars_of(s: &str) -> (v: Vec<char>)
    ensures
        v@ == s@,
{
    let mut v: Vec<char> = Vec::new();
    for c in it: s.chars()
        invariant
            v@ == it.seq().take(it.index() as int),
            it.seq() == s@,
    {
        v.push(c);
    }
    v
}

/// A string holding exactly the given characters.
pub fn string_of(v: &[char]) -> (s: String)
    ensures
        s@ == v@,
{
    let mut s = String::new();
    let mut i: usize = 0;
    while i < v.len()
        invariant
            i <= v@.len(),
            s@ == v@.take(i as int),
        decreases v@.len() - i,
    {
        push_char(&mut s, v[i]);
        proof {
            assert(v@.take(i as int).push(v@[i as int]) =~= v@.take(i + 1));
        }
        i = i + 1;
    }
    proof {
        assert(v@.take(v@.len() as int) =~= v@);
    }
    s
}

/// Appends the characters of `src` to `dst`.
pub fn extend_chars(dst: &mut Vec<char>, src: &[char])
    ensures
        final(dst)@ == old(dst)@ + src@,
{
    let ghost start = dst@;
    let mut i: usize = 0;
    while i < src.len()
        invariant
            i <= src@.len(),
            dst@ == start + src@.take(i as int),
        decreases src@.len() - i,
    {
        dst.push(src[i]);
        proof {
            assert(start + src@.take(i + 1) =~= (start + src@.take(i as int)).push(src@[i as int]));
        }
        i = i + 1;
    }
    proof {
        assert(src@.take(src@.len() as int) =~= src@);
    }
}

/// Appends the characters of a string slice to `dst`.
pub fn extend_str(dst: &mut Vec<char>, src: &str)
    ensures
        final(dst)@ == old(dst)@ + src@,
{
    let cs = chars_of(src);
    extend_chars(dst, cs.as_slice());
}

/// The characters `v[from..to]`.
pub fn sub_chars(v: &[char], from: usize, to: usize) -> (r: Vec<char>)
    requires
        from <= to <= v@.len(),
    ensures
        r@ == v@.subrange(from as int, to as int),
{
    let mut r: Vec<char> = Vec::new();
    let mut i: usize = from;
    while i < to
        invariant
            from <= i <= to <= v@.len(),
            r@ == v@.subrange(from as int, i as int),
        decreases to - i,
    {
        r.push(v[i]);
        proof {
            assert(v@.subrange(from as int, i + 1) =~= v@.subrange(from as int, i as int).push(
                v@[i as int],
            ));
        }
        i = i + 1;
    }
    r
}

/// Whether two character sequences are equal.
pub fn chars_eq(a: &[char], b: &[char]) -> (r: bool)
    ensures
        r == (a@ == b@),
{
    if a.len() != b.len() {
        return false;
    }
    let mut i: usize = 0;
    while i < a.len()
        invariant
            a@.len() == b@.len(),
            i <= a@.len(),
            forall|j: int| 0 <= j < i ==> a@[j] == b@[j],
        decreases a@.len() - i,
    {
        if a[i] != b[i] {
            return false;
        }
        i = i + 1;
    }
    proof {
        assert(a@ =~= b@);
    }
    true
}

/// Whether a character sequence equals a string slice.
pub fn eq_str(a: &[char], b: &str) -> (r: bool)
    ensures
        r == (a@ == b@),
{
    let bv = chars_of(b);
    chars_eq(a, bv.as_slice())
}

// ---------------------------------------------------------------------------
// Searching for a character

/// Position of the first `c` in `s`, or `s.len()` when `c` does not occur.
pub open spec fn idx_of(s: Seq<char>, c: char) -> int
    decreases s.len(),
{
    if s.len() == 0 {
        0
    } else if s[0] == c {
        0
    } else {
        1 + idx_of(s.drop_first(), c)
    }
}

/// `idx_of` is the first occurrence, or the length when there is none.
pub proof fn lemma_idx_of(s: Seq<char>, c: char)
    ensures
        0 <= idx_of(s, c) <= s.len(),
        idx_of(s, c) < s.len() ==> s[idx_of(s, c)] == c,
        forall|j: int| 0 <= j < idx_of(s, c) ==> s[j] != c,
        idx_of(s, c) == s.len() <==> !s.contains(c),
    decreases s.len(),
{
    if s.len() > 0 && s[0] != c {
        lemma_idx_of(s.drop_first(), c);
        assert forall|j: int| 0 <= j < idx_of(s, c) implies s[j] != c by {
            if j > 0 {
                assert(s[j] == s.drop_first()[j - 1]);
            }
        }
        if s.contains(c) {
            let k = choose|k: int| 0 <= k < s.len() && s[k] == c;
            assert(s.drop_first()[k - 1] == c);
        }
        if s.drop_first().contains(c) {
            let k = choose|k: int| 0 <= k < s.drop_first().len() && s.drop_first()[k] == c;
            assert(s[k + 1] == c);
        }
    }
}

/// Any index with the first-occurrence property is `idx_of`.
pub proof fn lemma_idx_of_unique(s: Seq<char>, c: char, i: int)
    requires
        0 <= i <= s.len(),
        i < s.len() ==> s[i] == c,
        forall|j: int| 0 <= j < i ==> s[j] != c,
    ensures
        idx_of(s, c) == i,
    decreases s.len(),
{
    if s.len() > 0 && i > 0 {
        assert(s[0] != c);
        assert forall|j: int| 0 <= j < i - 1 implies s.drop_first()[j] != c by {
            assert(s.drop_first()[j] == s[j + 1]);
        }
        lemma_idx_of_unique(s.drop_first(), c, i - 1);
    }
}

/// Position of the first `c` in `v`, or `v.len()` when `c` does not occur.
pub fn find_char(v: &[char], c: char) -> (i: usize)
    ensures
        i == idx_of(v@, c),
        i <= v@.len(),
{
    let mut i: usize = 0;
    while i < v.len() && v[i] != c
        invariant
            i <= v@.len(),
            forall|j: int| 0 <= j < i ==> v@[j] != c,
        decreases v@.len() - i,
    {
        i = i + 1;
    }
    proof {
        lemma_idx_of_unique(v@, c, i as int);
    }
    i
}

/// Whether `c` occurs in `v`.
pub fn has_char(v: &[char], c: char) -> (r: bool)
    ensures
        r == v@.contains(c),
{
    let i = find_char(v, c);
    proof {
        lemma_idx_of(v@, c);
    }
    i < v.len()
}


// ---------------------------------------------------------------------------
// Whitespace and trimming

/// Unicode `White_Space`, the set that `char::is_whitespace` tests for.
pub open spec fn is_ws(c: char) -> bool {
    let u = c as u32;
    ||| u == 0x20
    ||| 0x09 <= u <= 0x0d
    ||| u == 0x85
    ||| u == 0xa0
    ||| u == 0x1680
    ||| 0x2000 <= u <= 0x200a
    ||| u == 0x2028
    ||| u == 0x2029
    ||| u == 0x202f
    ||| u == 0x205f
    ||| u == 0x3000
}

/// `char::is_whitespace`.
pub fn is_whitespace(c: char) -> (r: bool)
    ensures
        r == is_ws(c),
{
    let u = c as u32;
    u == 0x20 || (0x09 <= u && u <= 0x0d) || u == 0x85 || u == 0xa0 || u == 0x1680 || (0x2000 <= u
        && u <= 0x200a) || u == 0x2028 || u == 0x2029 || u == 0x202f || u == 0x205f || u == 0x3000
}

/// Number of characters before the first whitespace character (the
/// length when there is none).
pub open spec fn word_len(s: Seq<char>) -> int
    decreases s.len(),
{
    if s.len() == 0 || is_ws(s[0]) {
        0
    } else {
        1 + word_len(s.drop_first())
    }
}

pub proof fn lemma_word_len_unique(s: Seq<char>, k: int)
    requires
        0 <= k <= s.len(),
        k < s.len() ==> is_ws(s[k]),
        forall|j: int| 0 <= j < k ==> !is_ws(s[j]),
    ensures
        word_len(s) == k,
    decreases s.len(),
{
    if s.len() > 0 && k > 0 {
        assert forall|j: int| 0 <= j < k - 1 implies !is_ws(s.drop_first()[j]) by {
            assert(s.drop_first()[j] == s[j + 1]);
        }
        lemma_word_len_unique(s.drop_first(), k - 1);
    }
}

pub proof fn lemma_word_len_bounds(s: Seq<char>)
    ensures
        0 <= word_len(s) <= s.len(),
        s.len() > 0 && !is_ws(s[0]) ==> word_len(s) >= 1,
    decreases s.len(),
{
    if s.len() > 0 && !is_ws(s[0]) {
        lemma_word_len_bounds(s.drop_first());
    }
}

/// `split_whitespace()`: the maximal runs of non-whitespace characters,
/// in order.
pub open spec fn words(s: Seq<char>) -> Seq<Seq<char>>
    decreases s.len(),
{
    if s.len() == 0 {
        Seq::empty()
    } else if is_ws(s[0]) {
        words(s.drop_first())
    } else {
        proof {
            lemma_word_len_bounds(s);
        }
        seq![s.take(word_len(s))] + words(s.skip(word_len(s)))
    }
}

/// The whitespace-separated words of `s`, as `split_whitespace` yields
/// them.
pub fn split_words(s: &str) -> (r: Vec<String>)
    ensures
        r@.map_values(|w: String| w@) == words(s@),
{
    let v = chars_of(s);
    let n = v.len();
    let mut out: Vec<String> = Vec::new();
    let mut i: usize = 0;
    proof {
        assert(v@.skip(0) =~= v@);
        assert(out@.map_values(|w: String| w@) =~= Seq::<Seq<char>>::empty());
    }
    while i < n
        invariant
            i <= n,
            n == v@.len(),
            v@ == s@,
            out@.map_values(|w: String| w@) + words(v@.skip(i as int)) == words(v@),
        decreases n - i,
    {
        let ghost rest = v@.skip(i as int);
        if is_whitespace(v[i]) {
            proof {
                assert(rest.drop_first() =~= v@.skip(i + 1));
            }
            i = i + 1;
        } else {
            let mut j: usize = i;
            while j < n && !is_whitespace(v[j])
                invariant
                    i <= j <= n,
                    n == v@.len(),
                    forall|k: int| i <= k < j ==> !is_ws(v@[k]),
                decreases n - j,
            {
                j = j + 1;
            }
            proof {
                assert forall|k: int| 0 <= k < j - i implies !is_ws(rest[k]) by {
                    assert(rest[k] == v@[i + k]);
                }
                if j < n {
                    assert(rest[j - i] == v@[j as int]);
                }
                lemma_word_len_unique(rest, j - i);
                assert(rest.take(j - i) =~= v@.subrange(i as int, j as int));
                assert(rest.skip(j - i) =~= v@.skip(j as int));
            }
            let w = sub_chars(v.as_slice(), i, j);
            let ghost before = out@.map_values(|w: String| w@);
            out.push(string_of(w.as_slice()));
            proof {
                assert(out@.map_values(|w: String| w@) =~= before.push(rest.take(j - i)));
                assert(before.push(rest.take(j - i)) + words(v@.skip(j as int)) =~= before + words(rest));
            }
            i = j;
        }
    }
    proof {
        assert(v@.skip(n as int) =~= Seq::<char>::empty());
        assert(out@.map_values(|w: String| w@) + Seq::<Seq<char>>::empty() =~= out@.map_values(|w: String| w@));
    }
    out
}


/// Number of whitespace characters at the start of `s`.
pub open spec fn lead_ws(s: Seq<char>) -> int
    decreases s.len(),
{
    if s.len() == 0 {
        0
    } else if is_ws(s[0]) {
        1 + lead_ws(s.drop_first())
    } else {
        0
    }
}

/// Number of whitespace characters at the end of `s`.
pub open spec fn trail_ws(s: Seq<char>) -> int
    decreases s.len(),
{
    if s.len() == 0 {
        0
    } else if is_ws(s.last()) {
        1 + trail_ws(s.drop_last())
    } else {
        0
    }
}

/// `str::trim_start`.
pub open spec fn trim_start(s: Seq<char>) -> Seq<char> {
    s.skip(lead_ws(s))
}

/// `str::trim_end`.
pub open spec fn trim_end(s: Seq<char>) -> Seq<char> {
    s.take(s.len() - trail_ws(s))
}

/// `str::trim`: leading and trailing whitespace removed.
pub open spec fn trim(s: Seq<char>) -> Seq<char> {
    trim_end(trim_start(s))
}

pub proof fn lemma_lead_ws_unique(s: Seq<char>, i: int)
    requires
        0 <= i <= s.len(),
        i < s.len() ==> !is_ws(s[i]),
        forall|j: int| 0 <= j < i ==> is_ws(s[j]),
    ensures
        lead_ws(s) == i,
    decreases s.len(),
{
    if s.len() > 0 && i > 0 {
        assert forall|j: int| 0 <= j < i - 1 implies is_ws(s.drop_first()[j]) by {
            assert(s.drop_first()[j] == s[j + 1]);
        }
        lemma_lead_ws_unique(s.drop_first(), i - 1);
    }
}

pub proof fn lemma_trail_ws_unique(s: Seq<char>, k: int)
    requires
        0 <= k <= s.len(),
        k < s.len() ==> !is_ws(s[s.len() - 1 - k]),
        forall|j: int| s.len() - k <= j < s.len() ==> is_ws(s[j]),
    ensures
        trail_ws(s) == k,
    decreases s.len(),
{
    if s.len() > 0 && k > 0 {
        let t = s.drop_last();
        assert forall|j: int| t.len() - (k - 1) <= j < t.len() implies is_ws(t[j]) by {
            assert(t[j] == s[j]);
        }
        if k - 1 < t.len() {
            assert(t[t.len() - 1 - (k - 1)] == s[s.len() - 1 - k]);
        }
        lemma_trail_ws_unique(t, k - 1);
    }
}

/// `str::trim` on characters.
pub fn trim_chars(v: &[char]) -> (r: Vec<char>)
    ensures
        r@ == trim(v@),
{
    let mut a: usize = 0;
    while a < v.len() && is_whitespace(v[a])
        invariant
            a <= v@.len(),
            forall|j: int| 0 <= j < a ==> is_ws(v@[j]),
        decreases v@.len() - a,
    {
        a = a + 1;
    }
    proof {
        lemma_lead_ws_unique(v@, a as int);
    }
    let ghost t = v@.skip(a as int);
    let mut b: usize = v.len();
    while b > a && is_whitespace(v[b - 1])
        invariant
            a <= b <= v@.len(),
            t == v@.skip(a as int),
            forall|j: int| b <= j < v@.len() ==> is_ws(v@[j]),
        decreases b - a,
    {
        b = b - 1;
    }
    proof {
        let k = (v@.len() - b) as int;
        assert forall|j: int| t.len() - k <= j < t.len() implies is_ws(t[j]) by {
            assert(t[j] == v@[j + a]);
        }
        if k < t.len() {
            assert(t[t.len() - 1 - k] == v@[b - 1]);
        }
        lemma_trail_ws_unique(t, k);
        assert(trim(v@) =~= v@.subrange(a as int, b as int));
    }
    sub_chars(v, a, b)
}

/// `str::trim` on a string slice, as characters.
pub fn trim_str(s: &str) -> (r: Vec<char>)
    ensures
        r@ == trim(s@),
{
    let v = chars_of(s);
    trim_chars(v.as_slice())
}

// ---------------------------------------------------------------------------
// Prefixes and suffixes

/// `str::starts_with` for a string pattern.
pub open spec fn starts_with(s: Seq<char>, p: Seq<char>) -> bool {
    p.len() <= s.len() && s.take(p.len() as int) == p
}

/// `str::ends_with` for a string pattern.
pub open spec fn ends_with(s: Seq<char>, p: Seq<char>) -> bool {
    p.len() <= s.len() && s.skip(s.len() - p.len()) == p
}

pub fn starts_with_chars(s: &[char], p: &[char]) -> (r: bool)
    ensures
        r == starts_with(s@, p@),
{
    if p.len() > s.len() {
        return false;
    }
    let mut i: usize = 0;
    while i < p.len()
        invariant
            p@.len() <= s@.len(),
            i <= p@.len(),
            forall|j: int| 0 <= j < i ==> s@[j] == p@[j],
        decreases p@.len() - i,
    {
        if s[i] != p[i] {
            proof {
                assert(s@.take(p@.len() as int)[i as int] != p@[i as int]);
            }
            return false;
        }
        i = i + 1;
    }
    proof {
        assert(s@.take(p@.len() as int) =~= p@);
    }
    true
}

pub fn ends_with_chars(s: &[char], p: &[char]) -> (r: bool)
    ensures
        r == ends_with(s@, p@),
{
    if p.len() > s.len() {
        return false;
    }
    let off = s.len() - p.len();
    let mut i: usize = 0;
    while i < p.len()
        invariant
            p@.len() <= s@.len(),
            off == s@.len() - p@.len(),
            i <= p@.len(),
            off + p@.len() == s.len(),
            forall|j: int| 0 <= j < i ==> s@[off + j] == p@[j],
        decreases p@.len() - i,
    {
        if s[off + i] != p[i] {
            proof {
                assert(s@.skip(off as int)[i as int] != p@[i as int]);
            }
            return false;
        }
        i = i + 1;
    }
    proof {
        assert(s@.skip(off as int) =~= p@);
    }
    true
}

/// `str::trim_end_matches` with a non-empty string pattern: every trailing
/// copy of `p` removed.
pub open spec fn trim_end_matches(s: Seq<char>, p: Seq<char>) -> Seq<char>
    decreases s.len(),
{
    if p.len() > 0 && ends_with(s, p) {
        trim_end_matches(s.take(s.len() - p.len()), p)
    } else {
        s
    }
}

pub fn trim_end_matches_chars(s: &[char], p: &[char]) -> (r: Vec<char>)
    ensures
        r@ == trim_end_matches(s@, p@),
{
    let mut end: usize = s.len();
    let mut cur = sub_chars(s, 0, end);
    proof {
        assert(cur@ =~= s@);
    }
    while p.len() > 0 && ends_with_chars(cur.as_slice(), p)
        invariant
            end <= s@.len(),
            cur@ == s@.take(end as int),
            trim_end_matches(cur@, p@) == trim_end_matches(s@, p@),
        decreases end,
    {
        end = end - p.len();
        proof {
            assert(cur@.take(cur@.len() - p@.len()) =~= s@.take(end as int));
        }
        cur = sub_chars(s, 0, end);
    }
    cur
}

// ---------------------------------------------------------------------------
// Case

/// `char::to_ascii_lowercase`.
pub open spec fn ascii_lower(c: char) -> char {
    if 'A' <= c <= 'Z' {
        ((c as u32) + 32) as char
    } else {
        c
    }
}

pub fn to_ascii_lower(c: char) -> (r: char)
    ensures
        r == ascii_lower(c),
{
    if 'A' <= c && c <= 'Z' {
        let b = (c as u8) + 32;
        b as char
    } else {
        c
    }
}

/// `str::to_ascii_lowercase`.
pub open spec fn lower_ascii(s: Seq<char>) -> Seq<char> {
    s.map_values(|c: char| ascii_lower(c))
}

pub fn lower_ascii_chars(v: &[char]) -> (r: Vec<char>)
    ensures
        r@ == lower_ascii(v@),
{
    let mut r: Vec<char> = Vec::new();
    let mut i: usize = 0;
    while i < v.len()
        invariant
            i <= v@.len(),
            r@ == lower_ascii(v@.take(i as int)),
        decreases v@.len() - i,
    {
        let c = to_ascii_lower(v[i]);
        r.push(c);
        proof {
            assert(lower_ascii(v@.take(i + 1)) =~= lower_ascii(v@.take(i as int)).push(c));
        }
        i = i + 1;
    }
    proof {
        assert(v@.take(v@.len() as int) =~= v@);
    }
    r
}


/// The character views of a sequence of strings.
pub open spec fn views(v: Seq<String>) -> Seq<Seq<char>> {
    v.map_values(|s: String| s@)
}

/// A vector of owned copies of the given string slices.
pub fn owned_strings(parts: &[&str]) -> (r: Vec<String>)
    ensures
        views(r@) == parts@.map_values(|p: &str| p@),
{
    let mut r: Vec<String> = Vec::new();
    let mut i: usize = 0;
    while i < parts.len()
        invariant
            i <= parts@.len(),
            views(r@) == parts@.take(i as int).map_values(|p: &str| p@),
        decreases parts@.len() - i,
    {
        let part: &str = parts[i];
        let s = part.to_string();
        let ghost before = r@;
        r.push(s);
        proof {
            assert(s@ == parts@[i as int]@);
            assert(r@ == before.push(s));
            assert(views(before).len() == before.len());
            assert(parts@.take(i as int).len() == i);
            assert(before.len() == i);
            let a = views(r@);
            let b = parts@.take(i + 1).map_values(|p: &str| p@);
            assert(a.len() == b.len());
            assert forall|k: int| 0 <= k < a.len() implies a[k] == b[k] by {
                if k < i {
                    assert(a[k] == views(before)[k]);
                    assert(b[k] == parts@.take(i as int).map_values(|p: &str| p@)[k]);
                }
            }
            assert(a =~= b);
        }
        i = i + 1;
    }
    proof {
        assert(parts@.take(parts@.len() as int) =~= parts@);
    }
    r
}


// ---------------------------------------------------------------------------
// Lines

/// A line without the `\r` of a `\r\n` ending.
pub open spec fn strip_cr(l: Seq<char>) -> Seq<char> {
    if l.len() > 0 && l.last() == '\r' {
        l.drop_last()
    } else {
        l
    }
}

/// `str::lines`: the text split at each `\n`, a `\r` before the `\n`
/// dropped, with no final empty line after a trailing `\n`.
pub open spec fn lines(s: Seq<char>) -> Seq<Seq<char>>
    decreases s.len(),
{
    if s.len() == 0 {
        seq![]
    } else {
        let i = idx_of(s, '\n');
        if i >= s.len() || i < 0 {
            seq![s]
        } else {
            seq![strip_cr(s.take(i))] + lines(s.skip(i + 1))
        }
    }
}

/// Text ending in a line break followed by one more line: its lines are the
/// earlier text's lines and that line.
pub proof fn lemma_lines_append(a: Seq<char>, line: Seq<char>)
    requires
        a.len() == 0 || a.last() == '\n',
        !line.contains('\n'),
    ensures
        lines(a + line + seq!['\n']) == lines(a).push(strip_cr(line)),
    decreases a.len(),
{
    let t = a + line + seq!['\n'];
    if a.len() == 0 {
        assert(t =~= line + seq!['\n']);
        assert forall|j: int| 0 <= j < line.len() implies t[j] != '\n' by {
            assert(t[j] == line[j]);
            assert(line.contains(line[j]));
        }
        lemma_idx_of_unique(t, '\n', line.len() as int);
        assert(t.take(line.len() as int) =~= line);
        assert(t.skip(line.len() as int + 1) =~= Seq::<char>::empty());
        assert(lines(a) =~= Seq::<Seq<char>>::empty());
        let e = t.skip(line.len() as int + 1);
        assert(lines(e) =~= Seq::<Seq<char>>::empty());
        assert(lines(t) == seq![strip_cr(t.take(line.len() as int))] + lines(e));
        assert(lines(t) =~= seq![strip_cr(line)]);
    } else {
        lemma_idx_of(a, '\n');
        let i = idx_of(a, '\n');
        assert(a[a.len() - 1] == '\n');
        assert(i < a.len());
        assert forall|j: int| 0 <= j < i implies t[j] != '\n' by {
            assert(t[j] == a[j]);
        }
        lemma_idx_of_unique(t, '\n', i);
        let rest = a.skip(i + 1);
        assert(t.skip(i + 1) =~= rest + line + seq!['\n']);
        assert(t.take(i) =~= a.take(i));
        if rest.len() > 0 {
            assert(rest.last() == a.last());
        }
        lemma_lines_append(rest, line);
        assert(lines(t) =~= lines(a).push(strip_cr(line)));
    }
}

/// `str::lines`, on characters.
pub fn lines_of(s: &[char]) -> (r: Vec<Vec<char>>)
    ensures
        r@.map_values(|l: Vec<char>| l@) == lines(s@),
{
    let mut r: Vec<Vec<char>> = Vec::new();
    let mut pos: usize = 0;
    proof {
        assert(s@.skip(0) =~= s@);
        assert(r@.map_values(|l: Vec<char>| l@) =~= Seq::<Seq<char>>::empty());
        assert(lines(s@) =~= r@.map_values(|l: Vec<char>| l@) + lines(s@.skip(0)));
    }
    while pos < s.len()
        invariant
            pos <= s@.len(),
            lines(s@) == r@.map_values(|l: Vec<char>| l@) + lines(s@.skip(pos as int)),
        decreases s@.len() - pos,
    {
        let rest = sub_chars(s, pos, s.len());
        let i = find_char(rest.as_slice(), '\n');
        proof {
            lemma_idx_of(rest@, '\n');
        }
        let ghost before = r@;
        if i == rest.len() {
            r.push(rest);
            proof {
                assert(lines(s@.skip(pos as int)) =~= seq![rest@]);
                assert(s@.skip(s@.len() as int) =~= Seq::<char>::empty());
                assert(r@.map_values(|l: Vec<char>| l@) =~= before.map_values(|l: Vec<char>| l@).push(
                    rest@,
                ));
                assert(lines(s@) =~= r@.map_values(|l: Vec<char>| l@) + lines(
                    s@.skip(s@.len() as int),
                ));
            }
            pos = s.len();
        } else {
            let mut line = sub_chars(rest.as_slice(), 0, i);
            if line.len() > 0 && line[line.len() - 1] == '\r' {
                line.pop();
                proof {
                    assert(line@ =~= strip_cr(rest@.take(i as int)));
                }
            }
            r.push(line);
            proof {
                assert(rest@.skip(i + 1) =~= s@.skip(pos + i + 1));
                assert(r@.map_values(|l: Vec<char>| l@) =~= before.map_values(|l: Vec<char>| l@).push(
                    line@,
                ));
                assert(lines(s@) =~= r@.map_values(|l: Vec<char>| l@) + lines(s@.skip(pos + i + 1)));
            }
            pos = pos + i + 1;
        }
    }
    proof {
        assert(s@.skip(pos as int) =~= Seq::<char>::empty());
        assert(lines(s@) =~= r@.map_values(|l: Vec<char>| l@));
    }
    r
}


// ---------------------------------------------------------------------------
// Searching from the end

/// Position of the last `c` in `s`, or -1 when `c` does not occur.
pub open spec fn ridx_of(s: Seq<char>, c: char) -> int
    decreases s.len(),
{
    if s.len() == 0 {
        -1
    } else if s.last() == c {
        s.len() - 1
    } else {
        ridx_of(s.drop_last(), c)
    }
}

pub proof fn lemma_ridx_of(s: Seq<char>, c: char)
    ensures
        -1 <= ridx_of(s, c) < s.len(),
    decreases s.len(),
{
    if s.len() > 0 && s.last() != c {
        lemma_ridx_of(s.drop_last(), c);
    }
}

/// Position of the last `c` in `v` plus one, or 0 when `c` does not occur.
pub fn rfind_char_end(v: &[char], c: char) -> (k: usize)
    ensures
        k == ridx_of(v@, c) + 1,
{
    let mut k: usize = v.len();
    proof {
        assert(v@.take(k as int) =~= v@);
    }
    while k > 0 && v[k - 1] != c
        invariant
            k <= v@.len(),
            ridx_of(v@, c) == ridx_of(v@.take(k as int), c),
        decreases k,
    {
        proof {
            assert(v@.take(k as int).drop_last() =~= v@.take(k - 1));
        }
        k = k - 1;
    }
    proof {
        if k == 0 {
            assert(v@.take(0).len() == 0);
        }
    }
    k
}

// ---------------------------------------------------------------------------
// Substrings

/// `str::contains` for a string pattern.
pub open spec fn contains_seq(s: Seq<char>, p: Seq<char>) -> bool {
    exists|i: int| 0 <= i <= s.len() - p.len() && #[trigger] s.subrange(i, i + p.len()) == p
}

/// `str::contains` for a string pattern, on characters.
pub fn contains_chars(s: &[char], p: &[char]) -> (r: bool)
    ensures
        r == contains_seq(s@, p@),
{
    if p.len() > s.len() {
        return false;
    }
    let last = s.len() - p.len();
    let mut i: usize = 0;
    while i < last
        invariant
            p@.len() <= s@.len(),
            last == s@.len() - p@.len(),
            last + p.len() == s.len(),
            i <= last,
            forall|j: int| 0 <= j < i ==> #[trigger] s@.subrange(j, j + p@.len()) != p@,
        decreases last - i,
    {
        let w = sub_chars(s, i, i + p.len());
        if chars_eq(w.as_slice(), p) {
            return true;
        }
        i = i + 1;
    }
    let w = sub_chars(s, last, s.len());
    proof {
        assert(w@ == s@.subrange(last as int, last + p@.len()));
    }
    chars_eq(w.as_slice(), p)
}

/// `str::contains` for a string pattern.
pub fn contains_str(s: &str, p: &str) -> (r: bool)
    ensures
        r == contains_seq(s@, p@),
{
    let sv = chars_of(s);
    let pv = chars_of(p);
    contains_chars(sv.as_slice(), pv.as_slice())
}



/// Index of the first occurrence of `p` in `s` at or after `i`, or the
/// length of `s` when there is none.
pub open spec fn find_from(s: Seq<char>, p: Seq<char>, i: int) -> int
    decreases s.len() + 1 - i,
{
    if i < 0 || i + p.len() > s.len() {
        s.len() as int
    } else if s.subrange(i, i + p.len()) == p {
        i
    } else {
        find_from(s, p, i + 1)
    }
}

/// `str::find` for a string pattern: where `p` first occurs in `s`, or the
/// length of `s` when it does not.
pub open spec fn seq_index(s: Seq<char>, p: Seq<char>) -> int {
    find_from(s, p, 0)
}

pub proof fn lemma_find_from(s: Seq<char>, p: Seq<char>, i: int)
    requires
        0 <= i,
    ensures
        find_from(s, p, i) == s.len() || (i <= find_from(s, p, i) && find_from(s, p, i) + p.len()
            <= s.len() && s.subrange(find_from(s, p, i), find_from(s, p, i) + p.len()) == p),
        find_from(s, p, i) <= s.len() || find_from(s, p, i) + p.len() <= s.len(),
    decreases s.len() + 1 - i,
{
    if !(i + p.len() > s.len()) && s.subrange(i, i + p.len()) != p {
        lemma_find_from(s, p, i + 1);
    }
}

/// Where `p` first occurs in `s`, or `s.len()`.
pub fn find_seq(s: &[char], p: &[char]) -> (r: usize)
    ensures
        r == seq_index(s@, p@),
{
    if p.len() > s.len() {
        return s.len();
    }
    let last = s.len() - p.len();
    let mut i: usize = 0;
    while i < last
        invariant
            i <= last,
            last == s@.len() - p@.len(),
            last + p.len() == s.len(),
            find_from(s@, p@, 0) == find_from(s@, p@, i as int),
        decreases last - i,
    {
        let w = sub_chars(s, i, i + p.len());
        if chars_eq(w.as_slice(), p) {
            return i;
        }
        i = i + 1;
    }
    let w = sub_chars(s, last, s.len());
    if chars_eq(w.as_slice(), p) {
        return last;
    }
    assert(find_from(s@, p@, last + 1) == s@.len());
    s.len()
}

/// `s` without its leading characters that satisfy `f`.
pub open spec fn strip_front(s: Seq<char>, f: spec_fn(char) -> bool) -> Seq<char>
    decreases s.len(),
{
    if s.len() > 0 && f(s[0]) {
        strip_front(s.drop_first(), f)
    } else {
        s
    }
}

/// `s` without its trailing characters that satisfy `f`.
pub open spec fn strip_back(s: Seq<char>, f: spec_fn(char) -> bool) -> Seq<char>
    decreases s.len(),
{
    if s.len() > 0 && f(s.last()) {
        strip_back(s.drop_last(), f)
    } else {
        s
    }
}

/// `str::trim_matches` with a predicate.
pub open spec fn strip_both(s: Seq<char>, f: spec_fn(char) -> bool) -> Seq<char> {
    strip_back(strip_front(s, f), f)
}

/// The character `c`.
pub open spec fn char_is(c: char) -> spec_fn(char) -> bool {
    |x: char| x == c
}

/// `str::trim_matches(c)`.
pub fn trim_matching(v: &[char], c: char) -> (r: Vec<char>)
    ensures
        r@ == strip_both(v@, char_is(c)),
{
    let ghost f = char_is(c);
    let mut a: usize = 0;
    assert(v@.skip(0) =~= v@);
    while a < v.len() && v[a] == c
        invariant
            f == char_is(c),
            a <= v@.len(),
            strip_front(v@, f) == strip_front(v@.skip(a as int), f),
        decreases v@.len() - a,
    {
        assert(v@.skip(a as int)[0] == v@[a as int]);
        assert(f(v@[a as int]));
        assert(v@.skip(a as int).drop_first() =~= v@.skip(a + 1));
        a = a + 1;
    }
    assert(a < v@.len() ==> !f(v@.skip(a as int)[0]));
    let mut b: usize = v.len();
    assert(v@.skip(a as int) =~= v@.subrange(a as int, b as int));
    while b > a && v[b - 1] == c
        invariant
            f == char_is(c),
            a <= b <= v@.len(),
            strip_front(v@, f) == v@.subrange(a as int, v@.len() as int),
            strip_back(strip_front(v@, f), f) == strip_back(v@.subrange(a as int, b as int), f),
        decreases b,
    {
        assert(v@.subrange(a as int, b as int).last() == v@[b - 1]);
        assert(f(v@[b - 1]));
        assert(v@.subrange(a as int, b as int).drop_last() =~= v@.subrange(a as int, b - 1));
        b = b - 1;
    }
    assert(b > a ==> !f(v@.subrange(a as int, b as int).last()));
    sub_chars(v, a, b)
}

/// The lowercase form of a string as `str::to_lowercase` gives it (by the
/// Unicode `Lowercase` mapping).
pub uninterp spec fn unicode_lowercase(s: Seq<char>) -> Seq<char>;

/// `str::to_lowercase`. Stated: on an ASCII string it lowercases `A`..=`Z`
/// and keeps the rest; for other strings the result is named
/// `unicode_lowercase(s)` and the Unicode mapping is left unsaid.
#[verifier::external_body]
pub fn to_lowercase(s: &str) -> (r: String)
    ensures
        r@ == unicode_lowercase(s@),
        (forall|i: int| 0 <= i < s@.len() ==> (#[trigger] s@[i] as u32) < 128) ==> r@ == lower_ascii(
            s@,
        ),
{
    s.to_lowercase()
}

// ---------------------------------------------------------------------------
// Unsigned numbers

/// The value of a string of decimal digits.
pub open spec fn digits_value(s: Seq<char>) -> nat
    decreases s.len(),
{
    if s.len() == 0 {
        0
    } else {
        digits_value(s.drop_last()) * 10 + ((s.last() as nat) - 48) as nat
    }
}

/// The text after an optional leading `+`.
pub open spec fn unsigned_digits(t: Seq<char>) -> Seq<char> {
    if t.len() > 0 && t[0] == '+' {
        t.drop_first()
    } else {
        t
    }
}

/// What `str::parse` accepts for an unsigned integer type whose largest
/// value is `max`: an optional `+`, then one or more ASCII digits whose
/// value is at most `max`.
pub open spec fn parsed_unsigned(t: Seq<char>, max: nat) -> Option<nat> {
    let d = unsigned_digits(t);
    if d.len() > 0 && (forall|i: int| 0 <= i < d.len() ==> '0' <= #[trigger] d[i] <= '9')
        && digits_value(d) <= max {
        Some(digits_value(d))
    } else {
        None
    }
}

/// `str::parse` for an unsigned integer type whose largest value is `max`.
pub fn parse_unsigned(t: &[char], max: u64) -> (r: Option<u64>)
    ensures
        match r {
            Some(v) => parsed_unsigned(t@, max as nat) == Some(v as nat),
            None => parsed_unsigned(t@, max as nat) is None,
        },
{
    let start: usize = if t.len() > 0 && t[0] == '+' {
        1
    } else {
        0
    };
    let d = sub_chars(t, start, t.len());
    proof {
        if start == 1 {
            assert(d@ =~= t@.drop_first());
        } else {
            assert(d@ =~= t@);
        }
    }
    if d.len() == 0 {
        return None;
    }
    let cap: u128 = (max as u128) + 1;
    let mut acc: u128 = 0;
    let mut i: usize = 0;
    while i < d.len()
        invariant
            i <= d@.len(),
            d@ == unsigned_digits(t@),
            cap == max + 1,
            forall|j: int| 0 <= j < i ==> '0' <= #[trigger] d@[j] <= '9',
            acc == (if digits_value(d@.take(i as int)) < cap {
                digits_value(d@.take(i as int))
            } else {
                cap as nat
            }),
        decreases d@.len() - i,
    {
        let c = d[i];
        if !('0' <= c && c <= '9') {
            proof {
                assert(!('0' <= d@[i as int] <= '9'));
            }
            return None;
        }
        let dv: u128 = (c as u32 - 48) as u128;
        proof {
            assert(d@.take(i + 1).drop_last() =~= d@.take(i as int));
            assert(d@.take(i + 1).last() == c);
        }
        let ghost v = digits_value(d@.take(i as int));
        let next = if acc >= cap {
            cap
        } else {
            let n = acc * 10 + dv;
            if n >= cap {
                cap
            } else {
                n
            }
        };
        proof {
            assert(digits_value(d@.take(i + 1)) == v * 10 + dv);
            if v >= cap {
                assert(v * 10 + dv >= cap) by (nonlinear_arith)
                    requires
                        v >= cap,
                        dv >= 0,
                ;
            }
        }
        acc = next;
        i = i + 1;
    }
    proof {
        assert(d@.take(d@.len() as int) =~= d@);
    }
    if acc >= cap {
        return None;
    }
    Some(acc as u64)
}

} // verus!
