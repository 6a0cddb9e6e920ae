//! What a build produced: the program names its build files declare, where
//! the program is looked for, and the plan for Python projects.
use vstd::prelude::*;

use crate::cli::{is_on_path, on_path};
use crate::detect::DirEntry;
use crate::git::{first_word, first_word_chars};
use crate::package::{join_path, opt_view, path_join};
use crate::util::{kebab, pascal_to_kebab_case};
use crate::text::{
    chars_eq, chars_of, contains_chars, extend_str, owned_strings, contains_seq, ends_with, ends_with_chars, eq_str, find_char, find_seq, has_char, idx_of,
    lemma_find_from, lemma_idx_of, lines, lines_of, seq_index, string_of, strip_back, strip_both,
    char_is, starts_with, starts_with_chars, strip_front, sub_chars, trim, trim_chars, trim_matching,
    unicode_lowercase, views,
};

verus! {

broadcast use vstd::string::group_string_axioms;

// ---------------------------------------------------------------------------
// Lines of build files

/// The words of a list of character vectors, as sequences.
pub open spec fn char_views(v: Seq<Vec<char>>) -> Seq<Seq<char>> {
    v.map_values(|w: Vec<char>| w@)
}

fn push_all(out: &mut Vec<Vec<char>>, more: Vec<Vec<char>>)
    ensures
        char_views(final(out)@) == char_views(old(out)@) + char_views(more@),
{
    let ghost start = char_views(out@);
    let mut i: usize = 0;
    while i < more.len()
        invariant
            i <= more@.len(),
            char_views(out@) == start + char_views(more@.take(i as int)),
        decreases more@.len() - i,
    {
        let w = sub_chars(more[i].as_slice(), 0, more[i].len());
        assert(w@ =~= more@[i as int]@);
        let ghost before = out@;
        out.push(w);
        proof {
            assert(char_views(out@) =~= char_views(before).push(w@));
            assert(char_views(more@.take(i + 1)) =~= char_views(more@.take(i as int)).push(more@[i as int]@));
            assert(more@.take(i + 1) =~= more@.take(i as int).push(more@[i as int]));
            assert(char_views(out@) =~= start + char_views(more@.take(i + 1)));
        }
        i = i + 1;
    }
    proof {
        assert(more@.take(more@.len() as int) =~= more@);
    }
}

fn strings_of(v: Vec<Vec<char>>) -> (r: Vec<String>)
    ensures
        views(r@) == char_views(v@),
{
    let mut r: Vec<String> = Vec::new();
    let mut i: usize = 0;
    while i < v.len()
        invariant
            i <= v@.len(),
            views(r@) == char_views(v@.take(i as int)),
        decreases v@.len() - i,
    {
        let w = string_of(v[i].as_slice());
        let ghost before = r@;
        r.push(w);
        proof {
            assert(views(r@) =~= views(before).push(w@));
            assert(char_views(v@.take(i + 1)) =~= char_views(v@.take(i as int)).push(v@[i as int]@));
            assert(v@.take(i + 1) =~= v@.take(i as int).push(v@[i as int]));
            assert(views(r@) =~= char_views(v@.take(i + 1)));
        }
        i = i + 1;
    }
    proof {
        assert(v@.take(v@.len() as int) =~= v@);
    }
    r
}

// ---------------------------------------------------------------------------
// Makefile

/// A rule name that may be the program: not empty, not a special target
/// (`.`), no pattern (`%`) or variable (`$`), and not `all`, `clean`,
/// `install` or `test`.
pub open spec fn make_target_ok(t: Seq<char>) -> bool {
    &&& t.len() > 0
    &&& t[0] != '.'
    &&& !t.contains('%')
    &&& !t.contains('$')
    &&& t != "all"@ && t != "clean"@ && t != "install"@ && t != "test"@
}

/// A compiler command line (it mentions `gcc`, `g++`, `clang` or `cc`).
pub open spec fn compiles(t: Seq<char>) -> bool {
    contains_seq(t, "gcc"@) || contains_seq(t, "g++"@) || contains_seq(t, "clang"@) || contains_seq(
        t,
        "cc"@,
    )
}

/// The program names one Makefile line gives: the rule name before a `:`,
/// and the first word after `-o` on a compiler command line.
pub open spec fn makefile_line(line: Seq<char>) -> Seq<Seq<char>> {
    let t = trim(line);
    let c = idx_of(t, ':');
    let o = seq_index(t, "-o"@);
    (if c < t.len() && make_target_ok(trim(t.take(c))) {
        seq![trim(t.take(c))]
    } else {
        seq![]
    }) + (if compiles(t) && o < t.len() {
        match first_word(trim(t.skip(o + 2))) {
            Some(w) => seq![w],
            None => seq![],
        }
    } else {
        seq![]
    })
}

pub open spec fn makefile_scan(ls: Seq<Seq<char>>) -> Seq<Seq<char>>
    decreases ls.len(),
{
    if ls.len() == 0 {
        seq![]
    } else {
        makefile_scan(ls.drop_last()) + makefile_line(ls.last())
    }
}

/// The names a Makefile suggests for its program, in order: those of its
/// lines, then the repository name, its lowercase form, `a.out` and `main`.
pub open spec fn makefile_names(content: Seq<char>, repo: Seq<char>) -> Seq<Seq<char>> {
    makefile_scan(lines(content)) + seq![repo, unicode_lowercase(repo), "a.out"@, "main"@]
}

fn target_ok(t: &[char]) -> (r: bool)
    ensures
        r == make_target_ok(t@),
{
    t.len() > 0 && t[0] != '.' && !has_char(t, '%') && !has_char(t, '$') && !eq_str(t, "all")
        && !eq_str(t, "clean") && !eq_str(t, "install") && !eq_str(t, "test")
}

fn mentions(t: &[char], p: &str) -> (r: bool)
    ensures
        r == contains_seq(t@, p@),
{
    let pv = chars_of(p);
    contains_chars(t, pv.as_slice())
}

fn makefile_line_names(l: &[char]) -> (r: Vec<Vec<char>>)
    ensures
        char_views(r@) == makefile_line(l@),
{
    let t = trim_chars(l);
    let mut out: Vec<Vec<char>> = Vec::new();
    let c = find_char(t.as_slice(), ':');
    proof {
        lemma_idx_of(t@, ':');
    }
    if c < t.len() {
        let head = sub_chars(t.as_slice(), 0, c);
        let target = trim_chars(head.as_slice());
        proof {
            assert(head@ =~= t@.take(c as int));
        }
        if target_ok(target.as_slice()) {
            out.push(target);
        }
    }
    let ghost first = char_views(out@);
    let dash_o = chars_of("-o");
    let o = find_seq(t.as_slice(), dash_o.as_slice());
    proof {
        reveal_strlit("-o");
        lemma_find_from(t@, dash_o@, 0);
    }
    if (mentions(t.as_slice(), "gcc") || mentions(t.as_slice(), "g++") || mentions(
        t.as_slice(),
        "clang",
    ) || mentions(t.as_slice(), "cc")) && o < t.len() {
        let rest = sub_chars(t.as_slice(), o + 2, t.len());
        let rt = trim_chars(rest.as_slice());
        proof {
            assert(rest@ =~= t@.skip(o + 2));
        }
        match first_word_chars(rt.as_slice()) {
            Some(w) => {
                out.push(w);
            },
            None => {},
        }
    }
    proof {
        assert(char_views(out@) =~= makefile_line(l@));
    }
    out
}

/// The names a Makefile suggests for its program, in order: the rule
/// names and `-o` outputs of its lines, then the repository name, its
/// lowercase form, `a.out` and `main`.
pub fn makefile_targets(content: &str, repo: &str) -> (r: Vec<String>)
    ensures
        views(r@) == makefile_names(content@, repo@),
{
    let c = chars_of(content);
    let ls = lines_of(c.as_slice());
    let ghost lv = char_views(ls@);
    let mut out: Vec<Vec<char>> = Vec::new();
    let mut i: usize = 0;
    while i < ls.len()
        invariant
            i <= ls@.len(),
            lv == char_views(ls@),
            lv == lines(content@),
            char_views(out@) == makefile_scan(lv.take(i as int)),
        decreases ls@.len() - i,
    {
        let more = makefile_line_names(ls[i].as_slice());
        push_all(&mut out, more);
        proof {
            assert(lv.take(i + 1).drop_last() =~= lv.take(i as int));
        }
        i = i + 1;
    }
    proof {
        assert(lv.take(ls@.len() as int) =~= lv);
    }
    let mut r = strings_of(out);
    r.push(repo.to_string());
    r.push(crate::text::to_lowercase(repo));
    r.push("a.out".to_string());
    r.push("main".to_string());
    proof {
        assert(views(r@) =~= makefile_names(content@, repo@));
    }
    r
}

// ---------------------------------------------------------------------------
// meson.build

/// The text between the first `q` in `s` and the next one: none when `s`
/// has no `q`; no name when the quote is not closed.
pub open spec fn quoted(s: Seq<char>, q: char) -> Option<Seq<Seq<char>>> {
    let a = idx_of(s, q);
    if a < s.len() {
        let rest = s.skip(a + 1);
        let b = idx_of(rest, q);
        Some(if b < rest.len() { seq![rest.take(b)] } else { seq![] })
    } else {
        None
    }
}

/// The program name one `meson.build` line gives: the quoted name after
/// `executable(` (single quotes looked for first).
pub open spec fn meson_line(line: Seq<char>) -> Seq<Seq<char>> {
    let t = trim(line);
    let st = seq_index(t, "executable("@);
    if st < t.len() {
        let after = t.skip(st + 11);
        match quoted(after, '\'') {
            Some(n) => n,
            None => match quoted(after, '"') {
                Some(n) => n,
                None => seq![],
            },
        }
    } else {
        seq![]
    }
}

pub open spec fn meson_scan(ls: Seq<Seq<char>>) -> Seq<Seq<char>>
    decreases ls.len(),
{
    if ls.len() == 0 {
        seq![]
    } else {
        meson_scan(ls.drop_last()) + meson_line(ls.last())
    }
}

/// The names a `meson.build` declares for its programs, or the repository
/// name and its lowercase form when it declares none.
pub open spec fn meson_names(content: Seq<char>, repo: Seq<char>) -> Seq<Seq<char>> {
    let n = meson_scan(lines(content));
    if n.len() == 0 {
        seq![repo, unicode_lowercase(repo)]
    } else {
        n
    }
}

fn quoted_name(s: &[char], q: char) -> (r: Option<Vec<Vec<char>>>)
    ensures
        match r {
            Some(v) => quoted(s@, q) == Some(char_views(v@)),
            None => quoted(s@, q) is None,
        },
{
    let a = find_char(s, q);
    proof {
        lemma_idx_of(s@, q);
    }
    if a == s.len() {
        return None;
    }
    let rest = sub_chars(s, a + 1, s.len());
    assert(rest@ =~= s@.skip(a + 1));
    let b = find_char(rest.as_slice(), q);
    proof {
        lemma_idx_of(rest@, q);
    }
    let mut v: Vec<Vec<char>> = Vec::new();
    if b < rest.len() {
        let n = sub_chars(rest.as_slice(), 0, b);
        assert(n@ =~= rest@.take(b as int));
        v.push(n);
    }
    proof {
        assert(quoted(s@, q) == Some(char_views(v@))) by {
            if b < rest.len() {
                assert(char_views(v@) =~= seq![rest@.take(b as int)]);
            } else {
                assert(char_views(v@) =~= Seq::<Seq<char>>::empty());
            }
        }
    }
    Some(v)
}

fn meson_line_names(l: &[char]) -> (r: Vec<Vec<char>>)
    ensures
        char_views(r@) == meson_line(l@),
{
    let t = trim_chars(l);
    let pat = chars_of("executable(");
    let st = find_seq(t.as_slice(), pat.as_slice());
    proof {
        reveal_strlit("executable(");
        lemma_find_from(t@, pat@, 0);
    }
    if st < t.len() {
        let after = sub_chars(t.as_slice(), st + 11, t.len());
        assert(after@ =~= t@.skip(st + 11));
        match quoted_name(after.as_slice(), '\'') {
            Some(n) => n,
            None => match quoted_name(after.as_slice(), '"') {
                Some(n) => n,
                None => Vec::new(),
            },
        }
    } else {
        Vec::new()
    }
}

/// The program names a `meson.build` declares (the quoted first argument
/// of each `executable(` line), or the repository name and its lowercase
/// form when there are none.
pub fn meson_targets(content: &str, repo: &str) -> (r: Vec<String>)
    ensures
        views(r@) == meson_names(content@, repo@),
{
    let c = chars_of(content);
    let ls = lines_of(c.as_slice());
    let ghost lv = char_views(ls@);
    let mut out: Vec<Vec<char>> = Vec::new();
    let mut i: usize = 0;
    while i < ls.len()
        invariant
            i <= ls@.len(),
            lv == char_views(ls@),
            lv == lines(content@),
            char_views(out@) == meson_scan(lv.take(i as int)),
        decreases ls@.len() - i,
    {
        let more = meson_line_names(ls[i].as_slice());
        push_all(&mut out, more);
        proof {
            assert(lv.take(i + 1).drop_last() =~= lv.take(i as int));
        }
        i = i + 1;
    }
    proof {
        assert(lv.take(ls@.len() as int) =~= lv);
    }
    if out.len() == 0 {
        let mut r: Vec<String> = Vec::new();
        r.push(repo.to_string());
        r.push(crate::text::to_lowercase(repo));
        proof {
            assert(views(r@) =~= meson_names(content@, repo@));
        }
        r
    } else {
        strings_of(out)
    }
}

// ---------------------------------------------------------------------------
// CMakeLists.txt

/// Whether `c` is alphanumeric as `char::is_alphanumeric` decides it (by
/// the Unicode `Alphabetic` and `Numeric` properties).
pub uninterp spec fn unicode_alphanumeric(c: char) -> bool;

/// `char::is_alphanumeric`: among ASCII characters exactly letters and
/// digits.
pub open spec fn is_alnum(c: char) -> bool {
    if (c as u32) < 128 {
        ('a' <= c <= 'z') || ('A' <= c <= 'Z') || ('0' <= c <= '9')
    } else {
        unicode_alphanumeric(c)
    }
}

/// `char::is_alphanumeric`. Stated: among ASCII characters exactly
/// letters and digits; beyond ASCII the result is named
/// `unicode_alphanumeric(c)` (the Unicode tables are left unsaid).
#[verifier::external_body]
fn is_alphanumeric(c: char) -> (r: bool)
    ensures
        (c as u32) < 128 ==> r == (('a' <= c <= 'z') || ('A' <= c <= 'Z') || ('0' <= c <= '9')),
        (c as u32) >= 128 ==> r == unicode_alphanumeric(c),
{
    c.is_alphanumeric()
}

/// A character that is not part of a target name.
pub open spec fn not_name_char() -> spec_fn(char) -> bool {
    |c: char| !(is_alnum(c) || c == '_' || c == '-')
}

fn is_name_char(c: char) -> (r: bool)
    ensures
        r == !not_name_char()(c),
{
    is_alphanumeric(c) || c == '_' || c == '-'
}

fn trim_non_name(v: &[char]) -> (r: Vec<char>)
    ensures
        r@ == strip_both(v@, not_name_char()),
{
    let ghost f = not_name_char();
    let mut a: usize = 0;
    assert(v@.skip(0) =~= v@);
    while a < v.len() && !is_name_char(v[a])
        invariant
            f == not_name_char(),
            a <= v@.len(),
            strip_front(v@, f) == strip_front(v@.skip(a as int), f),
        decreases v@.len() - a,
    {
        assert(v@.skip(a as int)[0] == v@[a as int]);
        assert(v@.skip(a as int).drop_first() =~= v@.skip(a + 1));
        a = a + 1;
    }
    assert(a < v@.len() ==> !f(v@.skip(a as int)[0]));
    let mut b: usize = v.len();
    assert(v@.skip(a as int) =~= v@.subrange(a as int, b as int));
    while b > a && !is_name_char(v[b - 1])
        invariant
            f == not_name_char(),
            a <= b <= v@.len(),
            strip_front(v@, f) == v@.subrange(a as int, v@.len() as int),
            strip_back(strip_front(v@, f), f) == strip_back(v@.subrange(a as int, b as int), f),
        decreases b,
    {
        assert(v@.subrange(a as int, b as int).last() == v@[b - 1]);
        assert(v@.subrange(a as int, b as int).drop_last() =~= v@.subrange(a as int, b - 1));
        b = b - 1;
    }
    assert(b > a ==> !f(v@.subrange(a as int, b as int).last()));
    sub_chars(v, a, b)
}

/// The program name one `CMakeLists.txt` line gives: the first word after
/// `add_executable(`, without the characters around it that cannot be in
/// a name (only letters, digits, `_` and `-` can).
pub open spec fn cmake_line(line: Seq<char>) -> Seq<Seq<char>> {
    let t = trim(line);
    let st = seq_index(t, "add_executable("@);
    if st < t.len() {
        match first_word(t.skip(st + 15)) {
            Some(w) => {
                let n = strip_both(w, not_name_char());
                if n.len() > 0 { seq![n] } else { seq![] }
            },
            None => seq![],
        }
    } else {
        seq![]
    }
}

pub open spec fn cmake_scan(ls: Seq<Seq<char>>) -> Seq<Seq<char>>
    decreases ls.len(),
{
    if ls.len() == 0 {
        seq![]
    } else {
        cmake_scan(ls.drop_last()) + cmake_line(ls.last())
    }
}

/// The names a `CMakeLists.txt` declares for its programs, or the
/// repository name and its lowercase form when it declares none.
pub open spec fn cmake_names(content: Seq<char>, repo: Seq<char>) -> Seq<Seq<char>> {
    let n = cmake_scan(lines(content));
    if n.len() == 0 {
        seq![repo, unicode_lowercase(repo)]
    } else {
        n
    }
}

fn cmake_line_names(l: &[char]) -> (r: Vec<Vec<char>>)
    ensures
        char_views(r@) == cmake_line(l@),
{
    let t = trim_chars(l);
    let pat = chars_of("add_executable(");
    let st = find_seq(t.as_slice(), pat.as_slice());
    proof {
        reveal_strlit("add_executable(");
        lemma_find_from(t@, pat@, 0);
    }
    let mut out: Vec<Vec<char>> = Vec::new();
    if st < t.len() {
        let after = sub_chars(t.as_slice(), st + 15, t.len());
        assert(after@ =~= t@.skip(st + 15));
        match first_word_chars(after.as_slice()) {
            Some(w) => {
                let n = trim_non_name(w.as_slice());
                if n.len() > 0 {
                    out.push(n);
                }
            },
            None => {},
        }
    }
    proof {
        assert(char_views(out@) =~= cmake_line(l@));
    }
    out
}

/// The program names a `CMakeLists.txt` declares (the first argument of
/// each `add_executable(` line), or the repository name and its lowercase
/// form when there are none.
pub fn cmake_targets(content: &str, repo: &str) -> (r: Vec<String>)
    ensures
        views(r@) == cmake_names(content@, repo@),
{
    let c = chars_of(content);
    let ls = lines_of(c.as_slice());
    let ghost lv = char_views(ls@);
    let mut out: Vec<Vec<char>> = Vec::new();
    let mut i: usize = 0;
    while i < ls.len()
        invariant
            i <= ls@.len(),
            lv == char_views(ls@),
            lv == lines(content@),
            char_views(out@) == cmake_scan(lv.take(i as int)),
        decreases ls@.len() - i,
    {
        let more = cmake_line_names(ls[i].as_slice());
        push_all(&mut out, more);
        proof {
            assert(lv.take(i + 1).drop_last() =~= lv.take(i as int));
        }
        i = i + 1;
    }
    proof {
        assert(lv.take(ls@.len() as int) =~= lv);
    }
    if out.len() == 0 {
        let mut r: Vec<String> = Vec::new();
        r.push(repo.to_string());
        r.push(crate::text::to_lowercase(repo));
        proof {
            assert(views(r@) =~= cmake_names(content@, repo@));
        }
        r
    } else {
        strings_of(out)
    }
}

// ---------------------------------------------------------------------------
// Cargo.toml

/// `t.split('=').nth(1)`, trimmed and without surrounding double quotes:
/// the text between the first `=` and the next one (or the end).
pub open spec fn field_value(t: Seq<char>) -> Option<Seq<char>> {
    let a = idx_of(t, '=');
    if a < t.len() {
        let rest = t.skip(a + 1);
        Some(strip_both(trim(rest.take(idx_of(rest, '='))), char_is('"')))
    } else {
        None
    }
}

/// What a reading of `Cargo.toml` knows after some lines: inside
/// `[package]`, inside a `[[bin]]`, the package name, whether a `[[bin]]`
/// was seen, and the `[[bin]]` names.
pub type CargoScan = (bool, bool, Seq<char>, bool, Seq<Seq<char>>);

/// One line of `Cargo.toml` read.
pub open spec fn cargo_step(st: CargoScan, line: Seq<char>) -> CargoScan {
    let t = trim(line);
    if starts_with(t, "[package]"@) {
        (true, false, st.2, st.3, st.4)
    } else if starts_with(t, "[[bin]]"@) {
        (false, true, st.2, true, st.4)
    } else {
        let section = starts_with(t, "["@);
        let ip = st.0 && !section;
        let ib = st.1 && !section;
        let is_name = starts_with(t, "name = "@);
        let name = if ip && is_name {
            match field_value(t) {
                Some(v) => v,
                None => st.2,
            }
        } else {
            st.2
        };
        let bins = if ib && is_name {
            match field_value(t) {
                Some(v) => if v.len() > 0 { st.4.push(v) } else { st.4 },
                None => st.4,
            }
        } else {
            st.4
        };
        (ip, ib, name, st.3, bins)
    }
}

pub open spec fn cargo_scan(ls: Seq<Seq<char>>) -> CargoScan
    decreases ls.len(),
{
    if ls.len() == 0 {
        (false, false, seq![], false, seq![])
    } else {
        cargo_step(cargo_scan(ls.drop_last()), ls.last())
    }
}

/// The programs a `Cargo.toml` builds: the names of its `[[bin]]` tables,
/// or the package name when there is no `[[bin]]`.
pub open spec fn cargo_names(content: Seq<char>) -> Seq<Seq<char>> {
    let st = cargo_scan(lines(content));
    st.4 + (if !st.3 && st.2.len() > 0 { seq![st.2] } else { seq![] })
}

fn field_value_of(t: &[char]) -> (r: Option<Vec<char>>)
    ensures
        match r {
            Some(v) => field_value(t@) == Some(v@),
            None => field_value(t@) is None,
        },
{
    let a = find_char(t, '=');
    proof {
        lemma_idx_of(t@, '=');
    }
    if a == t.len() {
        return None;
    }
    let rest = sub_chars(t, a + 1, t.len());
    assert(rest@ =~= t@.skip(a + 1));
    let b = find_char(rest.as_slice(), '=');
    proof {
        lemma_idx_of(rest@, '=');
    }
    let seg = sub_chars(rest.as_slice(), 0, b);
    assert(seg@ =~= rest@.take(b as int));
    let tr = trim_chars(seg.as_slice());
    Some(trim_matching(tr.as_slice(), '"'))
}

fn starts(t: &[char], p: &str) -> (r: bool)
    ensures
        r == starts_with(t@, p@),
{
    let pv = chars_of(p);
    starts_with_chars(t, pv.as_slice())
}

/// The programs a `Cargo.toml` builds: the `name` of each `[[bin]]` table,
/// in order, or the `[package]` name when there is no `[[bin]]`.
pub fn cargo_bin_names(content: &str) -> (r: Vec<String>)
    ensures
        views(r@) == cargo_names(content@),
{
    let c = chars_of(content);
    let ls = lines_of(c.as_slice());
    let ghost lv = char_views(ls@);
    let mut in_package = false;
    let mut in_bin = false;
    let mut name: Vec<char> = Vec::new();
    let mut explicit = false;
    let mut bins: Vec<Vec<char>> = Vec::new();
    let mut i: usize = 0;
    proof {
        assert(char_views(bins@) =~= Seq::<Seq<char>>::empty());
        assert(name@ =~= Seq::<char>::empty());
    }
    while i < ls.len()
        invariant
            i <= ls@.len(),
            lv == char_views(ls@),
            lv == lines(content@),
            cargo_scan(lv.take(i as int)) == (in_package, in_bin, name@, explicit, char_views(
                bins@,
            )),
        decreases ls@.len() - i,
    {
        proof {
            assert(lv.take(i + 1).drop_last() =~= lv.take(i as int));
            assert(lv.take(i + 1).last() == ls@[i as int]@);
        }
        let t = trim_chars(ls[i].as_slice());
        if starts(t.as_slice(), "[package]") {
            in_package = true;
            in_bin = false;
        } else if starts(t.as_slice(), "[[bin]]") {
            in_package = false;
            in_bin = true;
            explicit = true;
        } else {
            if starts(t.as_slice(), "[") {
                in_package = false;
                in_bin = false;
            }
            let is_name = starts(t.as_slice(), "name = ");
            if in_package && is_name {
                match field_value_of(t.as_slice()) {
                    Some(v) => {
                        name = v;
                    },
                    None => {},
                }
            }
            if in_bin && is_name {
                match field_value_of(t.as_slice()) {
                    Some(v) => {
                        if v.len() > 0 {
                            let ghost before = bins@;
                            bins.push(v);
                            proof {
                                assert(char_views(bins@) =~= char_views(before).push(v@));
                            }
                        }
                    },
                    None => {},
                }
            }
        }
        i = i + 1;
    }
    proof {
        assert(lv.take(ls@.len() as int) =~= lv);
    }
    let mut r = strings_of(bins);
    if !explicit && name.len() > 0 {
        let ghost before = r@;
        r.push(string_of(name.as_slice()));
        proof {
            assert(views(r@) =~= views(before).push(name@));
        }
    }
    proof {
        assert(views(r@) =~= cargo_names(content@));
    }
    r
}

// ---------------------------------------------------------------------------
// Finding the built program

/// The build file whose program names are looked for, for build system
/// `bs`, and whether it is in the parent of the build directory: the
/// Makefile for make, `meson.build` for meson, `CMakeLists.txt` for cmake.
pub fn search_build_file(bs: &str) -> (r: Option<(String, bool)>)
    ensures
        match r {
            Some((f, up)) => (bs@ == "make"@ && f@ == "Makefile"@ && !up) || (bs@ == "meson"@ && f@
                == "meson.build"@ && up) || (bs@ == "cmake"@ && f@ == "CMakeLists.txt"@ && up),
            None => bs@ != "make"@ && bs@ != "meson"@ && bs@ != "cmake"@,
        },
{
    let b = chars_of(bs);
    if eq_str(b.as_slice(), "make") {
        Some(("Makefile".to_string(), false))
    } else if eq_str(b.as_slice(), "meson") {
        Some(("meson.build".to_string(), true))
    } else if eq_str(b.as_slice(), "cmake") {
        Some(("CMakeLists.txt".to_string(), true))
    } else {
        None
    }
}

/// The names the built program is looked for under, in order: those the
/// build file gives (when it exists; its text, or empty text when it
/// cannot be read), those `Cargo.toml` gives (when it exists), then the
/// repository name, its lowercase and kebab-case forms, `a.out` and `main`.
pub open spec fn search_names(
    bs: Seq<char>,
    build_file: Option<Seq<char>>,
    cargo: Option<Seq<char>>,
    repo: Seq<char>,
) -> Seq<Seq<char>> {
    (match build_file {
        Some(c) => if bs == "make"@ {
            makefile_names(c, repo)
        } else if bs == "meson"@ {
            meson_names(c, repo)
        } else if bs == "cmake"@ {
            cmake_names(c, repo)
        } else {
            seq![]
        },
        None => seq![],
    }) + (match cargo {
        Some(c) => cargo_names(c),
        None => seq![],
    }) + seq![repo, unicode_lowercase(repo), kebab(repo), "a.out"@, "main"@]
}

fn append_strings(out: &mut Vec<String>, more: Vec<String>)
    ensures
        views(final(out)@) == views(old(out)@) + views(more@),
{
    let ghost start = views(out@);
    let mut i: usize = 0;
    while i < more.len()
        invariant
            i <= more@.len(),
            views(out@) == start + views(more@.take(i as int)),
        decreases more@.len() - i,
    {
        let w = more[i].clone();
        let ghost before = out@;
        out.push(w);
        proof {
            assert(views(out@) =~= views(before).push(w@));
            assert(more@.take(i + 1) =~= more@.take(i as int).push(more@[i as int]));
            assert(views(more@.take(i + 1)) =~= views(more@.take(i as int)).push(more@[i as int]@));
        }
        i = i + 1;
    }
    proof {
        assert(more@.take(more@.len() as int) =~= more@);
    }
}

/// The names the built program is looked for under, in order.
pub fn executable_search_names(
    bs: &str,
    build_file: Option<&str>,
    cargo: Option<&str>,
    repo: &str,
) -> (r: Vec<String>)
    ensures
        views(r@) == search_names(bs@, opt_view(build_file), opt_view(cargo), repo@),
{
    let b = chars_of(bs);
    let mut r: Vec<String> = match build_file {
        Some(c) => if eq_str(b.as_slice(), "make") {
            makefile_targets(c, repo)
        } else if eq_str(b.as_slice(), "meson") {
            meson_targets(c, repo)
        } else if eq_str(b.as_slice(), "cmake") {
            cmake_targets(c, repo)
        } else {
            let e: Vec<String> = Vec::new();
            assert(views(e@) =~= Seq::<Seq<char>>::empty());
            e
        },
        None => {
            let e: Vec<String> = Vec::new();
            assert(views(e@) =~= Seq::<Seq<char>>::empty());
            e
        },
    };
    let ghost head = views(r@);
    assert(head == (match build_file {
        Some(c) => if bs@ == "make"@ {
            makefile_names(c@, repo@)
        } else if bs@ == "meson"@ {
            meson_names(c@, repo@)
        } else if bs@ == "cmake"@ {
            cmake_names(c@, repo@)
        } else {
            seq![]
        },
        None => seq![],
    }));
    match cargo {
        Some(c) => append_strings(&mut r, cargo_bin_names(c)),
        None => {},
    }
    let mut tail: Vec<String> = Vec::new();
    tail.push(repo.to_string());
    tail.push(crate::text::to_lowercase(repo));
    tail.push(pascal_to_kebab_case(repo));
    tail.push("a.out".to_string());
    tail.push("main".to_string());
    append_strings(&mut r, tail);
    proof {
        assert(views(r@) =~= search_names(bs@, opt_view(build_file), opt_view(cargo), repo@));
    }
    r
}

/// The directories the built program is looked for in, in order: the
/// extra ones, last first, then the build directory and its `bin`,
/// `build`, `out`, `target`, `target/release`, `target/debug` and `src`.
pub open spec fn search_dirs(build_dir: Seq<char>, extra: Seq<Seq<char>>) -> Seq<Seq<char>> {
    extra.reverse() + seq![
        build_dir,
        path_join(build_dir, "bin"@),
        path_join(build_dir, "build"@),
        path_join(build_dir, "out"@),
        path_join(build_dir, "target"@),
        path_join(build_dir, "target/release"@),
        path_join(build_dir, "target/debug"@),
        path_join(build_dir, "src"@),
    ]
}

fn joined(base: &[char], part: &str) -> (r: String)
    ensures
        r@ == path_join(base@, part@),
{
    let p = chars_of(part);
    let j = join_path(base, p.as_slice());
    string_of(j.as_slice())
}

/// The directories the built program is looked for in, in order.
pub fn executable_search_dirs(build_dir: &str, extra: &[String]) -> (r: Vec<String>)
    ensures
        views(r@) == search_dirs(build_dir@, views(extra@)),
{
    let mut r: Vec<String> = Vec::new();
    let mut i: usize = extra.len();
    while i > 0
        invariant
            i <= extra@.len(),
            views(r@) == views(extra@).subrange(i as int, extra@.len() as int).reverse(),
        decreases i,
    {
        i = i - 1;
        let w = extra[i].clone();
        let ghost before = r@;
        r.push(w);
        proof {
            assert(views(r@) =~= views(before).push(w@));
            assert(views(extra@).subrange(i as int, extra@.len() as int).reverse() =~= views(
                extra@,
            ).subrange(i + 1, extra@.len() as int).reverse().push(extra@[i as int]@));
        }
    }
    proof {
        assert(views(extra@).subrange(0, extra@.len() as int) =~= views(extra@));
    }
    let b = chars_of(build_dir);
    let mut tail: Vec<String> = Vec::new();
    tail.push(build_dir.to_string());
    tail.push(joined(b.as_slice(), "bin"));
    tail.push(joined(b.as_slice(), "build"));
    tail.push(joined(b.as_slice(), "out"));
    tail.push(joined(b.as_slice(), "target"));
    tail.push(joined(b.as_slice(), "target/release"));
    tail.push(joined(b.as_slice(), "target/debug"));
    tail.push(joined(b.as_slice(), "src"));
    append_strings(&mut r, tail);
    proof {
        assert(views(r@) =~= search_dirs(build_dir@, views(extra@)));
    }
    r
}

/// Index of the first `true`, or the length.
pub open spec fn first_true(row: Seq<bool>) -> int
    decreases row.len(),
{
    if row.len() == 0 {
        0
    } else if row[0] {
        0
    } else {
        1 + first_true(row.drop_first())
    }
}

/// The first (directory, name) pair, directories first, whose file is an
/// executable: `found[d][n]` says whether name `n` in directory `d` is one.
pub open spec fn first_found(found: Seq<Seq<bool>>) -> Option<(int, int)>
    decreases found.len(),
{
    if found.len() == 0 {
        None
    } else if first_true(found[0]) < found[0].len() {
        Some((0, first_true(found[0])))
    } else {
        match first_found(found.drop_first()) {
            Some((d, n)) => Some((d + 1, n)),
            None => None,
        }
    }
}

proof fn lemma_first_true(row: Seq<bool>, k: int)
    requires
        0 <= k <= row.len(),
        k < row.len() ==> row[k],
        forall|j: int| 0 <= j < k ==> !row[j],
    ensures
        first_true(row) == k,
    decreases row.len(),
{
    if row.len() > 0 && k > 0 {
        assert forall|j: int| 0 <= j < k - 1 implies !row.drop_first()[j] by {
            assert(row.drop_first()[j] == row[j + 1]);
        }
        lemma_first_true(row.drop_first(), k - 1);
    }
}

proof fn lemma_first_true_bounds(row: Seq<bool>)
    ensures
        0 <= first_true(row) <= row.len(),
        first_true(row) < row.len() ==> row[first_true(row)],
        forall|j: int| 0 <= j < first_true(row) ==> !row[j],
    decreases row.len(),
{
    if row.len() > 0 && !row[0] {
        lemma_first_true_bounds(row.drop_first());
        assert forall|j: int| 0 <= j < first_true(row) implies !row[j] by {
            if j > 0 {
                assert(row[j] == row.drop_first()[j - 1]);
            }
        }
    }
}

/// The program linked is the first executable in search order: the pair
/// chosen names an executable, and no directory before it, nor any name
/// before it in its directory, has one; when none is chosen, there is
/// none.
pub proof fn law_first_executable_found(found: Seq<Seq<bool>>)
    ensures
        match first_found(found) {
            Some((d, n)) => {
                &&& 0 <= d < found.len() && 0 <= n < found[d].len() && found[d][n]
                &&& forall|e: int, m: int| 0 <= e < d && 0 <= m < found[e].len() ==> !found[e][m]
                &&& forall|m: int| 0 <= m < n ==> !found[d][m]
            },
            None => forall|e: int, m: int| 0 <= e < found.len() && 0 <= m < found[e].len() ==> !found[e][m],
        },
    decreases found.len(),
{
    if found.len() > 0 {
        lemma_first_true_bounds(found[0]);
        if first_true(found[0]) >= found[0].len() {
            law_first_executable_found(found.drop_first());
            let rest = found.drop_first();
            assert forall|e: int, m: int|
                1 <= e < found.len() && 0 <= m < found[e].len() implies found[e][m]
                == rest[e - 1][m] by {
                assert(found[e] == rest[e - 1]);
            }
            match first_found(found.drop_first()) {
                Some((d, n)) => {
                    assert(found[d + 1] == found.drop_first()[d]);
                },
                None => {},
            }
        }
    }
}

pub open spec fn bool_rows(v: Seq<Vec<bool>>) -> Seq<Seq<bool>> {
    v.map_values(|r: Vec<bool>| r@)
}

/// The first (directory, name) pair in search order whose file is an
/// executable, given `found[d][n]` for each directory and name.
pub fn pick_built_executable(found: &[Vec<bool>]) -> (r: Option<(usize, usize)>)
    ensures
        match r {
            Some((d, n)) => first_found(bool_rows(found@)) == Some((d as int, n as int)),
            None => first_found(bool_rows(found@)) is None,
        },
{
    let ghost rows = bool_rows(found@);
    let mut d: usize = 0;
    assert(rows.skip(0) =~= rows);
    while d < found.len()
        invariant
            d <= found@.len(),
            rows == bool_rows(found@),
            first_found(rows) == match first_found(rows.skip(d as int)) {
                Some((a, b)) => Some((a + d, b)),
                None => None,
            },
        decreases found@.len() - d,
    {
        let row = &found[d];
        let mut n: usize = 0;
        while n < row.len() && !row[n]
            invariant
                n <= row@.len(),
                forall|j: int| 0 <= j < n ==> !row@[j],
            decreases row@.len() - n,
        {
            n = n + 1;
        }
        proof {
            lemma_first_true(row@, n as int);
            assert(rows.skip(d as int)[0] == row@);
            assert(rows.skip(d as int).drop_first() =~= rows.skip(d + 1));
        }
        if n < row.len() {
            return Some((d, n));
        }
        d = d + 1;
    }
    None
}

/// Whether a file found while searching the whole build directory may be
/// the program: not a script (`.sh`, `.py`, `.pl`, `.rb`, `.js`), not
/// hidden, and not a Makefile or CMake file.
pub fn is_candidate_executable(name: &str) -> (r: bool)
    ensures
        r == !(ends_with(name@, ".sh"@) || ends_with(name@, ".py"@) || ends_with(name@, ".pl"@)
            || ends_with(name@, ".rb"@) || ends_with(name@, ".js"@) || starts_with(name@, "."@)
            || contains_seq(name@, "Makefile"@) || contains_seq(name@, "CMake"@)),
{
    let n = chars_of(name);
    let v = n.as_slice();
    !(ends(v, ".sh") || ends(v, ".py") || ends(v, ".pl") || ends(v, ".rb") || ends(v, ".js")
        || starts(v, ".") || mentions(v, "Makefile") || mentions(v, "CMake"))
}

fn ends(t: &[char], p: &str) -> (r: bool)
    ensures
        r == ends_with(t@, p@),
{
    let pv = chars_of(p);
    ends_with_chars(t, pv.as_slice())
}

/// Whether the search of the whole build directory goes into a
/// subdirectory: not a hidden one and not `node_modules`.
pub fn is_searched_dir(name: &str) -> (r: bool)
    ensures
        r == !(starts_with(name@, "."@) || name@ == "node_modules"@),
{
    let n = chars_of(name);
    !(starts(n.as_slice(), ".") || eq_str(n.as_slice(), "node_modules"))
}

/// Among the executables found in the whole build directory (their file
/// names, in the order found), the first whose name is the repository name
/// up to case, by `to_lowercase`.
pub fn preferred_executable(names: &[String], repo: &str) -> (r: Option<usize>)
    ensures
        match r {
            Some(i) => i < names@.len() && unicode_lowercase(names@[i as int]@) == unicode_lowercase(
                repo@,
            ) && forall|j: int| 0 <= j < i ==> unicode_lowercase(#[trigger] names@[j]@)
                != unicode_lowercase(repo@),
            None => forall|j: int| 0 <= j < names@.len() ==> unicode_lowercase(#[trigger] names@[j]@)
                != unicode_lowercase(repo@),
        },
{
    let target = crate::text::to_lowercase(repo);
    let tv = chars_of(target.as_str());
    let mut i: usize = 0;
    while i < names.len()
        invariant
            i <= names@.len(),
            tv@ == unicode_lowercase(repo@),
            forall|j: int| 0 <= j < i ==> unicode_lowercase(#[trigger] names@[j]@) != unicode_lowercase(
                repo@,
            ),
        decreases names@.len() - i,
    {
        let l = crate::text::to_lowercase(names[i].as_str());
        let lv = chars_of(l.as_str());
        if chars_eq(lv.as_slice(), tv.as_slice()) {
            return Some(i);
        }
        i = i + 1;
    }
    None
}

/// The names the installed program is looked for under in `bin/`, in
/// order: the repository name, its lowercase form, then the executable
/// files there (in the order listed).
pub fn installed_executable_names(repo: &str, executables: &[String]) -> (r: Vec<String>)
    ensures
        views(r@) == seq![repo@, unicode_lowercase(repo@)] + views(executables@),
{
    let mut r: Vec<String> = Vec::new();
    r.push(repo.to_string());
    r.push(crate::text::to_lowercase(repo));
    let mut more: Vec<String> = Vec::new();
    let mut i: usize = 0;
    while i < executables.len()
        invariant
            i <= executables@.len(),
            more@ == executables@.take(i as int),
        decreases executables@.len() - i,
    {
        more.push(executables[i].clone());
        proof {
            assert(more@ =~= executables@.take(i + 1));
        }
        i = i + 1;
    }
    proof {
        assert(executables@.take(executables@.len() as int) =~= executables@);
    }
    append_strings(&mut r, more);
    proof {
        assert(views(r@) =~= seq![repo@, unicode_lowercase(repo@)] + views(executables@));
    }
    r
}

// ---------------------------------------------------------------------------
// Python projects

/// The files whose presence decides how a Python project is installed.
pub fn python_marker_files() -> (r: Vec<String>)
    ensures
        views(r@) == seq![
            "pyproject.toml"@,
            "setup.py"@,
            "setup.cfg"@,
            "Pipfile"@,
            "poetry.lock"@,
            "requirements.txt"@,
        ],
{
    let parts = ["pyproject.toml", "setup.py", "setup.cfg", "Pipfile", "poetry.lock", "requirements.txt"];
    let r = owned_strings(&parts);
    proof {
        assert(views(r@) =~= seq![
            "pyproject.toml"@,
            "setup.py"@,
            "setup.cfg"@,
            "Pipfile"@,
            "poetry.lock"@,
            "requirements.txt"@,
        ]);
    }
    r
}

/// How a Python project is installed.
pub struct PythonPlan {
    /// It is a package (`pyproject.toml`, `setup.py`, `setup.cfg`,
    /// `Pipfile` or `poetry.lock`): `pip install .` into the venv.
    pub installs_package: bool,
    /// It lists its requirements (`requirements.txt`): installed first.
    pub has_requirements: bool,
}

/// The plan for a Python project, given which of `python_marker_files`
/// are there.
pub fn python_plan(present: &[String]) -> (r: PythonPlan)
    ensures
        r.installs_package == (on_path(present@, "pyproject.toml"@) || on_path(present@, "setup.py"@)
            || on_path(present@, "setup.cfg"@) || on_path(present@, "Pipfile"@) || on_path(
            present@,
            "poetry.lock"@,
        )),
        r.has_requirements == on_path(present@, "requirements.txt"@),
{
    PythonPlan {
        installs_package: is_on_path(present, "pyproject.toml") || is_on_path(present, "setup.py")
            || is_on_path(present, "setup.cfg") || is_on_path(present, "Pipfile") || is_on_path(
            present,
            "poetry.lock",
        ),
        has_requirements: is_on_path(present, "requirements.txt"),
    }
}

/// A file of the venv's `bin` that is not a console script of the
/// package: the interpreter, pip, wheel, easy_install, or compiled Python.
pub open spec fn venv_own(name: Seq<char>) -> bool {
    name == "python"@ || name == "python3"@ || name == "pip"@ || name == "pip3"@ || name == "wheel"@
        || name == "easy_install"@ || ends_with(name, ".pyc"@)
}

/// The console scripts among the files of the venv's `bin`, in order.
pub open spec fn console_scripts(names: Seq<Seq<char>>) -> Seq<Seq<char>>
    decreases names.len(),
{
    if names.len() == 0 {
        seq![]
    } else {
        console_scripts(names.drop_last()) + (if venv_own(names.last()) {
            seq![]
        } else {
            seq![names.last()]
        })
    }
}

/// The console scripts among the files of the venv's `bin` (their names,
/// in the order listed), each of which gets a wrapper.
pub fn console_script_names(bin_entries: &[String]) -> (r: Vec<String>)
    ensures
        views(r@) == console_scripts(views(bin_entries@)),
{
    let ghost nv = views(bin_entries@);
    let mut r: Vec<String> = Vec::new();
    let mut i: usize = 0;
    while i < bin_entries.len()
        invariant
            i <= bin_entries@.len(),
            nv == views(bin_entries@),
            views(r@) == console_scripts(nv.take(i as int)),
        decreases bin_entries@.len() - i,
    {
        proof {
            assert(nv.take(i + 1).drop_last() =~= nv.take(i as int));
            assert(nv.take(i + 1).last() == bin_entries@[i as int]@);
        }
        let n = chars_of(bin_entries[i].as_str());
        let v = n.as_slice();
        let own = eq_str(v, "python") || eq_str(v, "python3") || eq_str(v, "pip") || eq_str(v, "pip3")
            || eq_str(v, "wheel") || eq_str(v, "easy_install") || ends(v, ".pyc");
        if !own {
            let w = bin_entries[i].clone();
            let ghost before = r@;
            r.push(w);
            proof {
                assert(views(r@) =~= views(before).push(w@));
            }
        }
        proof {
            assert(views(r@) =~= console_scripts(nv.take(i + 1)));
        }
        i = i + 1;
    }
    proof {
        assert(nv.take(bin_entries@.len() as int) =~= nv);
    }
    r
}

/// The wrapper written for a console script of a Python package.
pub open spec fn python_wrapper(repo: Seq<char>, install_path: Seq<char>, exe: Seq<char>) -> Seq<char> {
    "#!/bin/bash\n# Autogenerated wrapper for python package "@ + repo
        + "\nexport GITPKG_PACKAGE_ROOT=\""@ + install_path + "\"\nexec \""@ + exe
        + "\" \"$@\"\n"@
}

/// The wrapper written for a console script of a Python package.
pub fn python_wrapper_text(repo: &str, install_path: &str, exe: &str) -> (r: String)
    ensures
        r@ == python_wrapper(repo@, install_path@, exe@),
{
    let mut v: Vec<char> = Vec::new();
    extend_str(&mut v, "#!/bin/bash\n# Autogenerated wrapper for python package ");
    extend_str(&mut v, repo);
    extend_str(&mut v, "\nexport GITPKG_PACKAGE_ROOT=\"");
    extend_str(&mut v, install_path);
    extend_str(&mut v, "\"\nexec \"");
    extend_str(&mut v, exe);
    extend_str(&mut v, "\" \"$@\"\n");
    string_of(v.as_slice())
}

/// A script given a `python3` shebang unless it has a shebang already.
pub open spec fn with_shebang(content: Seq<char>) -> Seq<char> {
    if starts_with(content, "#!"@) {
        content
    } else {
        "#!/usr/bin/env python3\n"@ + content
    }
}

/// The main script as installed: with a `python3` shebang unless it has a
/// shebang already.
pub fn add_python_shebang(content: &str) -> (r: String)
    ensures
        r@ == with_shebang(content@),
{
    let c = chars_of(content);
    if starts(c.as_slice(), "#!") {
        content.to_string()
    } else {
        let mut v: Vec<char> = Vec::new();
        extend_str(&mut v, "#!/usr/bin/env python3\n");
        extend_str(&mut v, content);
        string_of(v.as_slice())
    }
}

/// The command a main script is linked as: its name without `.py`.
pub fn script_command_name(script: &str) -> (r: String)
    ensures
        r@ == (if ends_with(script@, ".py"@) {
            script@.take(script@.len() - 3)
        } else {
            script@
        }),
{
    let c = chars_of(script);
    if ends(c.as_slice(), ".py") {
        proof {
            reveal_strlit(".py");
        }
        let t = sub_chars(c.as_slice(), 0, c.len() - 3);
        string_of(t.as_slice())
    } else {
        script.to_string()
    }
}

/// Index of the first entry satisfying `f`, or the length.
pub open spec fn first_where(s: Seq<DirEntry>, f: spec_fn(DirEntry) -> bool) -> int
    decreases s.len(),
{
    if s.len() == 0 {
        0
    } else if f(s[0]) {
        0
    } else {
        1 + first_where(s.drop_first(), f)
    }
}

/// A Python file named `n`.
pub open spec fn python_named(n: Seq<char>) -> spec_fn(DirEntry) -> bool {
    |e: DirEntry| e.name@ == n && e.is_file && e.is_python
}

/// A Python file that may be the main script: not `setup.py`, a test
/// (`test_`) or private (`_`).
pub open spec fn python_loose() -> spec_fn(DirEntry) -> bool {
    |e: DirEntry| e.is_file && e.is_python && e.name@ != "setup.py"@ && !starts_with(
        e.name@,
        "test_"@,
    ) && !starts_with(e.name@, "_"@)
}

/// A directory a main script may be found in: not hidden, `__pycache__`
/// or `venv`.
pub open spec fn script_dir_ok(e: DirEntry) -> bool {
    e.is_dir && !starts_with(e.name@, "."@) && e.name@ != "__pycache__"@ && e.name@ != "venv"@
}

/// The usual names of a main script, in the order they are tried.
pub open spec fn script_names() -> Seq<Seq<char>> {
    seq!["main.py"@, "app.py"@, "cli.py"@, "run.py"@, "start.py"@, "script.py"@, "entrypoint.py"@]
}

/// The first of `names` that a Python file of the directory has.
pub open spec fn by_names(s: Seq<DirEntry>, names: Seq<Seq<char>>) -> Option<int>
    decreases names.len(),
{
    if names.len() == 0 {
        None
    } else if first_where(s, python_named(names[0])) < s.len() {
        Some(first_where(s, python_named(names[0])))
    } else {
        by_names(s, names.drop_first())
    }
}

/// The first directory entry, with the first Python file inside it
/// (`nested[i]`), in which a main script may be found.
pub open spec fn first_script_dir(s: Seq<DirEntry>, nested: Seq<Option<String>>) -> int
    decreases s.len(),
{
    if s.len() == 0 || nested.len() == 0 {
        0
    } else if script_dir_ok(s[0]) && nested[0] is Some {
        0
    } else {
        1 + first_script_dir(s.drop_first(), nested.drop_first())
    }
}

/// Where the main script of a Python project that is not a package is.
pub enum ScriptChoice {
    /// The `i`th entry of the project directory.
    File(usize),
    /// The first Python file inside the `i`th entry, a directory.
    Nested(usize),
}

/// The main script of a Python project that is not a package: a Python
/// file named like the repository, else the first of `main.py`, `app.py`,
/// `cli.py`, `run.py`, `start.py`, `script.py`, `entrypoint.py`, else the
/// first Python file that is not `setup.py`, a test or private, else the
/// first Python file inside a directory that is not hidden, `__pycache__`
/// or `venv`.
pub open spec fn main_script(repo: Seq<char>, s: Seq<DirEntry>, nested: Seq<Option<String>>) -> Option<
    ScriptChoice,
> {
    let a = first_where(s, python_named(repo));
    let c = first_where(s, python_loose());
    let d = first_script_dir(s, nested);
    if a < s.len() {
        Some(ScriptChoice::File(a as usize))
    } else if by_names(s, script_names()) is Some {
        Some(ScriptChoice::File(by_names(s, script_names())->0 as usize))
    } else if c < s.len() {
        Some(ScriptChoice::File(c as usize))
    } else if d < s.len() && d < nested.len() {
        Some(ScriptChoice::Nested(d as usize))
    } else {
        None
    }
}

fn find_python_named(s: &[DirEntry], n: &str) -> (r: usize)
    ensures
        r == first_where(s@, python_named(n@)),
        r <= s@.len(),
{
    let ghost f = python_named(n@);
    let nv = chars_of(n);
    let mut i: usize = 0;
    assert(s@.skip(0) =~= s@);
    while i < s.len()
        invariant
            f == python_named(n@),
            nv@ == n@,
            i <= s@.len(),
            first_where(s@, f) == i + first_where(s@.skip(i as int), f),
        decreases s@.len() - i,
    {
        assert(s@.skip(i as int)[0] == s@[i as int]);
        assert(s@.skip(i as int).drop_first() =~= s@.skip(i + 1));
        let e = &s[i];
        let en = chars_of(e.name.as_str());
        if e.is_file && e.is_python && chars_eq(en.as_slice(), nv.as_slice()) {
            return i;
        }
        i = i + 1;
    }
    i
}

fn find_python_loose(s: &[DirEntry]) -> (r: usize)
    ensures
        r == first_where(s@, python_loose()),
        r <= s@.len(),
{
    let ghost f = python_loose();
    let mut i: usize = 0;
    assert(s@.skip(0) =~= s@);
    while i < s.len()
        invariant
            f == python_loose(),
            i <= s@.len(),
            first_where(s@, f) == i + first_where(s@.skip(i as int), f),
        decreases s@.len() - i,
    {
        assert(s@.skip(i as int)[0] == s@[i as int]);
        assert(s@.skip(i as int).drop_first() =~= s@.skip(i + 1));
        let e = &s[i];
        let en = chars_of(e.name.as_str());
        if e.is_file && e.is_python && !eq_str(en.as_slice(), "setup.py") && !starts(
            en.as_slice(),
            "test_",
        ) && !starts(en.as_slice(), "_") {
            return i;
        }
        i = i + 1;
    }
    i
}

fn find_script_dir(s: &[DirEntry], nested: &[Option<String>]) -> (r: usize)
    ensures
        r == first_script_dir(s@, nested@),
{
    let mut i: usize = 0;
    assert(s@.skip(0) =~= s@);
    assert(nested@.skip(0) =~= nested@);
    while i < s.len() && i < nested.len()
        invariant
            i <= s@.len(),
            i <= nested@.len(),
            first_script_dir(s@, nested@) == i + first_script_dir(s@.skip(i as int), nested@.skip(
                i as int,
            )),
        decreases s@.len() - i,
    {
        assert(s@.skip(i as int)[0] == s@[i as int]);
        assert(nested@.skip(i as int)[0] == nested@[i as int]);
        assert(s@.skip(i as int).drop_first() =~= s@.skip(i + 1));
        assert(nested@.skip(i as int).drop_first() =~= nested@.skip(i + 1));
        let e = &s[i];
        let en = chars_of(e.name.as_str());
        if e.is_dir && !starts(en.as_slice(), ".") && !eq_str(en.as_slice(), "__pycache__") && !eq_str(
            en.as_slice(),
            "venv",
        ) && nested[i].is_some() {
            return i;
        }
        i = i + 1;
    }
    assert(s@.skip(i as int).len() == 0 || nested@.skip(i as int).len() == 0);
    i
}

/// Where the main script of a Python project that is not a package is,
/// given the project directory's entries and, for each, the first Python
/// file inside it when it is a directory.
pub fn main_python_script(repo: &str, entries: &[DirEntry], nested: &[Option<String>]) -> (r: Option<
    ScriptChoice,
>)
    ensures
        r == main_script(repo@, entries@, nested@),
{
    let a = find_python_named(entries, repo);
    if a < entries.len() {
        return Some(ScriptChoice::File(a));
    }
    let names = ["main.py", "app.py", "cli.py", "run.py", "start.py", "script.py", "entrypoint.py"];
    let mut k: usize = 0;
    let ghost all = script_names();
    proof {
        assert(all.skip(0) =~= all);
    }
    while k < 7
        invariant
            k <= 7,
            all == script_names(),
            first_where(entries@, python_named(repo@)) == entries@.len(),
            names@.map_values(|x: &str| x@) == all,
            by_names(entries@, all) == by_names(entries@, all.skip(k as int)),
        decreases 7 - k,
    {
        assert(names@.map_values(|x: &str| x@)[k as int] == names@[k as int]@);
        assert(all.skip(k as int)[0] == all[k as int]);
        assert(all.skip(k as int).drop_first() =~= all.skip(k + 1));
        let i = find_python_named(entries, names[k]);
        if i < entries.len() {
            assert(by_names(entries@, all.skip(k as int)) == Some(i as int));
            assert(by_names(entries@, all) is Some);
            return Some(ScriptChoice::File(i));
        }
        k = k + 1;
    }
    assert(all.skip(7).len() == 0);
    let c = find_python_loose(entries);
    if c < entries.len() {
        return Some(ScriptChoice::File(c));
    }
    let d = find_script_dir(entries, nested);
    if d < entries.len() && d < nested.len() {
        return Some(ScriptChoice::Nested(d));
    }
    None
}

// ---------------------------------------------------------------------------
// Vendored Rust dependencies

/// A line of a cargo configuration that points a source at a local
/// directory: `directory = <non-empty value>` (quotes of either kind
/// around the value dropped).
pub open spec fn vendor_line(line: Seq<char>) -> bool {
    let t = trim(line);
    &&& starts_with(t, "directory"@)
    &&& t.contains('=')
    &&& strip_both(field_value(t)->0, char_is('\'')).len() > 0
}

/// A cargo configuration that replaces crates.io with a vendored
/// directory, so `cargo vendor` must run before the build.
pub open spec fn uses_vendor(content: Seq<char>) -> bool {
    exists|i: int| 0 <= i < lines(content).len() && vendor_line(#[trigger] lines(content)[i])
}

/// Whether a cargo configuration replaces crates.io with a vendored
/// directory (a `directory = ...` line with a non-empty value).
pub fn uses_vendor_dir(content: &str) -> (r: bool)
    ensures
        r == uses_vendor(content@),
{
    let c = chars_of(content);
    let ls = lines_of(c.as_slice());
    let ghost lv = char_views(ls@);
    let mut i: usize = 0;
    while i < ls.len()
        invariant
            i <= ls@.len(),
            lv == char_views(ls@),
            lv == lines(content@),
            forall|j: int| 0 <= j < i ==> !vendor_line(#[trigger] lv[j]),
        decreases ls@.len() - i,
    {
        assert(lv[i as int] == ls@[i as int]@);
        let t = trim_chars(ls[i].as_slice());
        if starts(t.as_slice(), "directory") && has_char(t.as_slice(), '=') {
            proof {
                lemma_idx_of(t@, '=');
            }
            match field_value_of(t.as_slice()) {
                Some(v) => {
                    let w = trim_matching(v.as_slice(), '\'');
                    if w.len() > 0 {
                        return true;
                    }
                },
                None => {},
            }
        }
        i = i + 1;
    }
    false
}

/// The cargo configuration files that may point at a vendored directory:
/// the project's `.cargo/config.toml` and `.cargo/config`, then
/// `config.toml` and `config` in the cargo home (`CARGO_HOME`, else
/// `<home>/.cargo`, with an empty home when there is none).
pub open spec fn cargo_configs(temp: Seq<char>, cargo_home: Option<Seq<char>>, home: Option<Seq<char>>) -> Seq<
    Seq<char>,
> {
    let h = match home {
        Some(h) => h,
        None => seq![],
    };
    let ch = match cargo_home {
        Some(c) => c,
        None => h + "/.cargo"@,
    };
    seq![
        temp + "/.cargo/config.toml"@,
        temp + "/.cargo/config"@,
        ch + "/config.toml"@,
        ch + "/config"@,
    ]
}

fn concat(a: &str, b: &str) -> (r: String)
    ensures
        r@ == a@ + b@,
{
    let mut v: Vec<char> = Vec::new();
    extend_str(&mut v, a);
    extend_str(&mut v, b);
    string_of(v.as_slice())
}

/// The cargo configuration files to look at, in order.
pub fn cargo_config_files(temp: &str, cargo_home: Option<&str>, home: Option<&str>) -> (r: Vec<String>)
    ensures
        views(r@) == cargo_configs(temp@, opt_view(cargo_home), opt_view(home)),
{
    let ch = match cargo_home {
        Some(c) => c.to_string(),
        None => match home {
            Some(h) => concat(h, "/.cargo"),
            None => {
                let e = concat("", "/.cargo");
                proof {
                    reveal_strlit("");
                    assert(Seq::<char>::empty() + "/.cargo"@ =~= "/.cargo"@);
                    assert(""@ =~= Seq::<char>::empty());
                }
                e
            },
        },
    };
    let mut r: Vec<String> = Vec::new();
    r.push(concat(temp, "/.cargo/config.toml"));
    r.push(concat(temp, "/.cargo/config"));
    r.push(concat(ch.as_str(), "/config.toml"));
    r.push(concat(ch.as_str(), "/config"));
    proof {
        assert(views(r@) =~= cargo_configs(temp@, opt_view(cargo_home), opt_view(home)));
    }
    r
}

/// Whether the directory holds a Python file named `n`.
pub open spec fn has_python_file(s: Seq<DirEntry>, n: Seq<char>) -> bool {
    exists|i: int| 0 <= i < s.len() && #[trigger] s[i].name@ == n && s[i].is_file && s[i].is_python
}

proof fn lemma_first_where_named(s: Seq<DirEntry>, n: Seq<char>)
    ensures
        0 <= first_where(s, python_named(n)) <= s.len(),
        first_where(s, python_named(n)) < s.len() <==> has_python_file(s, n),
        first_where(s, python_named(n)) < s.len() ==> ({
            let i = first_where(s, python_named(n));
            &&& s[i].name@ == n
            &&& s[i].is_file
            &&& s[i].is_python
        }),
    decreases s.len(),
{
    if s.len() > 0 {
        lemma_first_where_named(s.drop_first(), n);
        if has_python_file(s, n) && !(s[0].name@ == n && s[0].is_file && s[0].is_python) {
            let i = choose|i: int| 0 <= i < s.len() && #[trigger] s[i].name@ == n && s[i].is_file
                && s[i].is_python;
            assert(s.drop_first()[i - 1] == s[i]);
        }
        if has_python_file(s.drop_first(), n) {
            let i = choose|i: int| 0 <= i < s.drop_first().len() && #[trigger] s.drop_first()[i].name@
                == n && s.drop_first()[i].is_file && s.drop_first()[i].is_python;
            assert(s[i + 1] == s.drop_first()[i]);
        }
    }
}

/// When no Python file is named like the repository, the main script is a
/// Python file with the first of these names that the directory holds:
/// `main.py`, `app.py`, `cli.py`, `run.py`, `start.py`, `script.py`,
/// `entrypoint.py` (the first such file of the directory).
pub proof fn law_main_script_preferred_names(repo: Seq<char>, s: Seq<DirEntry>, nested: Seq<Option<String>>)
    requires
        !has_python_file(s, repo),
    ensures
        has_python_file(s, "main.py"@) ==> main_script(repo, s, nested) == Some(
            ScriptChoice::File(first_where(s, python_named("main.py"@)) as usize),
        ),
        !has_python_file(s, "main.py"@) && has_python_file(s, "app.py"@) ==> main_script(repo, s, nested)
            == Some(ScriptChoice::File(first_where(s, python_named("app.py"@)) as usize)),
        !has_python_file(s, "main.py"@) && !has_python_file(s, "app.py"@) && has_python_file(
            s,
            "cli.py"@,
        ) ==> main_script(repo, s, nested) == Some(
            ScriptChoice::File(first_where(s, python_named("cli.py"@)) as usize),
        ),
        !has_python_file(s, "main.py"@) && !has_python_file(s, "app.py"@) && !has_python_file(
            s,
            "cli.py"@,
        ) && has_python_file(s, "run.py"@) ==> main_script(repo, s, nested) == Some(
            ScriptChoice::File(first_where(s, python_named("run.py"@)) as usize),
        ),
        !has_python_file(s, "main.py"@) && !has_python_file(s, "app.py"@) && !has_python_file(
            s,
            "cli.py"@,
        ) && !has_python_file(s, "run.py"@) && has_python_file(s, "start.py"@) ==> main_script(
            repo,
            s,
            nested,
        ) == Some(ScriptChoice::File(first_where(s, python_named("start.py"@)) as usize)),
        !has_python_file(s, "main.py"@) && !has_python_file(s, "app.py"@) && !has_python_file(
            s,
            "cli.py"@,
        ) && !has_python_file(s, "run.py"@) && !has_python_file(s, "start.py"@) && has_python_file(
            s,
            "script.py"@,
        ) ==> main_script(repo, s, nested) == Some(
            ScriptChoice::File(first_where(s, python_named("script.py"@)) as usize),
        ),
        !has_python_file(s, "main.py"@) && !has_python_file(s, "app.py"@) && !has_python_file(
            s,
            "cli.py"@,
        ) && !has_python_file(s, "run.py"@) && !has_python_file(s, "start.py"@) && !has_python_file(
            s,
            "script.py"@,
        ) && has_python_file(s, "entrypoint.py"@) ==> main_script(repo, s, nested) == Some(
            ScriptChoice::File(first_where(s, python_named("entrypoint.py"@)) as usize),
        ),
{
    lemma_first_where_named(s, repo);
    lemma_first_where_named(s, "main.py"@);
    lemma_first_where_named(s, "app.py"@);
    lemma_first_where_named(s, "cli.py"@);
    lemma_first_where_named(s, "run.py"@);
    lemma_first_where_named(s, "start.py"@);
    lemma_first_where_named(s, "script.py"@);
    lemma_first_where_named(s, "entrypoint.py"@);
    let n = script_names();
    assert(n[0] == "main.py"@);
    assert(n.drop_first()[0] == "app.py"@);
    assert(n.drop_first().drop_first()[0] == "cli.py"@);
    assert(n.drop_first().drop_first().drop_first()[0] == "run.py"@);
    assert(n.drop_first().drop_first().drop_first().drop_first()[0] == "start.py"@);
    assert(n.drop_first().drop_first().drop_first().drop_first().drop_first()[0] == "script.py"@);
    assert(n.drop_first().drop_first().drop_first().drop_first().drop_first().drop_first()[0]
        == "entrypoint.py"@);
    reveal_with_fuel(by_names, 8);
}

} // verus!
