//! The order in which `versions` lists a package's installed versions:
//! by install time, oldest first, versions of unknown time after those
//! of known time and among themselves by name, and the current version
//! last. Ties keep the order in which the directory listed them.
use vstd::prelude::*;

use crate::order::{chars_lt, lemma_lex_irreflexive, lemma_lex_total, lemma_lex_transitive, lex_lt};
use crate::text::chars_of;

verus! {

broadcast use vstd::string::group_string_axioms;

/// One installed version of a package.
pub struct VersionRow {
    /// The version directory's name (a commit hash).
    pub name: String,
    /// Bytes the version takes on disk.
    pub size: u64,
    /// Whether this is the version the package record names.
    pub is_current: bool,
    /// When the version was installed, as seconds and nanoseconds since
    /// the Unix epoch; none when the time could not be read.
    pub installed: Option<(i64, u32)>,
}

impl View for VersionRow {
    type V = (Seq<char>, u64, bool, Option<(i64, u32)>);

    open spec fn view(&self) -> (Seq<char>, u64, bool, Option<(i64, u32)>) {
        (self.name@, self.size, self.is_current, self.installed)
    }
}

/// `a` is earlier than `b`.
pub open spec fn time_before(a: (i64, u32), b: (i64, u32)) -> bool {
    a.0 < b.0 || (a.0 == b.0 && a.1 < b.1)
}

/// Row `a` is listed before row `b` by the sort: earlier install time
/// first, a known time before an unknown one, unknown times by name.
pub open spec fn row_before(
    a: (Seq<char>, u64, bool, Option<(i64, u32)>),
    b: (Seq<char>, u64, bool, Option<(i64, u32)>),
) -> bool {
    match (a.3, b.3) {
        (Some(x), Some(y)) => time_before(x, y),
        (Some(_), None) => true,
        (None, Some(_)) => false,
        (None, None) => lex_lt(a.0, b.0),
    }
}

/// `x` inserted into `s` after every row it does not come before, scanning
/// from the end (one step of a stable insertion sort).
pub open spec fn insert_row(
    s: Seq<(Seq<char>, u64, bool, Option<(i64, u32)>)>,
    x: (Seq<char>, u64, bool, Option<(i64, u32)>),
) -> Seq<(Seq<char>, u64, bool, Option<(i64, u32)>)>
    decreases s.len(),
{
    if s.len() == 0 {
        seq![x]
    } else if row_before(x, s.last()) {
        insert_row(s.drop_last(), x).push(s.last())
    } else {
        s.push(x)
    }
}

/// The rows stably sorted by `row_before`.
pub open spec fn sorted_rows(s: Seq<(Seq<char>, u64, bool, Option<(i64, u32)>)>) -> Seq<
    (Seq<char>, u64, bool, Option<(i64, u32)>),
>
    decreases s.len(),
{
    if s.len() == 0 {
        s
    } else {
        insert_row(sorted_rows(s.drop_last()), s.last())
    }
}

/// Index of the first current row, or the length when there is none.
pub open spec fn current_index(s: Seq<(Seq<char>, u64, bool, Option<(i64, u32)>)>) -> int
    decreases s.len(),
{
    if s.len() == 0 {
        0
    } else if s[0].2 {
        0
    } else {
        1 + current_index(s.drop_first())
    }
}

/// The first current row moved to the end.
pub open spec fn current_last(s: Seq<(Seq<char>, u64, bool, Option<(i64, u32)>)>) -> Seq<
    (Seq<char>, u64, bool, Option<(i64, u32)>),
> {
    let i = current_index(s);
    if i < s.len() {
        s.remove(i).push(s[i])
    } else {
        s
    }
}

/// The rows in the order `versions` prints them.
pub open spec fn ordered_versions(s: Seq<(Seq<char>, u64, bool, Option<(i64, u32)>)>) -> Seq<
    (Seq<char>, u64, bool, Option<(i64, u32)>),
> {
    current_last(sorted_rows(s))
}

pub proof fn lemma_current_index(s: Seq<(Seq<char>, u64, bool, Option<(i64, u32)>)>, k: int)
    requires
        0 <= k <= s.len(),
        k < s.len() ==> s[k].2,
        forall|j: int| 0 <= j < k ==> !s[j].2,
    ensures
        current_index(s) == k,
    decreases s.len(),
{
    if s.len() > 0 && k > 0 {
        assert(!s[0].2);
        assert forall|j: int| 0 <= j < k - 1 implies !s.drop_first()[j].2 by {
            assert(s.drop_first()[j] == s[j + 1]);
        }
        lemma_current_index(s.drop_first(), k - 1);
    }
}

/// Inserting `x` where a scan from the end stops is `insert_row`.
pub proof fn lemma_insert_row_at(
    s: Seq<(Seq<char>, u64, bool, Option<(i64, u32)>)>,
    x: (Seq<char>, u64, bool, Option<(i64, u32)>),
    j: int,
)
    requires
        0 <= j <= s.len(),
        forall|k: int| j <= k < s.len() ==> row_before(x, s[k]),
        j == 0 || !row_before(x, s[j - 1]),
    ensures
        insert_row(s, x) == s.insert(j, x),
    decreases s.len(),
{
    if s.len() == 0 {
        assert(s.insert(j, x) =~= seq![x]);
    } else if j == s.len() {
        assert(s.insert(j, x) =~= s.push(x));
    } else {
        assert(row_before(x, s[s.len() - 1]));
        lemma_insert_row_at(s.drop_last(), x, j);
        assert(s.insert(j, x) =~= s.drop_last().insert(j, x).push(s.last()));
    }
}

fn clone_row(r: &VersionRow) -> (c: VersionRow)
    ensures
        c@ == r@,
{
    VersionRow { name: r.name.clone(), size: r.size, is_current: r.is_current, installed: r.installed }
}

fn is_before(a: &VersionRow, b: &VersionRow) -> (r: bool)
    ensures
        r == row_before(a@, b@),
{
    match (a.installed, b.installed) {
        (Some(x), Some(y)) => x.0 < y.0 || (x.0 == y.0 && x.1 < y.1),
        (Some(_), None) => true,
        (None, Some(_)) => false,
        (None, None) => {
            let an = chars_of(a.name.as_str());
            let bn = chars_of(b.name.as_str());
            chars_lt(an.as_slice(), bn.as_slice())
        },
    }
}

/// The rows in the order `versions` prints them: stably sorted by install
/// time (unknown times last, those by name), then the first current row
/// moved to the end.
pub fn order_versions(rows: Vec<VersionRow>) -> (r: Vec<VersionRow>)
    ensures
        r@.map_values(|x: VersionRow| x@) == ordered_versions(rows@.map_values(|x: VersionRow| x@)),
{
    let ghost input = rows@.map_values(|x: VersionRow| x@);
    let mut out: Vec<VersionRow> = Vec::new();
    let mut i: usize = 0;
    proof {
        assert(input.take(0) =~= Seq::<(Seq<char>, u64, bool, Option<(i64, u32)>)>::empty());
        assert(out@.map_values(|x: VersionRow| x@) =~= sorted_rows(input.take(0)));
    }
    while i < rows.len()
        invariant
            i <= rows@.len(),
            input == rows@.map_values(|x: VersionRow| x@),
            out@.map_values(|x: VersionRow| x@) == sorted_rows(input.take(i as int)),
        decreases rows@.len() - i,
    {
        let x = clone_row(&rows[i]);
        let ghost ov = out@.map_values(|y: VersionRow| y@);
        let mut j: usize = out.len();
        while j > 0 && is_before(&x, &out[j - 1])
            invariant
                j <= out@.len(),
                ov == out@.map_values(|y: VersionRow| y@),
                forall|k: int| j <= k < ov.len() ==> row_before(x@, ov[k]),
            decreases j,
        {
            j = j - 1;
        }
        proof {
            lemma_insert_row_at(ov, x@, j as int);
            assert(input.take(i + 1).drop_last() =~= input.take(i as int));
            assert(input.take(i + 1).last() == x@);
        }
        out.insert(j, x);
        proof {
            assert(out@.map_values(|y: VersionRow| y@) =~= ov.insert(j as int, x@));
        }
        i = i + 1;
    }
    proof {
        assert(input.take(rows@.len() as int) =~= input);
    }
    let ghost sv = out@.map_values(|y: VersionRow| y@);
    let mut k: usize = 0;
    while k < out.len() && !out[k].is_current
        invariant
            k <= out@.len(),
            sv == out@.map_values(|y: VersionRow| y@),
            forall|j: int| 0 <= j < k ==> !sv[j].2,
        decreases out@.len() - k,
    {
        k = k + 1;
    }
    proof {
        lemma_current_index(sv, k as int);
    }
    if k < out.len() {
        let cur = out.remove(k);
        out.push(cur);
        proof {
            assert(out@.map_values(|y: VersionRow| y@) =~= sv.remove(k as int).push(sv[k as int]));
        }
    }
    out
}

// ---------------------------------------------------------------------------
// What the order guarantees

/// `row_before` is a strict weak order: irreflexive, asymmetric,
/// transitive, and whatever lies between two ordered rows is ordered
/// against one of them.
pub proof fn lemma_row_order(
    a: (Seq<char>, u64, bool, Option<(i64, u32)>),
    b: (Seq<char>, u64, bool, Option<(i64, u32)>),
    c: (Seq<char>, u64, bool, Option<(i64, u32)>),
)
    ensures
        !row_before(a, a),
        row_before(a, b) ==> !row_before(b, a),
        row_before(a, b) && row_before(b, c) ==> row_before(a, c),
        row_before(a, c) ==> row_before(a, b) || row_before(b, c),
{
    lemma_lex_irreflexive(a.0);
    lemma_lex_total(a.0, b.0);
    lemma_lex_total(b.0, c.0);
    lemma_lex_total(a.0, c.0);
    if lex_lt(a.0, b.0) && lex_lt(b.0, c.0) {
        lemma_lex_transitive(a.0, b.0, c.0);
    }
    if lex_lt(c.0, b.0) && lex_lt(b.0, a.0) {
        lemma_lex_transitive(c.0, b.0, a.0);
    }
}

/// Rows in the order `row_before` allows: no row comes before an earlier
/// one.
pub open spec fn rows_sorted(s: Seq<(Seq<char>, u64, bool, Option<(i64, u32)>)>) -> bool {
    forall|i: int, j: int| 0 <= i < j < s.len() ==> !row_before(#[trigger] s[j], #[trigger] s[i])
}

/// Where `insert_row` puts `x`.
pub open spec fn insert_pos(
    s: Seq<(Seq<char>, u64, bool, Option<(i64, u32)>)>,
    x: (Seq<char>, u64, bool, Option<(i64, u32)>),
) -> int
    decreases s.len(),
{
    if s.len() == 0 {
        0
    } else if row_before(x, s.last()) {
        insert_pos(s.drop_last(), x)
    } else {
        s.len() as int
    }
}

pub proof fn lemma_insert_pos(
    s: Seq<(Seq<char>, u64, bool, Option<(i64, u32)>)>,
    x: (Seq<char>, u64, bool, Option<(i64, u32)>),
)
    ensures
        0 <= insert_pos(s, x) <= s.len(),
        forall|k: int| insert_pos(s, x) <= k < s.len() ==> row_before(x, s[k]),
        insert_pos(s, x) == 0 || !row_before(x, s[insert_pos(s, x) - 1]),
        insert_row(s, x) == s.insert(insert_pos(s, x), x),
    decreases s.len(),
{
    if s.len() > 0 && row_before(x, s.last()) {
        lemma_insert_pos(s.drop_last(), x);
        assert forall|k: int| insert_pos(s, x) <= k < s.len() implies row_before(x, s[k]) by {
            if k < s.len() - 1 {
                assert(s[k] == s.drop_last()[k]);
            }
        }
    }
    lemma_insert_row_at(s, x, insert_pos(s, x));
}

pub proof fn lemma_insert_sorted(
    s: Seq<(Seq<char>, u64, bool, Option<(i64, u32)>)>,
    x: (Seq<char>, u64, bool, Option<(i64, u32)>),
)
    requires
        rows_sorted(s),
    ensures
        rows_sorted(insert_row(s, x)),
{
    lemma_insert_pos(s, x);
    let p = insert_pos(s, x);
    let t = insert_row(s, x);
    assert forall|i: int, j: int| 0 <= i < j < t.len() implies !row_before(
        #[trigger] t[j],
        #[trigger] t[i],
    ) by {
        if j < p {
            assert(t[i] == s[i] && t[j] == s[j]);
        } else if j == p {
            assert(t[j] == x && t[i] == s[i]);
            lemma_row_order(x, s[p - 1], s[i]);
            lemma_row_order(s[p - 1], s[p - 1], s[i]);
            if i < p - 1 {
                assert(!row_before(s[p - 1], s[i]));
            }
        } else if i == p {
            assert(t[i] == x && t[j] == s[j - 1]);
            lemma_row_order(x, s[j - 1], x);
        } else if i < p {
            assert(t[i] == s[i] && t[j] == s[j - 1]);
        } else {
            assert(t[i] == s[i - 1] && t[j] == s[j - 1]);
        }
    }
}

pub proof fn lemma_sorted_rows(s: Seq<(Seq<char>, u64, bool, Option<(i64, u32)>)>)
    ensures
        rows_sorted(sorted_rows(s)),
        sorted_rows(s).to_multiset() == s.to_multiset(),
    decreases s.len(),
{
    broadcast use vstd::seq_lib::group_to_multiset_ensures;

    if s.len() > 0 {
        let d = s.drop_last();
        let x = s.last();
        lemma_sorted_rows(d);
        let t = sorted_rows(d);
        lemma_insert_sorted(t, x);
        lemma_insert_pos(t, x);
        let p = insert_pos(t, x);
        let u = t.insert(p, x);
        assert(u.remove(p) =~= t);
        assert(u[p] == x);
        assert(u.to_multiset().remove(x) == t.to_multiset());
        assert(u.to_multiset().count(x) > 0);
        assert(u.to_multiset() =~= t.to_multiset().insert(x));
        assert(d.push(x) =~= s);
    }
}

/// The rows `versions` prints are the rows it found, each once: the
/// order only rearranges them.
pub proof fn law_versions_permutation(s: Seq<(Seq<char>, u64, bool, Option<(i64, u32)>)>)
    ensures
        ordered_versions(s).to_multiset() == s.to_multiset(),
{
    broadcast use vstd::seq_lib::group_to_multiset_ensures;

    lemma_sorted_rows(s);
    let t = sorted_rows(s);
    let i = current_index(t);
    lemma_current_index_bounds(t);
    if i < t.len() {
        assert(t.contains(t[i]));
        assert(t.to_multiset().count(t[i]) > 0);
        assert(t.remove(i).push(t[i]).to_multiset() =~= t.to_multiset());
    }
}

/// `versions` prints the current version last, when there is one, and
/// every other version in install-time order: none is printed after a
/// version it comes before.
pub proof fn law_versions_order(s: Seq<(Seq<char>, u64, bool, Option<(i64, u32)>)>)
    ensures
        ({
            let r = ordered_versions(s);
            let has_current = exists|k: int| 0 <= k < s.len() && (#[trigger] s[k]).2;
            let m = if has_current { r.len() - 1 } else { r.len() as int };
            &&& r.len() == s.len()
            &&& has_current ==> r.last().2
            &&& forall|i: int, j: int| 0 <= i < j < m ==> !row_before(#[trigger] r[j], #[trigger] r[i])
        }),
{
    broadcast use vstd::seq_lib::group_to_multiset_ensures;

    lemma_sorted_rows(s);
    let t = sorted_rows(s);
    let r = ordered_versions(s);
    let i = current_index(t);
    lemma_current_index_bounds(t);
    let has_current = exists|k: int| 0 <= k < s.len() && (#[trigger] s[k]).2;
    assert(t.len() == s.len()) by {
        assert(t.to_multiset().len() == s.to_multiset().len());
    }
    if has_current {
        let k = choose|k: int| 0 <= k < s.len() && (#[trigger] s[k]).2;
        assert(s.contains(s[k]));
        assert(s.to_multiset().count(s[k]) > 0);
        assert(t.contains(s[k]));
        let kk = choose|kk: int| 0 <= kk < t.len() && t[kk] == s[k];
        assert(t[kk].2);
        assert(i < t.len());
    }
    if i < t.len() {
        assert(t.contains(t[i]));
        assert(t.to_multiset().count(t[i]) > 0);
        assert(s.contains(t[i]));
        let k = choose|k: int| 0 <= k < s.len() && s[k] == t[i];
        assert(s[k].2);
        assert(has_current);
        assert(r.last() == t[i]);
        let u = t.remove(i);
        assert forall|a: int, b: int| 0 <= a < b < u.len() implies !row_before(
            #[trigger] u[b],
            #[trigger] u[a],
        ) by {
            let a0 = if a < i { a } else { a + 1 };
            let b0 = if b < i { b } else { b + 1 };
            assert(u[a] == t[a0] && u[b] == t[b0]);
        }
        assert forall|a: int, b: int| 0 <= a < b < r.len() - 1 implies !row_before(
            #[trigger] r[b],
            #[trigger] r[a],
        ) by {
            assert(r[a] == u[a] && r[b] == u[b]);
        }
    }
}

pub proof fn lemma_current_index_bounds(s: Seq<(Seq<char>, u64, bool, Option<(i64, u32)>)>)
    ensures
        0 <= current_index(s) <= s.len(),
        current_index(s) < s.len() ==> s[current_index(s)].2,
        forall|j: int| 0 <= j < current_index(s) ==> !s[j].2,
    decreases s.len(),
{
    if s.len() > 0 && !s[0].2 {
        lemma_current_index_bounds(s.drop_first());
        assert forall|j: int| 0 <= j < current_index(s) implies !s[j].2 by {
            if j > 0 {
                assert(s[j] == s.drop_first()[j - 1]);
            }
        }
    }
}

} // verus!
