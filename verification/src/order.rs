//! The order in which package keys are listed: `str`'s order, which on
//! characters is lexicographic by code point.
use vstd::prelude::*;

verus! {

/// Length of the common prefix of `a` and `b`.
pub open spec fn common_prefix(a: Seq<char>, b: Seq<char>) -> int
    decreases a.len(),
{
    if a.len() == 0 || b.len() == 0 || a[0] != b[0] {
        0
    } else {
        1 + common_prefix(a.drop_first(), b.drop_first())
    }
}

/// `a < b` in `str`'s order.
pub open spec fn lex_lt(a: Seq<char>, b: Seq<char>) -> bool {
    let k = common_prefix(a, b);
    k < b.len() && (k == a.len() || a[k] < b[k])
}

pub proof fn lemma_common_prefix(a: Seq<char>, b: Seq<char>)
    ensures
        0 <= common_prefix(a, b) <= a.len(),
        common_prefix(a, b) <= b.len(),
        forall|j: int| 0 <= j < common_prefix(a, b) ==> a[j] == b[j],
        common_prefix(a, b) == a.len() || common_prefix(a, b) == b.len() || a[common_prefix(
            a,
            b,
        )] != b[common_prefix(a, b)],
    decreases a.len(),
{
    if !(a.len() == 0 || b.len() == 0 || a[0] != b[0]) {
        lemma_common_prefix(a.drop_first(), b.drop_first());
        assert forall|j: int| 0 <= j < common_prefix(a, b) implies a[j] == b[j] by {
            if j > 0 {
                assert(a[j] == a.drop_first()[j - 1]);
                assert(b[j] == b.drop_first()[j - 1]);
            }
        }
        let k = common_prefix(a, b);
        if k < a.len() && k < b.len() {
            assert(a[k] == a.drop_first()[k - 1]);
            assert(b[k] == b.drop_first()[k - 1]);
        }
    }
}

pub proof fn lemma_common_prefix_unique(a: Seq<char>, b: Seq<char>, k: int)
    requires
        0 <= k <= a.len(),
        k <= b.len(),
        forall|j: int| 0 <= j < k ==> a[j] == b[j],
        k == a.len() || k == b.len() || a[k] != b[k],
    ensures
        common_prefix(a, b) == k,
    decreases a.len(),
{
    if k > 0 {
        assert(a[0] == b[0]);
        assert forall|j: int| 0 <= j < k - 1 implies a.drop_first()[j] == b.drop_first()[j] by {
            assert(a[j + 1] == b[j + 1]);
        }
        if k < a.len() && k < b.len() {
            assert(a.drop_first()[k - 1] == a[k]);
            assert(b.drop_first()[k - 1] == b[k]);
        }
        lemma_common_prefix_unique(a.drop_first(), b.drop_first(), k - 1);
    }
}

pub proof fn lemma_common_prefix_symmetric(a: Seq<char>, b: Seq<char>)
    ensures
        common_prefix(a, b) == common_prefix(b, a),
{
    lemma_common_prefix(a, b);
    lemma_common_prefix_unique(b, a, common_prefix(a, b));
}

/// No sequence is below itself.
pub proof fn lemma_lex_irreflexive(a: Seq<char>)
    ensures
        !lex_lt(a, a),
{
    lemma_common_prefix(a, a);
}

/// Of two different sequences one is below the other, and not both.
pub proof fn lemma_lex_total(a: Seq<char>, b: Seq<char>)
    ensures
        a != b ==> (lex_lt(a, b) || lex_lt(b, a)),
        !(lex_lt(a, b) && lex_lt(b, a)),
{
    lemma_common_prefix(a, b);
    lemma_common_prefix_symmetric(a, b);
    let k = common_prefix(a, b);
    if k == a.len() && k == b.len() {
        assert(a =~= b);
    } else if k < a.len() && k < b.len() {
        assert(a[k] != b[k]);
    }
}

/// The order is transitive.
pub proof fn lemma_lex_transitive(a: Seq<char>, b: Seq<char>, c: Seq<char>)
    requires
        lex_lt(a, b),
        lex_lt(b, c),
    ensures
        lex_lt(a, c),
{
    lemma_common_prefix(a, b);
    lemma_common_prefix(b, c);
    let k1 = common_prefix(a, b);
    let k2 = common_prefix(b, c);
    if k1 < k2 {
        assert forall|j: int| 0 <= j < k1 implies a[j] == c[j] by {
            assert(b[j] == c[j]);
        }
        if k1 < a.len() {
            assert(b[k1] == c[k1]);
        }
        lemma_common_prefix_unique(a, c, k1);
    } else if k2 < k1 {
        assert forall|j: int| 0 <= j < k2 implies a[j] == c[j] by {
            assert(a[j] == b[j]);
        }
        assert(a[k2] == b[k2]);
        lemma_common_prefix_unique(a, c, k2);
    } else {
        assert forall|j: int| 0 <= j < k1 implies a[j] == c[j] by {
            assert(a[j] == b[j]);
        }
        lemma_common_prefix_unique(a, c, k1);
    }
}

/// `a < b` in `str`'s order.
pub fn chars_lt(a: &[char], b: &[char]) -> (r: bool)
    ensures
        r == lex_lt(a@, b@),
{
    let mut k: usize = 0;
    while k < a.len() && k < b.len() && a[k] == b[k]
        invariant
            k <= a@.len(),
            k <= b@.len(),
            forall|j: int| 0 <= j < k ==> a@[j] == b@[j],
        decreases a@.len() - k,
    {
        k = k + 1;
    }
    proof {
        lemma_common_prefix_unique(a@, b@, k as int);
    }
    k < b.len() && (k == a.len() || a[k] < b[k])
}

} // verus!
