//! The list of installed packages: package keys mapped to the paths of
//! their records, kept in key order, with its text form (`key = path`
//! lines).
use vstd::prelude::*;

use crate::order::{chars_lt, lemma_lex_irreflexive, lemma_lex_total, lemma_lex_transitive, lex_lt};
use crate::text::{chars_eq, chars_of, extend_str, find_char, idx_of, is_ws, lemma_idx_of, lemma_idx_of_unique, lemma_lead_ws_unique, lemma_lines_append, lemma_trail_ws_unique, lines, lines_of, string_of, strip_cr, sub_chars, trim, trim_chars};

verus! {

broadcast use vstd::string::group_string_axioms;

/// Keys strictly increasing in `str`'s order (so no key occurs twice).
pub open spec fn sorted_keys(s: Seq<(Seq<char>, Seq<char>)>) -> bool {
    forall|i: int, j: int| 0 <= i < j < s.len() ==> lex_lt(#[trigger] s[i].0, #[trigger] s[j].0)
}

/// The mapping that a sequence of entries describes (a later entry for the
/// same key wins).
pub open spec fn entries_map(s: Seq<(Seq<char>, Seq<char>)>) -> Map<Seq<char>, Seq<char>>
    decreases s.len(),
{
    if s.len() == 0 {
        Map::empty()
    } else {
        entries_map(s.drop_last()).insert(s.last().0, s.last().1)
    }
}

/// The installed packages: each key with the path of its record.
pub struct PackageList {
    entries: Vec<(String, String)>,
}

impl View for PackageList {
    type V = Seq<(Seq<char>, Seq<char>)>;

    closed spec fn view(&self) -> Seq<(Seq<char>, Seq<char>)> {
        self.entries@.map_values(|e: (String, String)| (e.0@, e.1@))
    }
}

proof fn lemma_entries_map_keys(s: Seq<(Seq<char>, Seq<char>)>)
    ensures
        forall|k: Seq<char>|
            #[trigger] entries_map(s).contains_key(k) <==> exists|i: int|
                0 <= i < s.len() && s[i].0 == k,
    decreases s.len(),
{
    if s.len() > 0 {
        lemma_entries_map_keys(s.drop_last());
        assert forall|k: Seq<char>| #[trigger]
            entries_map(s).contains_key(k) <==> exists|i: int| 0 <= i < s.len() && s[i].0 == k by {
            if entries_map(s.drop_last()).contains_key(k) {
                let i = choose|i: int| 0 <= i < s.drop_last().len() && s.drop_last()[i].0 == k;
                assert(s[i].0 == k);
            }
            if exists|i: int| 0 <= i < s.len() && s[i].0 == k {
                let i = choose|i: int| 0 <= i < s.len() && s[i].0 == k;
                if i < s.len() - 1 {
                    assert(s.drop_last()[i].0 == k);
                }
            }
        }
    }
}

/// In a sorted sequence the mapping gives each key its entry's value.
proof fn lemma_entries_map_sorted(s: Seq<(Seq<char>, Seq<char>)>, i: int)
    requires
        sorted_keys(s),
        0 <= i < s.len(),
    ensures
        entries_map(s).contains_key(s[i].0),
        entries_map(s)[s[i].0] == s[i].1,
    decreases s.len(),
{
    if i < s.len() - 1 {
        assert(sorted_keys(s.drop_last()));
        lemma_entries_map_sorted(s.drop_last(), i);
        assert(lex_lt(s[i].0, s.last().0));
        lemma_lex_irreflexive(s[i].0);
        assert(s.drop_last()[i] == s[i]);
    }
}

/// Everything a sorted sequence's mapping holds: its keys, each with its
/// entry's value.
proof fn lemma_sorted_map(s: Seq<(Seq<char>, Seq<char>)>)
    requires
        sorted_keys(s),
    ensures
        forall|k: Seq<char>|
            #[trigger] entries_map(s).contains_key(k) <==> exists|i: int|
                0 <= i < s.len() && s[i].0 == k,
        forall|i: int| 0 <= i < s.len() ==> #[trigger] entries_map(s)[s[i].0] == s[i].1,
{
    lemma_entries_map_keys(s);
    assert forall|i: int| 0 <= i < s.len() implies #[trigger] entries_map(s)[s[i].0] == s[i].1 by {
        lemma_entries_map_sorted(s, i);
    }
}

proof fn lemma_insert_sorted(
    s: Seq<(Seq<char>, Seq<char>)>,
    i: int,
    k: Seq<char>,
    v: Seq<char>,
)
    requires
        sorted_keys(s),
        0 <= i <= s.len(),
        forall|j: int| 0 <= j < i ==> lex_lt(#[trigger] s[j].0, k),
        i < s.len() ==> lex_lt(k, s[i].0),
    ensures
        sorted_keys(s.insert(i, (k, v))),
        entries_map(s.insert(i, (k, v))) == entries_map(s).insert(k, v),
{
    let t = s.insert(i, (k, v));
    assert forall|a: int, b: int| 0 <= a < b < t.len() implies lex_lt(
        #[trigger] t[a].0,
        #[trigger] t[b].0,
    ) by {
        if b < i {
            assert(t[a] == s[a] && t[b] == s[b]);
        } else if b == i {
            assert(t[a] == s[a]);
        } else if a < i {
            assert(t[a] == s[a] && t[b] == s[b - 1]);
            assert(lex_lt(s[a].0, k));
            if b - 1 > i {
                lemma_lex_transitive(k, s[i].0, s[b - 1].0);
            }
            lemma_lex_transitive(s[a].0, k, s[b - 1].0);
        } else if a == i {
            assert(t[b] == s[b - 1]);
            if b - 1 > i {
                lemma_lex_transitive(k, s[i].0, s[b - 1].0);
            }
        } else {
            assert(t[a] == s[a - 1] && t[b] == s[b - 1]);
        }
    }
    lemma_sorted_map(s);
    lemma_sorted_map(t);
    let m = entries_map(s).insert(k, v);
    assert forall|x: Seq<char>| #[trigger] entries_map(t).contains_key(x) <==> m.contains_key(x) by {
        if exists|j: int| 0 <= j < t.len() && t[j].0 == x {
            let j = choose|j: int| 0 <= j < t.len() && t[j].0 == x;
            if j < i {
                assert(s[j].0 == x);
            } else if j > i {
                assert(s[j - 1].0 == x);
            }
        }
        if exists|j: int| 0 <= j < s.len() && s[j].0 == x {
            let j = choose|j: int| 0 <= j < s.len() && s[j].0 == x;
            if j < i {
                assert(t[j].0 == x);
            } else {
                assert(t[j + 1].0 == x);
            }
        }
        if x == k {
            assert(t[i].0 == x);
        }
    }
    assert forall|x: Seq<char>| #[trigger] entries_map(t).contains_key(x) implies entries_map(t)[x]
        == m[x] by {
        let j = choose|j: int| 0 <= j < t.len() && t[j].0 == x;
        if j < i {
            assert(t[j] == s[j]);
            assert(lex_lt(t[j].0, t[i].0));
            lemma_lex_irreflexive(k);
        } else if j > i {
            assert(t[j] == s[j - 1]);
            assert(lex_lt(t[i].0, t[j].0));
            lemma_lex_irreflexive(k);
        }
    }
    assert(entries_map(t) =~= m);
}

proof fn lemma_update_sorted(s: Seq<(Seq<char>, Seq<char>)>, i: int, v: Seq<char>)
    requires
        sorted_keys(s),
        0 <= i < s.len(),
    ensures
        sorted_keys(s.update(i, (s[i].0, v))),
        entries_map(s.update(i, (s[i].0, v))) == entries_map(s).insert(s[i].0, v),
{
    let k = s[i].0;
    let t = s.update(i, (k, v));
    assert forall|a: int, b: int| 0 <= a < b < t.len() implies lex_lt(
        #[trigger] t[a].0,
        #[trigger] t[b].0,
    ) by {
        assert(t[a].0 == s[a].0 && t[b].0 == s[b].0);
    }
    lemma_sorted_map(s);
    lemma_sorted_map(t);
    let m = entries_map(s).insert(k, v);
    assert forall|x: Seq<char>| #[trigger] entries_map(t).contains_key(x) <==> m.contains_key(x) by {
        if exists|j: int| 0 <= j < t.len() && t[j].0 == x {
            let j = choose|j: int| 0 <= j < t.len() && t[j].0 == x;
            assert(s[j].0 == x);
        }
        if exists|j: int| 0 <= j < s.len() && s[j].0 == x {
            let j = choose|j: int| 0 <= j < s.len() && s[j].0 == x;
            assert(t[j].0 == x);
        }
    }
    assert forall|x: Seq<char>| #[trigger] entries_map(t).contains_key(x) implies entries_map(t)[x]
        == m[x] by {
        let j = choose|j: int| 0 <= j < t.len() && t[j].0 == x;
        if j != i {
            assert(t[j] == s[j]);
            lemma_lex_irreflexive(k);
            if j < i {
                assert(lex_lt(s[j].0, s[i].0));
            } else {
                assert(lex_lt(s[i].0, s[j].0));
            }
        }
    }
    assert(entries_map(t) =~= m);
}

proof fn lemma_remove_sorted(s: Seq<(Seq<char>, Seq<char>)>, i: int)
    requires
        sorted_keys(s),
        0 <= i < s.len(),
    ensures
        sorted_keys(s.remove(i)),
        entries_map(s.remove(i)) == entries_map(s).remove(s[i].0),
{
    let k = s[i].0;
    let t = s.remove(i);
    assert forall|a: int, b: int| 0 <= a < b < t.len() implies lex_lt(
        #[trigger] t[a].0,
        #[trigger] t[b].0,
    ) by {
        let a2 = if a < i { a } else { a + 1 };
        let b2 = if b < i { b } else { b + 1 };
        assert(t[a] == s[a2] && t[b] == s[b2]);
    }
    lemma_sorted_map(s);
    lemma_sorted_map(t);
    let m = entries_map(s).remove(k);
    assert forall|x: Seq<char>| #[trigger] entries_map(t).contains_key(x) <==> m.contains_key(x) by {
        lemma_lex_irreflexive(k);
        if exists|j: int| 0 <= j < t.len() && t[j].0 == x {
            let j = choose|j: int| 0 <= j < t.len() && t[j].0 == x;
            let j2 = if j < i { j } else { j + 1 };
            assert(s[j2].0 == x);
            if j < i {
                assert(lex_lt(s[j2].0, k));
            } else {
                assert(lex_lt(k, s[j2].0));
            }
        }
        if exists|j: int| 0 <= j < s.len() && s[j].0 == x && x != k {
            let j = choose|j: int| 0 <= j < s.len() && s[j].0 == x && x != k;
            if j < i {
                assert(t[j].0 == x);
            } else {
                assert(t[j - 1].0 == x);
            }
        }
    }
    assert forall|x: Seq<char>| #[trigger] entries_map(t).contains_key(x) implies entries_map(t)[x]
        == m[x] by {
        let j = choose|j: int| 0 <= j < t.len() && t[j].0 == x;
        let j2 = if j < i { j } else { j + 1 };
        assert(t[j] == s[j2]);
    }
    assert(entries_map(t) =~= m);
}

impl PackageList {
    #[verifier::type_invariant]
    spec fn inv(self) -> bool {
        sorted_keys(self@)
    }

    /// The mapping from keys to record paths.
    pub open spec fn map(self) -> Map<Seq<char>, Seq<char>> {
        entries_map(self@)
    }

    /// An empty list.
    pub fn new() -> (r: PackageList)
        ensures
            r@ == Seq::<(Seq<char>, Seq<char>)>::empty(),
    {
        let r = PackageList { entries: Vec::new() };
        proof {
            assert(r@ =~= Seq::<(Seq<char>, Seq<char>)>::empty());
        }
        r
    }

    /// The entries are in strictly increasing key order.
    pub fn len(&self) -> (n: usize)
        ensures
            n == self@.len(),
            sorted_keys(self@),
    {
        proof {
            use_type_invariant(self);
        }
        self.entries.len()
    }

    /// The key of the `i`th entry.
    pub fn key_at(&self, i: usize) -> (k: String)
        requires
            i < self@.len(),
        ensures
            k@ == self@[i as int].0,
    {
        self.entries[i].0.clone()
    }

    /// The record path of the `i`th entry.
    pub fn path_at(&self, i: usize) -> (p: String)
        requires
            i < self@.len(),
        ensures
            p@ == self@[i as int].1,
    {
        self.entries[i].1.clone()
    }

    /// Position of the first entry whose key is not below `key`.
    fn lower_bound(&self, key: &[char]) -> (i: usize)
        ensures
            i <= self@.len(),
            forall|j: int| 0 <= j < i ==> lex_lt(#[trigger] self@[j].0, key@),
            i < self@.len() ==> !lex_lt(self@[i as int].0, key@),
    {
        let mut i: usize = 0;
        while i < self.entries.len()
            invariant
                i <= self@.len(),
                self@.len() == self.entries@.len(),
                forall|j: int| 0 <= j < i ==> lex_lt(#[trigger] self@[j].0, key@),
            decreases self@.len() - i,
        {
            let k = chars_of(self.entries[i].0.as_str());
            if !chars_lt(k.as_slice(), key) {
                return i;
            }
            i = i + 1;
        }
        i
    }

    /// The record path stored for `key`.
    pub fn get(&self, key: &str) -> (r: Option<String>)
        ensures
            match r {
                Some(p) => self.map().contains_key(key@) && self.map()[key@] == p@,
                None => !self.map().contains_key(key@),
            },
    {
        proof {
            use_type_invariant(self);
            lemma_entries_map_keys(self@);
        }
        let kv = chars_of(key);
        let i = self.lower_bound(kv.as_slice());
        if i < self.entries.len() {
            let k = chars_of(self.entries[i].0.as_str());
            if !chars_lt(kv.as_slice(), k.as_slice()) {
                proof {
                    lemma_lex_total(self@[i as int].0, key@);
                    lemma_entries_map_sorted(self@, i as int);
                }
                return Some(self.entries[i].1.clone());
            }
        }
        proof {
            if self.map().contains_key(key@) {
                let j = choose|j: int| 0 <= j < self@.len() && self@[j].0 == key@;
                lemma_lex_irreflexive(key@);
                if j >= i {
                    if j > i {
                        assert(lex_lt(self@[i as int].0, self@[j].0));
                    }
                    lemma_lex_total(self@[i as int].0, key@);
                }
            }
        }
        None
    }
}


impl PackageList {
    proof fn entry_view_insert(
        es: Seq<(String, String)>,
        i: int,
        e: (String, String),
    )
        requires
            0 <= i <= es.len(),
        ensures
            es.insert(i, e).map_values(|x: (String, String)| (x.0@, x.1@)) == es.map_values(
                |x: (String, String)| (x.0@, x.1@),
            ).insert(i, (e.0@, e.1@)),
    {
        assert(es.insert(i, e).map_values(|x: (String, String)| (x.0@, x.1@)) =~= es.map_values(
            |x: (String, String)| (x.0@, x.1@),
        ).insert(i, (e.0@, e.1@)));
    }

    /// Record `key` with `value`, replacing what it held.
    pub fn insert(&mut self, key: &str, value: &str)
        ensures
            final(self).map() == old(self).map().insert(key@, value@),
            sorted_keys(final(self)@),
    {
        proof {
            use_type_invariant(&*self);
        }
        let kv = chars_of(key);
        let i = self.lower_bound(kv.as_slice());
        let mut es: Vec<(String, String)> = Vec::new();
        std::mem::swap(&mut es, &mut self.entries);
        let ghost s = es@.map_values(|x: (String, String)| (x.0@, x.1@));
        let mut same = false;
        if i < es.len() {
            let k = chars_of(es[i].0.as_str());
            same = chars_eq(k.as_slice(), kv.as_slice());
        }
        let e = (key.to_string(), value.to_string());
        if same {
            let ghost before = es@;
            es.remove(i);
            es.insert(i, e);
            proof {
                assert(es@ =~= before.update(i as int, e));
                assert(es@.map_values(|x: (String, String)| (x.0@, x.1@)) =~= s.update(
                    i as int,
                    (s[i as int].0, value@),
                ));
                lemma_update_sorted(s, i as int, value@);
            }
        } else {
            let ghost before = es@;
            es.insert(i, e);
            proof {
                if i < s.len() {
                    lemma_lex_total(s[i as int].0, key@);
                }
                Self::entry_view_insert(before, i as int, e);
                lemma_insert_sorted(s, i as int, key@, value@);
            }
        }
        std::mem::swap(&mut es, &mut self.entries);
    }

    /// Drop the entry for `key`, if there is one.
    pub fn remove(&mut self, key: &str)
        ensures
            final(self).map() == old(self).map().remove(key@),
            sorted_keys(final(self)@),
    {
        proof {
            use_type_invariant(&*self);
            lemma_sorted_map(self@);
        }
        let kv = chars_of(key);
        let i = self.lower_bound(kv.as_slice());
        let mut es: Vec<(String, String)> = Vec::new();
        std::mem::swap(&mut es, &mut self.entries);
        let ghost s = es@.map_values(|x: (String, String)| (x.0@, x.1@));
        let mut same = false;
        if i < es.len() {
            let k = chars_of(es[i].0.as_str());
            same = chars_eq(k.as_slice(), kv.as_slice());
        }
        if same {
            let ghost before = es@;
            es.remove(i);
            proof {
                assert(es@.map_values(|x: (String, String)| (x.0@, x.1@)) =~= s.remove(i as int));
                lemma_remove_sorted(s, i as int);
            }
        } else {
            proof {
                if entries_map(s).contains_key(key@) {
                    let j = choose|j: int| 0 <= j < s.len() && s[j].0 == key@;
                    lemma_lex_irreflexive(key@);
                    if j >= i {
                        if j > i {
                            assert(lex_lt(s[i as int].0, s[j].0));
                        }
                        lemma_lex_total(s[i as int].0, key@);
                    }
                }
                assert(entries_map(s) =~= entries_map(s).remove(key@));
            }
        }
        std::mem::swap(&mut es, &mut self.entries);
    }
}


// ---------------------------------------------------------------------------
// Text form

/// A line of the list: with exactly one `=` it holds the trimmed key before
/// it and the trimmed path after it; any other line holds nothing.
pub open spec fn list_line(l: Seq<char>) -> Option<(Seq<char>, Seq<char>)> {
    let i = idx_of(l, '=');
    if 0 <= i < l.len() && idx_of(l.skip(i + 1), '=') == l.len() - i - 1 {
        Some((trim(l.take(i)), trim(l.skip(i + 1))))
    } else {
        None
    }
}

/// The mapping a sequence of lines describes, read in order (a later line
/// for the same key wins).
pub open spec fn parsed_lines(ls: Seq<Seq<char>>) -> Map<Seq<char>, Seq<char>>
    decreases ls.len(),
{
    if ls.len() == 0 {
        Map::empty()
    } else {
        match list_line(ls.last()) {
            Some(kv) => parsed_lines(ls.drop_last()).insert(kv.0, kv.1),
            None => parsed_lines(ls.drop_last()),
        }
    }
}

/// The mapping that the text of a list file describes.
pub open spec fn parsed_list(content: Seq<char>) -> Map<Seq<char>, Seq<char>> {
    parsed_lines(lines(content))
}

/// The text of a list: one `key = path` line per entry, in order.
pub open spec fn rendered(s: Seq<(Seq<char>, Seq<char>)>) -> Seq<char>
    decreases s.len(),
{
    if s.len() == 0 {
        seq![]
    } else {
        rendered(s.drop_last()) + s.last().0 + " = "@ + s.last().1 + seq!['\n']
    }
}

fn parse_list_line(l: &[char]) -> (r: Option<(Vec<char>, Vec<char>)>)
    ensures
        match r {
            Some(kv) => list_line(l@) == Some((kv.0@, kv.1@)),
            None => list_line(l@) is None,
        },
{
    let i = find_char(l, '=');
    proof {
        lemma_idx_of(l@, '=');
    }
    if i == l.len() {
        return None;
    }
    let after = sub_chars(l, i + 1, l.len());
    let j = find_char(after.as_slice(), '=');
    if j != after.len() {
        return None;
    }
    let before = sub_chars(l, 0, i);
    let k = trim_chars(before.as_slice());
    let v = trim_chars(after.as_slice());
    proof {
        assert(l@.take(i as int) =~= before@);
        assert(l@.skip(i + 1) =~= after@);
    }
    Some((k, v))
}

impl PackageList {
    /// Read the text of a list file: every `key = path` line recorded, a
    /// later line for the same key winning; other lines ignored.
    pub fn parse(content: &str) -> (r: PackageList)
        ensures
            r.map() == parsed_list(content@),
            sorted_keys(r@),
    {
        let cs = chars_of(content);
        let ls = lines_of(cs.as_slice());
        let ghost lv = ls@.map_values(|l: Vec<char>| l@);
        let mut r = PackageList::new();
        proof {
            assert(entries_map(r@) =~= Map::<Seq<char>, Seq<char>>::empty());
            assert(lv.take(0) =~= Seq::<Seq<char>>::empty());
        }
        let mut i: usize = 0;
        while i < ls.len()
            invariant
                i <= ls@.len(),
                lv == ls@.map_values(|l: Vec<char>| l@),
                lv == lines(content@),
                r.map() == parsed_lines(lv.take(i as int)),
            decreases ls@.len() - i,
        {
            proof {
                assert(lv.take(i + 1).drop_last() =~= lv.take(i as int));
                assert(lv.take(i + 1).last() == ls@[i as int]@);
            }
            match parse_list_line(ls[i].as_slice()) {
                Some(kv) => {
                    let key = string_of(kv.0.as_slice());
                    let value = string_of(kv.1.as_slice());
                    r.insert(key.as_str(), value.as_str());
                },
                None => {},
            }
            i = i + 1;
        }
        proof {
            assert(lv.take(ls@.len() as int) =~= lv);
            use_type_invariant(&r);
        }
        r
    }

    /// The text of the list: `key = path` lines in key order.
    pub fn render(&self) -> (r: String)
        ensures
            r@ == rendered(self@),
            sorted_keys(self@),
    {
        proof {
            use_type_invariant(self);
        }
        let mut v: Vec<char> = Vec::new();
        let mut i: usize = 0;
        while i < self.entries.len()
            invariant
                i <= self@.len(),
                self@.len() == self.entries@.len(),
                v@ == rendered(self@.take(i as int)),
            decreases self@.len() - i,
        {
            proof {
                assert(self@.take(i + 1).drop_last() =~= self@.take(i as int));
                assert(self@.take(i + 1).last() == self@[i as int]);
            }
            extend_str(&mut v, self.entries[i].0.as_str());
            extend_str(&mut v, " = ");
            extend_str(&mut v, self.entries[i].1.as_str());
            v.push('\n');
            proof {
                assert(v@ =~= rendered(self@.take(i + 1)));
            }
            i = i + 1;
        }
        proof {
            assert(self@.take(self@.len() as int) =~= self@);
        }
        string_of(v.as_slice())
    }

    /// The keys, in order.
    pub fn keys(&self) -> (r: Vec<String>)
        ensures
            r@.len() == self@.len(),
            forall|i: int| 0 <= i < r@.len() ==> #[trigger] r@[i]@ == self@[i].0,
    {
        let mut r: Vec<String> = Vec::new();
        let mut i: usize = 0;
        while i < self.entries.len()
            invariant
                i <= self@.len(),
                self@.len() == self.entries@.len(),
                r@.len() == i,
                forall|j: int| 0 <= j < i ==> #[trigger] r@[j]@ == self@[j].0,
            decreases self@.len() - i,
        {
            r.push(self.entries[i].0.clone());
            i = i + 1;
        }
        r
    }
}

/// Neither `=` nor a line break, and no whitespace at either end: a key or
/// path that the list's text form carries unchanged.
pub open spec fn list_safe(x: Seq<char>) -> bool {
    &&& !x.contains('=')
    &&& !x.contains('\n')
    &&& (x.len() == 0 || (!is_ws(x[0]) && !is_ws(x.last())))
}

proof fn lemma_trim_padded(x: Seq<char>)
    requires
        x.len() == 0 || (!is_ws(x[0]) && !is_ws(x.last())),
    ensures
        trim(x + seq![' ']) == x,
        trim(seq![' '] + x) == x,
{
    let a = x + seq![' '];
    let b = seq![' '] + x;
    assert(is_ws(' '));
    if x.len() == 0 {
        lemma_lead_ws_unique(a, 1);
        lemma_lead_ws_unique(b, 1);
        assert(a.skip(1) =~= x);
        assert(b.skip(1) =~= x);
        lemma_trail_ws_unique(x, 0);
        assert(x.take(0) =~= x);
    } else {
        lemma_lead_ws_unique(a, 0);
        assert(a.skip(0) =~= a);
        lemma_trail_ws_unique(a, 1);
        assert(a.take(a.len() - 1) =~= x);
        lemma_lead_ws_unique(b, 1);
        assert(b.skip(1) =~= x);
        lemma_trail_ws_unique(x, 0);
        assert(x.take(x.len() as int) =~= x);
    }
}

proof fn lemma_list_line(k: Seq<char>, v: Seq<char>)
    requires
        list_safe(k),
        list_safe(v),
    ensures
        list_line(strip_cr(k + " = "@ + v)) == Some((k, v)),
        !(k + " = "@ + v).contains('\n'),
{
    reveal_strlit(" = ");
    let l = k + " = "@ + v;
    assert(l =~= k + seq![' '] + seq!['='] + seq![' '] + v);
    let n = k.len() as int;
    assert forall|j: int| 0 <= j < n implies l[j] != '=' by {
        assert(l[j] == k[j]);
        assert(k.contains(k[j]));
    }
    lemma_idx_of_unique(l, '=', n + 1);
    let after = l.skip(n + 2);
    assert(after =~= seq![' '] + v);
    assert forall|j: int| 0 <= j < after.len() implies after[j] != '=' by {
        if j > 0 {
            assert(after[j] == v[j - 1]);
            assert(v.contains(v[j - 1]));
        }
    }
    lemma_idx_of_unique(after, '=', after.len() as int);
    assert(l.take(n + 1) =~= k + seq![' ']);
    lemma_trim_padded(k);
    lemma_trim_padded(v);
    if v.len() > 0 {
        assert(l.last() == v.last());
        assert(is_ws('\r'));
    }
    assert(strip_cr(l) == l);
    if l.contains('\n') {
        let j = choose|j: int| 0 <= j < l.len() && l[j] == '\n';
        if j < n {
            assert(k.contains(k[j]));
        } else if j >= n + 3 {
            assert(l[j] == v[j - n - 3]);
            assert(v.contains(v[j - n - 3]));
        }
    }
}

proof fn lemma_rendered_ends(s: Seq<(Seq<char>, Seq<char>)>)
    ensures
        rendered(s).len() == 0 || rendered(s).last() == '\n',
{
}

/// Reading back the text of a list gives the same mapping, when no key or
/// path holds `=` or a line break or starts or ends with whitespace.
pub proof fn law_list_text_roundtrip(s: Seq<(Seq<char>, Seq<char>)>)
    requires
        forall|i: int| 0 <= i < s.len() ==> list_safe(#[trigger] s[i].0) && list_safe(s[i].1),
    ensures
        parsed_list(rendered(s)) == entries_map(s),
    decreases s.len(),
{
    if s.len() > 0 {
        let p = s.drop_last();
        assert forall|i: int| 0 <= i < p.len() implies list_safe(#[trigger] p[i].0) && list_safe(
            p[i].1,
        ) by {
            assert(p[i] == s[i]);
        }
        law_list_text_roundtrip(p);
        let k = s.last().0;
        let v = s.last().1;
        assert(list_safe(s[s.len() - 1].0) && list_safe(s[s.len() - 1].1));
        lemma_list_line(k, v);
        lemma_rendered_ends(p);
        let l = k + " = "@ + v;
        assert(rendered(s) =~= rendered(p) + l + seq!['\n']);
        lemma_lines_append(rendered(p), l);
        let ls = lines(rendered(s));
        assert(ls.drop_last() =~= lines(rendered(p)));
    }
}


/// Two lists in key order with the same mapping are the same list.
proof fn lemma_sorted_unique(s: Seq<(Seq<char>, Seq<char>)>, t: Seq<(Seq<char>, Seq<char>)>)
    requires
        sorted_keys(s),
        sorted_keys(t),
        entries_map(s) == entries_map(t),
    ensures
        s == t,
    decreases s.len(),
{
    lemma_entries_map_keys(s);
    lemma_entries_map_keys(t);
    if s.len() == 0 {
        if t.len() > 0 {
            assert(entries_map(t).contains_key(t[0].0));
        }
        assert(s =~= t);
    } else {
        assert(entries_map(s).contains_key(s[0].0));
        assert(t.len() > 0);
        let ls = s.last().0;
        let lt = t.last().0;
        assert(entries_map(s).contains_key(ls));
        assert(entries_map(t).contains_key(lt));
        let j = choose|j: int| 0 <= j < t.len() && t[j].0 == ls;
        let i = choose|i: int| 0 <= i < s.len() && s[i].0 == lt;
        lemma_lex_total(ls, lt);
        if ls != lt {
            if j < t.len() - 1 {
                assert(lex_lt(t[j].0, t[t.len() - 1].0));
            }
            if i < s.len() - 1 {
                assert(lex_lt(s[i].0, s[s.len() - 1].0));
            }
        }
        assert(ls == lt);
        let ds = s.drop_last();
        let dt = t.drop_last();
        assert(sorted_keys(ds));
        assert(sorted_keys(dt));
        lemma_entries_map_keys(ds);
        lemma_entries_map_keys(dt);
        lemma_lex_irreflexive(ls);
        assert(!entries_map(ds).contains_key(ls)) by {
            if entries_map(ds).contains_key(ls) {
                let k = choose|k: int| 0 <= k < ds.len() && ds[k].0 == ls;
                assert(lex_lt(s[k].0, s[s.len() - 1].0));
            }
        }
        assert(!entries_map(dt).contains_key(ls)) by {
            if entries_map(dt).contains_key(ls) {
                let k = choose|k: int| 0 <= k < dt.len() && dt[k].0 == ls;
                assert(lex_lt(t[k].0, t[t.len() - 1].0));
            }
        }
        assert(entries_map(ds) =~= entries_map(s).remove(ls));
        assert(entries_map(dt) =~= entries_map(t).remove(ls));
        lemma_sorted_unique(ds, dt);
        assert(s.last().1 == entries_map(s)[ls]);
        assert(t.last().1 == entries_map(t)[ls]);
        assert(s =~= ds.push(s.last()));
        assert(t =~= dt.push(t.last()));
    }
}

/// Writing back a list read from the text of a list in key order gives the
/// same text, when no key or path holds `=` or a line break or starts or
/// ends with whitespace.
pub proof fn law_list_rewrite_stable(s: Seq<(Seq<char>, Seq<char>)>, t: Seq<(Seq<char>, Seq<char>)>)
    requires
        sorted_keys(s),
        forall|i: int| 0 <= i < s.len() ==> list_safe(#[trigger] s[i].0) && list_safe(s[i].1),
        sorted_keys(t),
        entries_map(t) == parsed_list(rendered(s)),
    ensures
        rendered(t) == rendered(s),
{
    law_list_text_roundtrip(s);
    lemma_sorted_unique(s, t);
}

/// Position of the first entry with key `key`, or the length when there is
/// none.
pub open spec fn entry_index(s: Seq<(Seq<char>, Seq<char>)>, key: Seq<char>) -> int
    decreases s.len(),
{
    if s.len() == 0 {
        0
    } else if s[0].0 == key {
        0
    } else {
        1 + entry_index(s.drop_first(), key)
    }
}

pub proof fn lemma_entry_index(s: Seq<(Seq<char>, Seq<char>)>, key: Seq<char>)
    ensures
        0 <= entry_index(s, key) <= s.len(),
        entry_index(s, key) < s.len() ==> s[entry_index(s, key)].0 == key,
        forall|j: int| 0 <= j < entry_index(s, key) ==> s[j].0 != key,
    decreases s.len(),
{
    if s.len() > 0 && s[0].0 != key {
        lemma_entry_index(s.drop_first(), key);
        assert forall|j: int| 0 <= j < entry_index(s, key) implies s[j].0 != key by {
            if j > 0 {
                assert(s[j] == s.drop_first()[j - 1]);
            }
        }
    }
}

proof fn lemma_entry_index_unique(s: Seq<(Seq<char>, Seq<char>)>, key: Seq<char>, i: int)
    requires
        0 <= i <= s.len(),
        i < s.len() ==> s[i].0 == key,
        forall|j: int| 0 <= j < i ==> s[j].0 != key,
    ensures
        entry_index(s, key) == i,
    decreases s.len(),
{
    if s.len() > 0 && i > 0 {
        assert(s[0].0 != key);
        assert forall|j: int| 0 <= j < i - 1 implies s.drop_first()[j].0 != key by {
            assert(s.drop_first()[j] == s[j + 1]);
        }
        lemma_entry_index_unique(s.drop_first(), key, i - 1);
    }
}

impl PackageList {
    /// Position of the entry with key `key`, or the length when there is
    /// none.
    pub fn index_of(&self, key: &str) -> (r: usize)
        ensures
            r == entry_index(self@, key@),
            r <= self@.len(),
    {
        let kv = chars_of(key);
        let mut i: usize = 0;
        while i < self.entries.len()
            invariant
                i <= self@.len(),
                self@.len() == self.entries@.len(),
                kv@ == key@,
                forall|j: int| 0 <= j < i ==> self@[j].0 != key@,
            decreases self@.len() - i,
        {
            let k = chars_of(self.entries[i].0.as_str());
            if chars_eq(k.as_slice(), kv.as_slice()) {
                proof {
                    lemma_entry_index_unique(self@, key@, i as int);
                }
                return i;
            }
            i = i + 1;
        }
        proof {
            lemma_entry_index_unique(self@, key@, i as int);
        }
        i
    }
}


/// In a list in key order, the first entry with a key the mapping holds
/// carries that key's path.
pub proof fn lemma_sorted_lookup(s: Seq<(Seq<char>, Seq<char>)>, key: Seq<char>)
    requires
        sorted_keys(s),
        entries_map(s).contains_key(key),
    ensures
        entry_index(s, key) < s.len(),
        s[entry_index(s, key)].0 == key,
        s[entry_index(s, key)].1 == entries_map(s)[key],
{
    lemma_entries_map_keys(s);
    lemma_entry_index(s, key);
    let j = choose|j: int| 0 <= j < s.len() && s[j].0 == key;
    if entry_index(s, key) == s.len() {
        assert(s[j].0 != key);
    }
    lemma_entries_map_sorted(s, entry_index(s, key));
}

} // verus!
