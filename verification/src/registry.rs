//! Finding installed packages: by key, by user and repository, and the
//! choice among several matches.
use vstd::prelude::*;

use crate::error::GitpkgError;
use crate::package::{info_file_path, info_path, PackageInfo, get_package_key, opt_string_view, package_key, parse_pkg, parse_pkg_with_supplier, parsed_pkg, parsed_pkg_with_supplier};
use crate::pkglist::{entries_map, entry_index, lemma_entry_index, lemma_sorted_lookup, sorted_keys, PackageList};
use crate::text::{parse_unsigned, parsed_unsigned, ridx_of, chars_eq, chars_of, find_char, idx_of, lemma_idx_of, sub_chars, trim, trim_str};

verus! {

broadcast use vstd::string::group_string_axioms;

// ---------------------------------------------------------------------------
// The list as a registry

/// Record that `user/repo` from `supplier` has its record at `info_path`.
pub fn add_to_package_list(
    list: &mut PackageList,
    user: &str,
    repo: &str,
    info_path: &str,
    supplier: &str,
)
    ensures
        final(list).map() == old(list).map().insert(package_key(user@, repo@, supplier@), info_path@),
{
    let key = get_package_key(user, repo, supplier);
    list.insert(key.as_str(), info_path);
}

/// Where the record of a freshly built package is kept, with the list
/// updated to name that file under the package's key: the key and the
/// file are those of the record's own user, repository and supplier, so
/// the list entry and the record agree.
pub fn record_package(list: &mut PackageList, info: &PackageInfo, home: Option<&str>) -> (r: Result<
    String,
    GitpkgError,
>)
    ensures
        match home {
            Some(h) => r matches Ok(p) && p@ == info_path(h@, info.user@, info.repo@, info.supplier@)
                && final(list).map() == old(list).map().insert(
                package_key(info.user@, info.repo@, info.supplier@),
                p@,
            ),
            None => r == Err::<String, GitpkgError>(GitpkgError::HomeNotFound) && final(list).map()
                == old(list).map(),
        },
{
    let path = info_file_path(info.user.as_str(), info.repo.as_str(), info.supplier.as_str(), home)?;
    add_to_package_list(list, info.user.as_str(), info.repo.as_str(), path.as_str(), info.supplier.as_str());
    Ok(path)
}

/// Forget the package with the given key.
pub fn remove_from_package_list(list: &mut PackageList, package_key: &str)
    ensures
        final(list).map() == old(list).map().remove(package_key@),
{
    list.remove(package_key);
}

/// Forget the entry a package had under its old supplier (after a
/// migration).
pub fn remove_old_supplier_entry(list: &mut PackageList, user: &str, repo: &str, old_supplier: &str)
    ensures
        final(list).map() == old(list).map().remove(package_key(user@, repo@, old_supplier@)),
{
    let old_key = get_package_key(user, repo, old_supplier);
    remove_from_package_list(list, old_key.as_str());
}

/// A migration records the package under its new key and then forgets the
/// old one (`add_to_package_list`, then `remove_old_supplier_entry`): the
/// list then names the package's record under the new key only, and every
/// other entry is unchanged.
pub proof fn law_migration_moves_entry(
    before: Map<Seq<char>, Seq<char>>,
    user: Seq<char>,
    repo: Seq<char>,
    old_supplier: Seq<char>,
    new_user: Seq<char>,
    new_supplier: Seq<char>,
    info_path: Seq<char>,
)
    requires
        package_key(user, repo, old_supplier) != package_key(new_user, repo, new_supplier),
    ensures
        ({
            let old_key = package_key(user, repo, old_supplier);
            let new_key = package_key(new_user, repo, new_supplier);
            let after = before.insert(new_key, info_path).remove(old_key);
            &&& after.contains_key(new_key) && after[new_key] == info_path
            &&& !after.contains_key(old_key)
            &&& forall|k: Seq<char>| k != old_key && k != new_key ==> (after.contains_key(k)
                == before.contains_key(k) && (before.contains_key(k) ==> after[k] == before[k]))
        }),
{
}

/// What adding a package writes, a lookup by its key reads back: once
/// `add_to_package_list` has recorded `user/repo` from `supplier` at
/// `info_path` (giving any list in key order whose mapping is the old one
/// with that entry), `find_package_by_key` with the package's key finds
/// that record, with the supplier read from it.
pub proof fn law_added_package_is_found(
    before: Map<Seq<char>, Seq<char>>,
    after: Seq<(Seq<char>, Seq<char>)>,
    sups: Seq<Option<Seq<char>>>,
    user: Seq<char>,
    repo: Seq<char>,
    supplier: Seq<char>,
    info_path: Seq<char>,
)
    requires
        sorted_keys(after),
        entries_map(after) == before.insert(package_key(user, repo, supplier), info_path),
        sups.len() == after.len(),
        sups[entry_index(after, package_key(user, repo, supplier))] == Some(supplier),
    ensures
        by_key(after, sups, package_key(user, repo, supplier)) == Some(
            (package_key(user, repo, supplier), supplier, info_path),
        ),
{
    let key = package_key(user, repo, supplier);
    lemma_sorted_lookup(after, key);
}

// ---------------------------------------------------------------------------
// Matching keys

/// Whether a key `prefix/repo` (exactly one `/`) names `user` and `repo`;
/// the user is what follows the last `_` of the prefix, or the whole
/// prefix when it has none.
pub open spec fn key_matches(key: Seq<char>, user: Seq<char>, repo: Seq<char>) -> bool {
    let i = idx_of(key, '/');
    let prefix = key.take(i);
    &&& 0 <= i < key.len()
    &&& idx_of(key.skip(i + 1), '/') == key.len() - i - 1
    &&& prefix.skip(ridx_of(prefix, '_') + 1) == user
    &&& key.skip(i + 1) == repo
}

/// Whether `key` names `user` and `repo`.
pub fn package_key_matches(key: &str, user: &str, repo: &str) -> (r: bool)
    ensures
        r == key_matches(key@, user@, repo@),
{
    let k = chars_of(key);
    let i = find_char(k.as_slice(), '/');
    proof {
        lemma_idx_of(k@, '/');
    }
    if i == k.len() {
        return false;
    }
    let rest = sub_chars(k.as_slice(), i + 1, k.len());
    if find_char(rest.as_slice(), '/') != rest.len() {
        return false;
    }
    let prefix = sub_chars(k.as_slice(), 0, i);
    proof {
        assert(k@.take(i as int) =~= prefix@);
        assert(k@.skip(i + 1) =~= rest@);
    }
    let ghost pv = prefix@;
    let mut u: usize = prefix.len();
    proof {
        assert(pv.take(u as int) =~= pv);
    }
    while u > 0 && prefix[u - 1] != '_'
        invariant
            u <= pv.len(),
            pv == prefix@,
            ridx_of(pv, '_') == ridx_of(pv.take(u as int), '_'),
        decreases u,
    {
        proof {
            assert(pv.take(u as int).drop_last() =~= pv.take(u - 1));
        }
        u = u - 1;
    }
    proof {
        if u == 0 {
            assert(pv.take(0).len() == 0);
        }
        assert(ridx_of(pv, '_') + 1 == u);
    }
    let pu = sub_chars(prefix.as_slice(), u, prefix.len());
    let uv = chars_of(user);
    let rv = chars_of(repo);
    proof {
        assert(pv.skip(u as int) =~= pu@);
    }
    chars_eq(pu.as_slice(), uv.as_slice()) && chars_eq(rest.as_slice(), rv.as_slice())
}

// ---------------------------------------------------------------------------
// Finding packages

/// A found package: its key, its supplier and the path of its record.
pub type Found = (String, String, String);

/// The view of a found package.
pub open spec fn found_view(f: Found) -> (Seq<char>, Seq<char>, Seq<char>) {
    (f.0@, f.1@, f.2@)
}

/// The suppliers read from each entry's record (none when the record could
/// not be read).
pub open spec fn supplier_views(s: Seq<Option<String>>) -> Seq<Option<Seq<char>>> {
    s.map_values(|o: Option<String>| opt_string_view(o))
}

/// The entries among the first `n` whose key names `user` and `repo` and
/// whose record could be read, in list order.
pub open spec fn matching(
    entries: Seq<(Seq<char>, Seq<char>)>,
    sups: Seq<Option<Seq<char>>>,
    user: Seq<char>,
    repo: Seq<char>,
    n: int,
) -> Seq<(Seq<char>, Seq<char>, Seq<char>)>
    decreases n,
{
    if n <= 0 {
        seq![]
    } else {
        let rest = matching(entries, sups, user, repo, n - 1);
        let e = entries[n - 1];
        if key_matches(e.0, user, repo) && sups[n - 1] is Some {
            rest.push((e.0, sups[n - 1]->0, e.1))
        } else {
            rest
        }
    }
}

/// All entries whose key names `user` and `repo` and whose record could be
/// read.
pub open spec fn matches_of(
    entries: Seq<(Seq<char>, Seq<char>)>,
    sups: Seq<Option<Seq<char>>>,
    user: Seq<char>,
    repo: Seq<char>,
) -> Seq<(Seq<char>, Seq<char>, Seq<char>)> {
    matching(entries, sups, user, repo, entries.len() as int)
}

fn clone_opt(o: &Option<String>) -> (r: Option<String>)
    ensures
        opt_string_view(r) == opt_string_view(*o),
{
    match o {
        Some(s) => Some(s.clone()),
        None => None,
    }
}

/// The installed packages named `user/repo` (under any supplier), each
/// with its key, supplier and record path, in list order. `suppliers[i]` is
/// the supplier read from the record of the `i`th entry, none when that
/// record could not be read; such entries are left out.
pub fn find_matching_packages(
    list: &PackageList,
    suppliers: &[Option<String>],
    user: &str,
    repo: &str,
) -> (r: Vec<Found>)
    requires
        suppliers@.len() == list@.len(),
    ensures
        r@.map_values(|f: Found| found_view(f)) == matches_of(
            list@,
            supplier_views(suppliers@),
            user@,
            repo@,
        ),
{
    let ghost sv = supplier_views(suppliers@);
    let n = list.len();
    let mut r: Vec<Found> = Vec::new();
    let mut i: usize = 0;
    while i < n
        invariant
            i <= n,
            n == list@.len(),
            suppliers@.len() == n,
            sv == supplier_views(suppliers@),
            r@.map_values(|f: Found| found_view(f)) == matching(list@, sv, user@, repo@, i as int),
        decreases n - i,
    {
        let key = list.key_at(i);
        let ghost before = r@;
        if package_key_matches(key.as_str(), user, repo) {
            match clone_opt(&suppliers[i]) {
                Some(s) => {
                    let path = list.path_at(i);
                    r.push((key, s, path));
                    proof {
                        assert(sv[i as int] == opt_string_view(suppliers@[i as int]));
                        assert(r@.map_values(|f: Found| found_view(f)) =~= matching(
                            list@,
                            sv,
                            user@,
                            repo@,
                            i + 1,
                        ));
                    }
                },
                None => {
                    proof {
                        assert(sv[i as int] == opt_string_view(suppliers@[i as int]));
                    }
                },
            }
        }
        i = i + 1;
    }
    r
}


/// The package a key names: the entry with exactly that key when its record
/// could be read; otherwise the single package named by the key's user and
/// repository, if exactly one matches.
pub open spec fn by_key(
    entries: Seq<(Seq<char>, Seq<char>)>,
    sups: Seq<Option<Seq<char>>>,
    key: Seq<char>,
) -> Option<(Seq<char>, Seq<char>, Seq<char>)> {
    let i = entry_index(entries, key);
    if i < entries.len() && sups[i] is Some {
        Some((key, sups[i]->0, entries[i].1))
    } else {
        let m = matches_of(entries, sups, parsed_pkg(key).0, parsed_pkg(key).1);
        if m.len() == 1 {
            Some(m[0])
        } else {
            None
        }
    }
}

fn clone_found(f: &Found) -> (r: Found)
    ensures
        found_view(r) == found_view(*f),
{
    (f.0.clone(), f.1.clone(), f.2.clone())
}

/// Find an installed package by its key, or by the user and repository the
/// key names when that identifies exactly one package.
pub fn find_package_by_key(list: &PackageList, suppliers: &[Option<String>], pkg_key: &str) -> (r:
    Option<Found>)
    requires
        suppliers@.len() == list@.len(),
    ensures
        match r {
            Some(f) => by_key(list@, supplier_views(suppliers@), pkg_key@) == Some(found_view(f)),
            None => by_key(list@, supplier_views(suppliers@), pkg_key@) is None,
        },
{
    let ghost sv = supplier_views(suppliers@);
    let i = list.index_of(pkg_key);
    if i < list.len() {
        proof {
            assert(sv[i as int] == opt_string_view(suppliers@[i as int]));
            lemma_entry_index(list@, pkg_key@);
        }
        match clone_opt(&suppliers[i]) {
            Some(s) => {
                return Some((pkg_key.to_string(), s, list.path_at(i)));
            },
            None => {},
        }
    }
    let (user, repo) = parse_pkg(pkg_key);
    let matches = find_matching_packages(list, suppliers, user.as_str(), repo.as_str());
    if matches.len() == 1 {
        proof {
            assert(matches@.map_values(|f: Found| found_view(f))[0] == found_view(matches@[0]));
        }
        return Some(clone_found(&matches[0]));
    }
    None
}

/// The outcome of resolving a package argument.
pub enum Resolved {
    /// The package, with its key, supplier and record path.
    Package(Found),
    /// Several packages match and none was singled out: the user picks one.
    Ask(Vec<Found>),
}

/// Position of the first match from supplier `sup`, or the length when none
/// is.
pub open spec fn supplier_index(m: Seq<(Seq<char>, Seq<char>, Seq<char>)>, sup: Seq<char>) -> int
    decreases m.len(),
{
    if m.len() == 0 {
        0
    } else if m[0].1 == sup {
        0
    } else {
        1 + supplier_index(m.drop_first(), sup)
    }
}

proof fn lemma_supplier_index_unique(m: Seq<(Seq<char>, Seq<char>, Seq<char>)>, sup: Seq<char>, i: int)
    requires
        0 <= i <= m.len(),
        i < m.len() ==> m[i].1 == sup,
        forall|j: int| 0 <= j < i ==> m[j].1 != sup,
    ensures
        supplier_index(m, sup) == i,
    decreases m.len(),
{
    if m.len() > 0 && i > 0 {
        assert(m[0].1 != sup);
        assert forall|j: int| 0 <= j < i - 1 implies m.drop_first()[j].1 != sup by {
            assert(m.drop_first()[j] == m[j + 1]);
        }
        lemma_supplier_index_unique(m.drop_first(), sup, i - 1);
    }
}

fn from_supplier(f: &Found, sup: &[char]) -> (r: bool)
    ensures
        r == (f.1@ == sup@),
{
    let s = chars_of(f.1.as_str());
    chars_eq(s.as_slice(), sup)
}

/// Resolve a package argument to its key, supplier and record path.
///
/// An exact key (or a key whose user and repository identify one package)
/// wins. Otherwise the packages named by the argument's user and repository
/// are considered: none is an error; a supplier given as
/// `supplier_user/repo` picks the first match from that supplier (or the
/// first match); several matches without a supplier are handed to the user
/// to choose from.
pub fn resolve_package(list: &PackageList, suppliers: &[Option<String>], package: &str) -> (r: Result<
    Resolved,
    GitpkgError,
>)
    requires
        suppliers@.len() == list@.len(),
    ensures
        ({
            let sv = supplier_views(suppliers@);
            let parsed = parsed_pkg_with_supplier(package@);
            let m = matches_of(list@, sv, parsed.0, parsed.1);
            match by_key(list@, sv, package@) {
                Some(f) => r matches Ok(Resolved::Package(x)) && found_view(x) == f,
                None => if m.len() == 0 {
                    r matches Err(GitpkgError::PackageNotFound(p)) && p@ == package@
                } else {
                    match parsed.2 {
                        Some(h) => r matches Ok(Resolved::Package(x)) && found_view(x) == (if supplier_index(m, h) < m.len() {
                            m[supplier_index(m, h)]
                        } else {
                            m[0]
                        }),
                        None => if m.len() > 1 {
                            r matches Ok(Resolved::Ask(v)) && v@.map_values(|f: Found| found_view(f)) == m
                        } else {
                            r matches Ok(Resolved::Package(x)) && found_view(x) == m[0]
                        },
                    }
                },
            }
        }),
{
    let ghost sv = supplier_views(suppliers@);
    let (user, repo, supplier_hint) = parse_pkg_with_supplier(package);
    match find_package_by_key(list, suppliers, package) {
        Some(f) => {
            return Ok(Resolved::Package(f));
        },
        None => {},
    }
    let matches = find_matching_packages(list, suppliers, user.as_str(), repo.as_str());
    let ghost mv = matches@.map_values(|f: Found| found_view(f));
    if matches.len() == 0 {
        return Err(GitpkgError::PackageNotFound(package.to_string()));
    }
    match supplier_hint {
        Some(sup) => {
            let sv2 = chars_of(sup.as_str());
            let mut k: usize = 0;
            while k < matches.len() && !from_supplier(&matches[k], sv2.as_slice())
                invariant
                    k <= matches@.len(),
                    mv == matches@.map_values(|f: Found| found_view(f)),
                    sv2@ == sup@,
                    forall|j: int| 0 <= j < k ==> mv[j].1 != sup@,
                decreases matches@.len() - k,
            {
                proof {
                    assert(mv[k as int] == found_view(matches@[k as int]));
                }
                k = k + 1;
            }
            proof {
                if k < matches@.len() {
                    assert(mv[k as int] == found_view(matches@[k as int]));
                }
                lemma_supplier_index_unique(mv, sup@, k as int);
                assert(mv[0] == found_view(matches@[0]));
            }
            let pick = if k < matches.len() {
                k
            } else {
                0
            };
            Ok(Resolved::Package(clone_found(&matches[pick])))
        },
        None => {
            if matches.len() > 1 {
                Ok(Resolved::Ask(matches))
            } else {
                proof {
                    assert(mv[0] == found_view(matches@[0]));
                }
                Ok(Resolved::Package(clone_found(&matches[0])))
            }
        },
    }
}


// ---------------------------------------------------------------------------
// Choosing among matches

/// The index picked by typing a number from 1 to `count` (surrounding
/// whitespace ignored).
pub open spec fn selection(input: Seq<char>, count: nat) -> Option<nat> {
    match parsed_unsigned(trim(input), usize::MAX as nat) {
        Some(c) => if 1 <= c <= count {
            Some((c - 1) as nat)
        } else {
            None
        },
        None => None,
    }
}

/// Read the user's choice among `count` matches, numbered from 1: the
/// zero-based index chosen, or none for anything else.
pub fn parse_selection(input: &str, count: usize) -> (r: Option<usize>)
    ensures
        match r {
            Some(i) => selection(input@, count as nat) == Some(i as nat),
            None => selection(input@, count as nat) is None,
        },
{
    let t = trim_str(input);
    match parse_unsigned(t.as_slice(), usize::MAX as u64) {
        Some(c) => {
            let c = c as usize;
            if 1 <= c && c <= count {
                Some(c - 1)
            } else {
                None
            }
        },
        None => None,
    }
}

} // verus!
