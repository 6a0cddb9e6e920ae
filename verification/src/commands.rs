//! The decisions behind gitpkg's commands: which package an upgrade or a
//! branch switch acts on, what a migration rewrites, and which target a
//! command line names.
use vstd::prelude::*;

use crate::config::{username_for, Config};
use crate::error::GitpkgError;
use crate::package::{opt_string_view, opt_view, parse_pkg, parsed_pkg, PackageInfo};
use crate::git::branch_listed;
use crate::pkglist::PackageList;
use crate::registry::{by_key, find_matching_packages, find_package_by_key, found_view, matches_of, supplier_views, Found, Resolved};
use crate::text::{trim, chars_eq, chars_of, eq_str, has_char, extend_chars, extend_str, find_char, idx_of, lemma_idx_of, starts_with, starts_with_chars, string_of, sub_chars};
use crate::cli::resolve_self_alias;

verus! {

broadcast use vstd::string::group_string_axioms;

// ---------------------------------------------------------------------------
// Migration

/// The remote of a migrated package: SSH when the old remote was SSH,
/// HTTPS otherwise.
pub open spec fn rewritten_remote(old_url: Seq<char>, new_supplier: Seq<char>, new_user: Seq<char>, repo: Seq<char>) -> Seq<
    char,
> {
    if starts_with(old_url, "git@"@) {
        "git@"@ + new_supplier + ":"@ + new_user + "/"@ + repo + ".git"@
    } else {
        "https://"@ + new_supplier + "/"@ + new_user + "/"@ + repo + ".git"@
    }
}

/// Rewrite a remote URL to point to a different supplier and username.
pub fn rewrite_remote_url(old_url: &str, new_supplier: &str, new_user: &str, repo: &str) -> (r: String)
    ensures
        r@ == rewritten_remote(old_url@, new_supplier@, new_user@, repo@),
{
    let o = chars_of(old_url);
    let ssh = chars_of("git@");
    let mut v: Vec<char> = Vec::new();
    if starts_with_chars(o.as_slice(), ssh.as_slice()) {
        extend_str(&mut v, "git@");
        extend_str(&mut v, new_supplier);
        extend_str(&mut v, ":");
    } else {
        extend_str(&mut v, "https://");
        extend_str(&mut v, new_supplier);
        extend_str(&mut v, "/");
    }
    extend_str(&mut v, new_user);
    extend_str(&mut v, "/");
    extend_str(&mut v, repo);
    extend_str(&mut v, ".git");
    string_of(v.as_slice())
}

/// `str::split('/')`: the pieces between slashes.
pub open spec fn segments(s: Seq<char>) -> Seq<Seq<char>>
    decreases s.len(),
{
    let i = idx_of(s, '/');
    if i < 0 || i >= s.len() {
        seq![s]
    } else {
        seq![s.take(i)] + segments(s.skip(i + 1))
    }
}

/// Pieces joined with `/` between them.
pub open spec fn join_segments(p: Seq<Seq<char>>) -> Seq<char>
    decreases p.len(),
{
    if p.len() == 0 {
        seq![]
    } else if p.len() == 1 {
        p[0]
    } else {
        p[0] + seq!['/'] + join_segments(p.drop_first())
    }
}

/// A path with every segment equal to `old` replaced by `new`.
pub open spec fn replaced_segments(path: Seq<char>, old: Seq<char>, new: Seq<char>) -> Seq<char> {
    join_segments(
        segments(path).map_values(
            |seg: Seq<char>|
                if seg == old {
                    new
                } else {
                    seg
                },
        ),
    )
}

fn replace_segments_chars(path: &[char], old: &[char], new: &[char]) -> (r: Vec<char>)
    ensures
        r@ == replaced_segments(path@, old@, new@),
    decreases path@.len(),
{
    let i = find_char(path, '/');
    proof {
        lemma_idx_of(path@, '/');
    }
    let seg = sub_chars(path, 0, i);
    let mut v: Vec<char> = if chars_eq(seg.as_slice(), old) {
        sub_chars(new, 0, new.len())
    } else {
        seg
    };
    proof {
        assert(new@.subrange(0, new@.len() as int) =~= new@);
        assert(path@.take(i as int) =~= path@.subrange(0, i as int));
    }
    if i == path.len() {
        proof {
            assert(path@.take(i as int) =~= path@);
            let m = segments(path@).map_values(
                |s: Seq<char>|
                    if s == old@ {
                        new@
                    } else {
                        s
                    },
            );
            assert(m.len() == 1);
        }
        return v;
    }
    let rest = sub_chars(path, i + 1, path.len());
    let tail = replace_segments_chars(rest.as_slice(), old, new);
    v.push('/');
    extend_chars(&mut v, tail.as_slice());
    proof {
        let f = |s: Seq<char>|
            if s == old@ {
                new@
            } else {
                s
            };
        let all = segments(path@);
        assert(all == seq![path@.take(i as int)] + segments(rest@));
        let m = all.map_values(f);
        let mr = segments(rest@).map_values(f);
        assert(m.drop_first() =~= mr);
        assert(segments(rest@).len() >= 1) by {
            reveal_with_fuel(segments, 1);
        }
        assert(m.len() >= 2);
    }
    v
}

/// Replace each `/`-separated segment of a path that equals `old` with
/// `new` (the record's symlink path after a migration).
pub fn replace_path_segment(path: &str, old: &str, new: &str) -> (r: String)
    ensures
        r@ == replaced_segments(path@, old@, new@),
{
    let p = chars_of(path);
    let o = chars_of(old);
    let n = chars_of(new);
    let r = replace_segments_chars(p.as_slice(), o.as_slice(), n.as_slice());
    string_of(r.as_slice())
}

/// The username on the destination supplier: the one given on the command
/// line, else the one configured for the destination, else the one
/// configured for the current supplier; none means the user is asked.
pub open spec fn new_username(
    cli: Option<&str>,
    usernames: Seq<(String, String)>,
    destination: Seq<char>,
    stored: Seq<char>,
) -> Option<Seq<char>> {
    match cli {
        Some(n) => Some(n@),
        None => match username_for(usernames, destination) {
            Some(n) => Some(n),
            None => username_for(usernames, stored),
        },
    }
}

pub fn resolve_new_username(
    cli: Option<&str>,
    cfg: &Config,
    destination: &str,
    stored_supplier: &str,
) -> (r: Option<String>)
    ensures
        opt_string_view(r) == new_username(cli, cfg.forge_usernames@, destination@, stored_supplier@),
{
    match cli {
        Some(n) => Some(n.to_string()),
        None => match cfg.forge_username(destination) {
            Some(n) => Some(n),
            None => cfg.forge_username(stored_supplier),
        },
    }
}

/// A package to migrate: not already on the destination, and installed by
/// the username configured for its supplier.
pub open spec fn migrates(
    supplier: Seq<char>,
    user: Seq<char>,
    usernames: Seq<(String, String)>,
    destination: Seq<char>,
) -> bool {
    supplier != destination && username_for(usernames, supplier) == Some(user)
}

/// The keys, among the first `n` entries, of the packages to migrate, in
/// list order. `records[i]` is the supplier and user read from the `i`th
/// entry's record.
pub open spec fn migration_keys(
    entries: Seq<(Seq<char>, Seq<char>)>,
    records: Seq<Option<(String, String)>>,
    usernames: Seq<(String, String)>,
    destination: Seq<char>,
    n: int,
) -> Seq<Seq<char>>
    decreases n,
{
    if n <= 0 {
        seq![]
    } else {
        let rest = migration_keys(entries, records, usernames, destination, n - 1);
        match records[n - 1] {
            Some(rec) => if migrates(rec.0@, rec.1@, usernames, destination) {
                rest.push(entries[n - 1].0)
            } else {
                rest
            },
            None => rest,
        }
    }
}

/// The packages to migrate to `destination`: those from another supplier
/// whose user is the username configured for that supplier. `records[i]`
/// is the supplier and user read from the record of the `i`th entry, none
/// when the record could not be read.
pub fn migration_candidates(
    list: &PackageList,
    records: &[Option<(String, String)>],
    cfg: &Config,
    destination: &str,
) -> (r: Vec<String>)
    requires
        records@.len() == list@.len(),
    ensures
        views_of(r@) == migration_keys(
            list@,
            records@,
            cfg.forge_usernames@,
            destination@,
            list@.len() as int,
        ),
{
    let n = list.len();
    let d = chars_of(destination);
    let mut r: Vec<String> = Vec::new();
    let mut i: usize = 0;
    while i < n
        invariant
            i <= n,
            n == list@.len(),
            records@.len() == n,
            d@ == destination@,
            views_of(r@) == migration_keys(list@, records@, cfg.forge_usernames@, destination@, i as int),
        decreases n - i,
    {
        let ghost before = r@;
        match &records[i] {
            Some(rec) => {
                let s = chars_of(rec.0.as_str());
                if !chars_eq(s.as_slice(), d.as_slice()) {
                    match cfg.forge_username(rec.0.as_str()) {
                        Some(expected) => {
                            let u = chars_of(rec.1.as_str());
                            let e = chars_of(expected.as_str());
                            if chars_eq(u.as_slice(), e.as_slice()) {
                                r.push(list.key_at(i));
                                proof {
                                    assert(views_of(r@) =~= views_of(before).push(list@[i as int].0));
                                }
                            }
                        },
                        None => {},
                    }
                }
            },
            None => {},
        }
        i = i + 1;
    }
    r
}

/// The character views of a sequence of strings.
pub open spec fn views_of(v: Seq<String>) -> Seq<Seq<char>> {
    v.map_values(|s: String| s@)
}

// ---------------------------------------------------------------------------
// Choosing the package an upgrade or a branch switch acts on

/// Position of the first match from supplier `sup`, or the length.
pub open spec fn first_from(m: Seq<(Seq<char>, Seq<char>, Seq<char>)>, sup: Seq<char>) -> int
    decreases m.len(),
{
    if m.len() == 0 {
        0
    } else if m[0].1 == sup {
        0
    } else {
        1 + first_from(m.drop_first(), sup)
    }
}

proof fn lemma_first_from_unique(m: Seq<(Seq<char>, Seq<char>, Seq<char>)>, sup: Seq<char>, i: int)
    requires
        0 <= i <= m.len(),
        i < m.len() ==> m[i].1 == sup,
        forall|j: int| 0 <= j < i ==> m[j].1 != sup,
    ensures
        first_from(m, sup) == i,
    decreases m.len(),
{
    if m.len() > 0 && i > 0 {
        assert(m[0].1 != sup);
        assert forall|j: int| 0 <= j < i - 1 implies m.drop_first()[j].1 != sup by {
            assert(m.drop_first()[j] == m[j + 1]);
        }
        lemma_first_from_unique(m.drop_first(), sup, i - 1);
    }
}

fn clone_found(f: &Found) -> (r: Found)
    ensures
        found_view(r) == found_view(*f),
{
    (f.0.clone(), f.1.clone(), f.2.clone())
}

fn from_supplier(f: &Found, sup: &[char]) -> (r: bool)
    ensures
        r == (f.1@ == sup@),
{
    let s = chars_of(f.1.as_str());
    chars_eq(s.as_slice(), sup)
}

/// What `select_match` answers for the matches `m` of `user/repo`.
pub open spec fn selected(
    r: Result<Resolved, GitpkgError>,
    m: Seq<(Seq<char>, Seq<char>, Seq<char>)>,
    user: Seq<char>,
    repo: Seq<char>,
    supplier: Option<Seq<char>>,
) -> bool {
    if m.len() > 1 {
        match supplier {
            None => r matches Ok(Resolved::Ask(v)) && v@.map_values(|f: Found| found_view(f)) == m,
            Some(s) => if first_from(m, s) < m.len() {
                r matches Ok(Resolved::Package(x)) && found_view(x) == m[first_from(m, s)]
            } else {
                r matches Err(GitpkgError::PackageNotFound(msg)) && msg@ == user + "/"@ + repo
                    + " from "@ + s
            },
        }
    } else {
        r matches Ok(Resolved::Package(x)) && found_view(x) == m[0]
    }
}

/// Pick among the (non-empty) matches for `user/repo`: the only one; with
/// several and a supplier given, the first from that supplier (an error
/// naming `user/repo from supplier` when there is none); with several and
/// no supplier, the user chooses.
pub fn select_match(matches: Vec<Found>, user: &str, repo: &str, supplier: Option<&str>) -> (r: Result<
    Resolved,
    GitpkgError,
>)
    requires
        matches@.len() > 0,
    ensures
        selected(r, matches@.map_values(|f: Found| found_view(f)), user@, repo@, opt_view(supplier)),
{
    let ghost mv = matches@.map_values(|f: Found| found_view(f));
    if matches.len() > 1 {
        match supplier {
            None => Ok(Resolved::Ask(matches)),
            Some(s) => {
                let sv = chars_of(s);
                let mut k: usize = 0;
                while k < matches.len() && !from_supplier(&matches[k], sv.as_slice())
                    invariant
                        k <= matches@.len(),
                        mv == matches@.map_values(|f: Found| found_view(f)),
                        sv@ == s@,
                        forall|j: int| 0 <= j < k ==> mv[j].1 != s@,
                    decreases matches@.len() - k,
                {
                    proof {
                        assert(mv[k as int] == found_view(matches@[k as int]));
                    }
                    k = k + 1;
                }
                proof {
                    if k < matches@.len() {
                        assert(mv[k as int] == found_view(matches@[k as int]));
                    }
                    lemma_first_from_unique(mv, s@, k as int);
                }
                if k < matches.len() {
                    Ok(Resolved::Package(clone_found(&matches[k])))
                } else {
                    let mut v: Vec<char> = Vec::new();
                    extend_str(&mut v, user);
                    extend_str(&mut v, "/");
                    extend_str(&mut v, repo);
                    extend_str(&mut v, " from ");
                    extend_str(&mut v, s);
                    Err(GitpkgError::PackageNotFound(string_of(v.as_slice())))
                }
            },
        }
    } else {
        proof {
            assert(mv[0] == found_view(matches@[0]));
        }
        Ok(Resolved::Package(clone_found(&matches[0])))
    }
}

/// Whether an upgrade moves gitpkg itself from its old Codeberg home to
/// GitHub: the package is `el1lovescomputers/gitpkg` from codeberg.org and
/// no supplier was given.
pub fn is_self_migration(user: &str, repo: &str, supplier_given: bool, stored_supplier: &str) -> (r: bool)
    ensures
        r == (user@ == "el1lovescomputers"@ && repo@ == "gitpkg"@ && !supplier_given
            && stored_supplier@ == "codeberg.org"@),
{
    let u = chars_of(user);
    let p = chars_of(repo);
    let s = chars_of(stored_supplier);
    eq_str(u.as_slice(), "el1lovescomputers") && eq_str(p.as_slice(), "gitpkg") && !supplier_given
        && eq_str(s.as_slice(), "codeberg.org")
}

/// Whether an upgrade of `Lalaggi/gitpkg` that finds nothing should look
/// for the package under its old Codeberg account.
pub fn falls_back_to_old_account(user: &str, repo: &str, supplier_given: bool) -> (r: bool)
    ensures
        r == (!supplier_given && user@ == "Lalaggi"@ && repo@ == "gitpkg"@),
{
    let u = chars_of(user);
    let p = chars_of(repo);
    !supplier_given && eq_str(u.as_slice(), "Lalaggi") && eq_str(p.as_slice(), "gitpkg")
}

// ---------------------------------------------------------------------------
// Command-line targets

/// The branch given with `--branch`: an empty name is refused.
pub fn check_branch_flag(branch: Option<&str>) -> (r: Result<Option<String>, GitpkgError>)
    ensures
        match branch {
            Some(b) => if b@.len() == 0 {
                r matches Err(GitpkgError::Parse(m)) && m@ == "--branch requires a non-empty branch name"@
            } else {
                r matches Ok(Some(x)) && x@ == b@
            },
            None => r matches Ok(None),
        },
{
    match branch {
        Some(b) => if b.is_empty() {
            Err(GitpkgError::Parse("--branch requires a non-empty branch name".to_string()))
        } else {
            Ok(Some(b.to_string()))
        },
        None => Ok(None),
    }
}

/// The package an upgrade, update or migration names: none for `all` or no
/// argument (every package), `Lalaggi/gitpkg` for `self`, otherwise the
/// argument.
pub fn upgrade_target(target: Option<&str>) -> (r: Option<String>)
    ensures
        opt_string_view(r) == match target {
            None => None,
            Some(t) => if t@ == "all"@ {
                None
            } else if t@ == "self"@ {
                Some("Lalaggi/gitpkg"@)
            } else {
                Some(t@)
            },
        },
{
    match target {
        None => None,
        Some(t) => {
            let v = chars_of(t);
            if eq_str(v.as_slice(), "all") {
                None
            } else if eq_str(v.as_slice(), "self") {
                Some("Lalaggi/gitpkg".to_string())
            } else {
                Some(resolve_self_alias(t))
            }
        },
    }
}

/// The package a clean names: none for `all` or no argument (every
/// package), otherwise the argument with `self` standing for gitpkg.
pub fn clean_target(target: Option<&str>) -> (r: Option<String>)
    ensures
        opt_string_view(r) == match target {
            None => None,
            Some(t) => if t@ == "all"@ {
                None
            } else if t@ == "self"@ {
                Some("el1lovescomputers/gitpkg"@)
            } else {
                Some(t@)
            },
        },
{
    match target {
        None => None,
        Some(t) => {
            let v = chars_of(t);
            if eq_str(v.as_slice(), "all") {
                None
            } else {
                Some(resolve_self_alias(t))
            }
        },
    }
}

/// Whether `clean` removes the version directory `dir_name` of a package
/// whose record names `current` as its installed commit.
pub fn is_old_version(dir_name: &str, current: &str) -> (r: bool)
    ensures
        r == (dir_name@ != current@ && dir_name@ != "info.gitpkg"@),
{
    let d = chars_of(dir_name);
    let c = chars_of(current);
    !chars_eq(d.as_slice(), c.as_slice()) && !eq_str(d.as_slice(), "info.gitpkg")
}

/// Whether a package argument is given as a key (`supplier_user/repo`)
/// rather than as `user/repo`: it holds both a `_` and a `/`.
pub fn names_key(package: &str) -> (r: bool)
    ensures
        r == (package@.contains('_') && package@.contains('/')),
{
    let v = chars_of(package);
    has_char(v.as_slice(), '_') && has_char(v.as_slice(), '/')
}

/// Whether a package is gitpkg itself, under either of its accounts; its
/// shell completion script is installed along with it.
pub fn is_gitpkg_itself(user: &str, repo: &str) -> (r: bool)
    ensures
        r == (repo@ == "gitpkg"@ && (user@ == "Lalaggi"@ || user@ == "el1lovescomputers"@)),
{
    let u = chars_of(user);
    let p = chars_of(repo);
    eq_str(p.as_slice(), "gitpkg") && (eq_str(u.as_slice(), "Lalaggi") || eq_str(
        u.as_slice(),
        "el1lovescomputers",
    ))
}

/// The user and repository gitpkg was published under before it moved,
/// looked up by `upgrade` when the current one is not installed (see
/// `falls_back_to_old_account`).
pub fn old_account_package() -> (r: (String, String))
    ensures
        r.0@ == "el1lovescomputers"@,
        r.1@ == "gitpkg"@,
{
    ("el1lovescomputers".to_string(), "gitpkg".to_string())
}

/// Where `upgrade` fetches a package from: the supplier given on the
/// command line, else the stored one, with the stored remote URL. gitpkg's
/// own package under its old Codeberg account is fetched from GitHub
/// instead, without the stored remote; the third component says whether
/// that happened (the package is then migrated).
pub fn upgrade_source(
    user: &str,
    repo: &str,
    supplier: Option<&str>,
    stored_supplier: &str,
    stored_remote: Option<&str>,
) -> (r: (String, Option<String>, bool))
    ensures
        r.2 == (user@ == "el1lovescomputers"@ && repo@ == "gitpkg"@ && supplier is None
            && stored_supplier@ == "codeberg.org"@),
        r.2 ==> r.0@ == "github.com"@ && r.1 is None,
        !r.2 ==> r.0@ == (match supplier {
            Some(s) => s@,
            None => stored_supplier@,
        }) && opt_string_view(r.1) == opt_view(stored_remote),
{
    if is_self_migration(user, repo, supplier.is_some(), stored_supplier) {
        return ("github.com".to_string(), None, true);
    }
    let chosen = match supplier {
        Some(s) => s.to_string(),
        None => stored_supplier.to_string(),
    };
    let remote = match stored_remote {
        Some(u) => Some(u.to_string()),
        None => None,
    };
    (chosen, remote, false)
}

/// How `upgrade`, `migrate` and `change-branch` find the package an
/// argument names. An argument holding `_` and `/` is a key: the package
/// `find_package_by_key` finds, an error naming the argument when there is
/// none. Otherwise the packages named by the argument's user and
/// repository: none when there are none, else chosen by `select_match`.
pub fn locate_package(
    list: &PackageList,
    suppliers: &[Option<String>],
    package: &str,
    supplier: Option<&str>,
) -> (r: Result<Option<Resolved>, GitpkgError>)
    requires
        suppliers@.len() == list@.len(),
    ensures
        ({
            let sv = supplier_views(suppliers@);
            let p = parsed_pkg(package@);
            let m = matches_of(list@, sv, p.0, p.1);
            if package@.contains('_') && package@.contains('/') {
                match by_key(list@, sv, package@) {
                    Some(f) => r matches Ok(Some(Resolved::Package(x))) && found_view(x) == f,
                    None => r matches Err(GitpkgError::PackageNotFound(e)) && e@ == package@,
                }
            } else if m.len() == 0 {
                r matches Ok(None)
            } else {
                match r {
                    Ok(Some(x)) => selected(Ok(x), m, p.0, p.1, opt_view(supplier)),
                    Ok(None) => false,
                    Err(e) => selected(Err(e), m, p.0, p.1, opt_view(supplier)),
                }
            }
        }),
{
    let (user, repo) = parse_pkg(package);
    if names_key(package) {
        return match find_package_by_key(list, suppliers, package) {
            Some(f) => Ok(Some(Resolved::Package(f))),
            None => Err(GitpkgError::PackageNotFound(package.to_string())),
        };
    }
    let matches = find_matching_packages(list, suppliers, user.as_str(), repo.as_str());
    if matches.len() == 0 {
        return Ok(None);
    }
    match select_match(matches, user.as_str(), repo.as_str(), supplier) {
        Ok(x) => Ok(Some(x)),
        Err(e) => Err(e),
    }
}

/// The package `remove` acts on: the packages named by the argument's user
/// and repository, chosen as `select_match` does without a supplier; an
/// error naming `user/repo` when none is installed.
pub fn remove_target(list: &PackageList, suppliers: &[Option<String>], package: &str) -> (r: Result<
    Resolved,
    GitpkgError,
>)
    requires
        suppliers@.len() == list@.len(),
    ensures
        ({
            let p = parsed_pkg(package@);
            let m = matches_of(list@, supplier_views(suppliers@), p.0, p.1);
            if m.len() == 0 {
                r matches Err(GitpkgError::PackageNotFound(e)) && e@ == p.0 + "/"@ + p.1
            } else {
                selected(r, m, p.0, p.1, None)
            }
        }),
{
    let (user, repo) = parse_pkg(package);
    let matches = find_matching_packages(list, suppliers, user.as_str(), repo.as_str());
    if matches.len() == 0 {
        let mut v: Vec<char> = Vec::new();
        extend_str(&mut v, user.as_str());
        extend_str(&mut v, "/");
        extend_str(&mut v, repo.as_str());
        return Err(GitpkgError::PackageNotFound(string_of(v.as_slice())));
    }
    select_match(matches, user.as_str(), repo.as_str(), None)
}

/// Whether `migrate` has work to do: the package is not from the
/// destination already.
pub fn needs_migration(stored_supplier: &str, destination: &str) -> (r: bool)
    ensures
        r == (stored_supplier@ != destination@),
{
    let a = chars_of(stored_supplier);
    let b = chars_of(destination);
    !chars_eq(a.as_slice(), b.as_slice())
}

/// The remote URL a record names, or empty text when it names none.
pub open spec fn stored_remote(info: PackageInfo) -> Seq<char> {
    match info.remote_url {
        Some(u) => u@,
        None => seq![],
    }
}

/// A package record after migrating `repo` to `destination` under
/// `username`: the supplier, user and remote URL rewritten, the install
/// directory the one given, the symlink path with a segment equal to the
/// old key replaced by the new key, and everything else as it was.
pub fn migrated_record(
    info: PackageInfo,
    repo: &str,
    destination: &str,
    username: &str,
    old_key: &str,
    new_key: &str,
    install_path: String,
) -> (r: PackageInfo)
    ensures
        r.supplier@ == destination@,
        r.user@ == username@,
        opt_string_view(r.remote_url) == Some(
            rewritten_remote(stored_remote(info), destination@, username@, repo@),
        ),
        r.install_path@ == install_path@,
        r.symlink_path@ == replaced_segments(info.symlink_path@, old_key@, new_key@),
        r.repo == info.repo && r.latest_commit == info.latest_commit && r.build_system
            == info.build_system && r.package_manager == info.package_manager && r.timestamp
            == info.timestamp && r.has_data_files == info.has_data_files && r.system_wide
            == info.system_wide && r.system_deps == info.system_deps && r.branch == info.branch
            && r.make_target == info.make_target && r.build_flags == info.build_flags
            && r.submodules == info.submodules && r.data_symlinks == info.data_symlinks
            && r.desktop_symlinks == info.desktop_symlinks && r.desktop_file == info.desktop_file,
{
    let old_remote = match &info.remote_url {
        Some(u) => u.clone(),
        None => String::new(),
    };
    let remote = rewrite_remote_url(old_remote.as_str(), destination, username, repo);
    let symlink = replace_path_segment(info.symlink_path.as_str(), old_key, new_key);
    let mut r = info;
    r.supplier = destination.to_string();
    r.user = username.to_string();
    r.remote_url = Some(remote);
    r.install_path = install_path;
    r.symlink_path = symlink;
    r
}

/// Whether a build may put its link at a path: nothing is there, or a
/// symlink is (an existing file that is not a link is left alone).
pub fn may_replace_link(present: bool, is_symlink: bool) -> (r: bool)
    ensures
        r == (!present || is_symlink),
{
    !present || is_symlink
}

/// Whether a build needs the launcher script that sets up resource paths:
/// it installed data files.
pub fn needs_wrapper(data_files: usize) -> (r: bool)
    ensures
        r == (data_files > 0),
{
    data_files > 0
}

/// Whether `upgrade` rebuilds: the remote's latest commit is not the
/// installed one.
pub fn upgrade_needed(current: &str, latest: &str) -> (r: bool)
    ensures
        r == (current@ != latest@),
{
    let a = chars_of(current);
    let b = chars_of(latest);
    !chars_eq(a.as_slice(), b.as_slice())
}

/// Whether `git ls-remote --heads --tags` found a ref: with verbose output
/// shown, git's success alone; otherwise success with some output.
pub fn ref_exists(verbose: bool, success: bool, stdout: &str) -> (r: bool)
    ensures
        r == (if verbose {
            success
        } else {
            success && trim(stdout@).len() > 0
        }),
{
    if verbose {
        success
    } else {
        branch_listed(success, stdout)
    }
}

/// A step of a command that changes an installed package, in the order the
/// command takes them.
#[derive(Clone, Copy, Debug, PartialEq, Eq, Structural)]
pub enum Step {
    /// Remove the package's links, desktop file and data links.
    RemoveLinks,
    /// Clone the sources afresh.
    Clone,
    /// Build and install them.
    Build,
    /// Drop the list entry under the package's old supplier.
    ForgetOldEntry,
}

/// The steps of an upgrade from the installed commit `current` to the
/// remote's `latest`: none when they agree; otherwise clone and build, then
/// forget the old entry when the package moved supplier.
pub open spec fn upgrade_steps(current: Seq<char>, latest: Seq<char>, migrated: bool) -> Seq<Step> {
    if latest == current {
        seq![]
    } else if migrated {
        seq![Step::Clone, Step::Build, Step::ForgetOldEntry]
    } else {
        seq![Step::Clone, Step::Build]
    }
}

/// What `upgrade` does once it has asked the remote for its latest commit
/// (`latest`, none when that failed): fail when there is no answer,
/// otherwise take the steps of `upgrade_steps`.
pub fn upgrade_plan(current: &str, latest: Option<&str>, migrated: bool) -> (r: Result<
    Vec<Step>,
    GitpkgError,
>)
    ensures
        (match latest {
            None => (r matches Err(GitpkgError::Git(m)) && m@
                == "Failed to get latest commit hash from remote"@),
            Some(l) => (r matches Ok(v) && v@ == upgrade_steps(current@, l@, migrated)),
        }),
{
    match latest {
        None => Err(GitpkgError::Git("Failed to get latest commit hash from remote".to_string())),
        Some(l) => {
            let mut v: Vec<Step> = Vec::new();
            if upgrade_needed(current, l) {
                v.push(Step::Clone);
                v.push(Step::Build);
                if migrated {
                    v.push(Step::ForgetOldEntry);
                }
            }
            proof {
                assert(v@ =~= upgrade_steps(current@, l@, migrated));
            }
            Ok(v)
        },
    }
}

/// The steps of a branch change once the ref is known to exist on the
/// remote: remove the links, clone the ref, build it.
pub open spec fn change_branch_steps() -> Seq<Step> {
    seq![Step::RemoveLinks, Step::Clone, Step::Build]
}

/// What `change-branch` does once git has said whether the ref exists on
/// the remote: fail naming the ref when it does not (nothing is removed
/// then); otherwise take the steps of `change_branch_steps`.
pub fn change_branch_plan(exists: bool, branch: &str) -> (r: Result<Vec<Step>, GitpkgError>)
    ensures
        (if exists {
            (r matches Ok(v) && v@ == change_branch_steps())
        } else {
            (r matches Err(GitpkgError::Git(m)) && m@ == "Branch or tag '"@ + branch@
                + "' does not exist on remote"@)
        }),
{
    if !exists {
        let mut m: Vec<char> = Vec::new();
        extend_str(&mut m, "Branch or tag '");
        extend_str(&mut m, branch);
        extend_str(&mut m, "' does not exist on remote");
        return Err(GitpkgError::Git(string_of(m.as_slice())));
    }
    let mut v: Vec<Step> = Vec::new();
    v.push(Step::RemoveLinks);
    v.push(Step::Clone);
    v.push(Step::Build);
    proof {
        assert(v@ =~= change_branch_steps());
    }
    Ok(v)
}

/// An upgrade clones exactly when the installed commit is not the latest,
/// builds only what it cloned before, and never removes the package's links.
pub proof fn law_upgrade_clones_only_when_behind(current: Seq<char>, latest: Seq<char>, migrated: bool)
    ensures
        upgrade_steps(current, latest, migrated).contains(Step::Clone) <==> latest != current,
        upgrade_steps(current, latest, migrated).contains(Step::Build) <==> latest != current,
        !upgrade_steps(current, latest, migrated).contains(Step::RemoveLinks),
        forall|i: int, j: int|
            0 <= i < upgrade_steps(current, latest, migrated).len() && 0 <= j
                < upgrade_steps(current, latest, migrated).len() && upgrade_steps(
                current,
                latest,
                migrated,
            )[i] == Step::Build && upgrade_steps(current, latest, migrated)[j] == Step::Clone
                ==> j < i,
{
    let plan = upgrade_steps(current, latest, migrated);
    if latest != current {
        assert(plan[0] == Step::Clone);
        assert(plan[1] == Step::Build);
    }
}

} // verus!
