//! Package names, package keys, install locations and the package record.
use vstd::prelude::*;

use crate::cli::{normalize_supplier, normalized_supplier};
use crate::error::GitpkgError;
use crate::text::{chars_of, eq_str, extend_chars, extend_str, find_char, has_char, idx_of, lemma_idx_of, lemma_idx_of_unique, string_of, sub_chars};

verus! {

broadcast use vstd::string::group_string_axioms;

// ---------------------------------------------------------------------------
// Package arguments

/// `user/repo`, or `supplier_user/repo`: the user and repository named by a
/// package argument.
pub open spec fn parsed_pkg(a: Seq<char>) -> (Seq<char>, Seq<char>) {
    let u = idx_of(a, '_');
    let sl = idx_of(a, '/');
    if sl < a.len() && u < sl {
        (a.subrange(u + 1, sl), a.skip(sl + 1))
    } else if sl < a.len() {
        let rest = a.skip(sl + 1);
        (a.take(sl), rest.take(idx_of(rest, '/')))
    } else {
        (a, seq![])
    }
}

/// The domain written before the `_` of `supplier_user/repo`: taken as it
/// is when it has a `.`, otherwise with `.com` added.
pub open spec fn supplier_domain(prefix: Seq<char>) -> Seq<char> {
    if prefix.contains('.') {
        prefix
    } else {
        prefix + ".com"@
    }
}

/// User, repository and (for `supplier_user/repo`) the supplier domain.
pub open spec fn parsed_pkg_with_supplier(a: Seq<char>) -> (Seq<char>, Seq<char>, Option<Seq<char>>) {
    let u = idx_of(a, '_');
    let sl = idx_of(a, '/');
    if sl < a.len() && u < sl {
        (a.subrange(u + 1, sl), a.skip(sl + 1), Some(supplier_domain(a.take(u))))
    } else {
        (parsed_pkg(a).0, parsed_pkg(a).1, None)
    }
}

/// Split a package argument into user and repository. A `supplier_` prefix
/// before the user is dropped.
pub fn parse_pkg(arg: &str) -> (r: (String, String))
    ensures
        (r.0@, r.1@) == parsed_pkg(arg@),
{
    let a = chars_of(arg);
    let u = find_char(a.as_slice(), '_');
    let sl = find_char(a.as_slice(), '/');
    if sl < a.len() && u < sl {
        let user = sub_chars(a.as_slice(), u + 1, sl);
        let repo = sub_chars(a.as_slice(), sl + 1, a.len());
        return (string_of(user.as_slice()), string_of(repo.as_slice()));
    }
    if sl < a.len() {
        let user = sub_chars(a.as_slice(), 0, sl);
        let rest = sub_chars(a.as_slice(), sl + 1, a.len());
        let e = find_char(rest.as_slice(), '/');
        let repo = sub_chars(rest.as_slice(), 0, e);
        (string_of(user.as_slice()), string_of(repo.as_slice()))
    } else {
        proof {
            assert(a@.take(a@.len() as int) =~= a@);
        }
        (string_of(a.as_slice()), String::new())
    }
}

/// Split a package argument into user, repository and, for
/// `supplier_user/repo`, the supplier domain.
pub fn parse_pkg_with_supplier(arg: &str) -> (r: (String, String, Option<String>))
    ensures
        (r.0@, r.1@, match r.2 {
            Some(s) => Some(s@),
            None => None,
        }) == parsed_pkg_with_supplier(arg@),
{
    let a = chars_of(arg);
    let u = find_char(a.as_slice(), '_');
    let sl = find_char(a.as_slice(), '/');
    if sl < a.len() && u < sl {
        let mut sup = sub_chars(a.as_slice(), 0, u);
        let user = sub_chars(a.as_slice(), u + 1, sl);
        let repo = sub_chars(a.as_slice(), sl + 1, a.len());
        if !has_char(sup.as_slice(), '.') {
            extend_str(&mut sup, ".com");
        }
        return (string_of(user.as_slice()), string_of(repo.as_slice()), Some(string_of(sup.as_slice())));
    }
    let (user, repo) = parse_pkg(arg);
    (user, repo, None)
}

// ---------------------------------------------------------------------------
// Package keys

/// The key of an installed package: `user/repo` on GitHub, otherwise
/// `<supplier without its top-level domain>_user/repo`.
pub open spec fn package_key(user: Seq<char>, repo: Seq<char>, supplier: Seq<char>) -> Seq<char> {
    if supplier == "github.com"@ {
        user + "/"@ + repo
    } else {
        normalized_supplier(supplier) + "_"@ + user + "/"@ + repo
    }
}

pub fn get_package_key(user: &str, repo: &str, supplier: &str) -> (r: String)
    ensures
        r@ == package_key(user@, repo@, supplier@),
{
    let s = chars_of(supplier);
    let mut v: Vec<char> = Vec::new();
    if !eq_str(s.as_slice(), "github.com") {
        let n = normalize_supplier(supplier);
        extend_str(&mut v, n.as_str());
        extend_str(&mut v, "_");
    }
    extend_str(&mut v, user);
    extend_str(&mut v, "/");
    extend_str(&mut v, repo);
    string_of(v.as_slice())
}

/// The key of a GitHub package names its user and repository again: parsing
/// `user/repo` gives back the user and the repository, when the user has no
/// `_` or `/` and the repository no `/`.
pub proof fn law_github_key_parses_back(user: Seq<char>, repo: Seq<char>)
    requires
        !user.contains('_'),
        !user.contains('/'),
        !repo.contains('/'),
    ensures
        parsed_pkg(package_key(user, repo, "github.com"@)) == (user, repo),
{
    let k = package_key(user, repo, "github.com"@);
    assert(k =~= user + seq!['/'] + repo) by {
        reveal_strlit("/");
    }
    let n = user.len() as int;
    assert forall|j: int| 0 <= j < n implies k[j] != '/' by {
        assert(k[j] == user[j]);
        assert(user.contains(user[j]));
    }
    lemma_idx_of_unique(k, '/', n);
    assert forall|j: int| 0 <= j < n implies k[j] != '_' by {
        assert(k[j] == user[j]);
        assert(user.contains(user[j]));
    }
    lemma_idx_of(k, '_');
    if idx_of(k, '_') < n {
        assert(k[idx_of(k, '_')] == '_');
    }
    let rest = k.skip(n + 1);
    assert(rest =~= repo);
    lemma_idx_of(repo, '/');
    assert(repo.take(idx_of(repo, '/')) =~= repo);
    assert(k.take(n) =~= user);
}

/// The key of a package from another supplier names its user and
/// repository again: parsing `prefix_user/repo` gives back the user and
/// the repository, when the normalized supplier has no `_` or `/` and the
/// user no `/`.
pub proof fn law_supplier_key_parses_back(user: Seq<char>, repo: Seq<char>, supplier: Seq<char>)
    requires
        supplier != "github.com"@,
        !normalized_supplier(supplier).contains('_'),
        !normalized_supplier(supplier).contains('/'),
        !user.contains('/'),
    ensures
        parsed_pkg(package_key(user, repo, supplier)) == (user, repo),
        parsed_pkg_with_supplier(package_key(user, repo, supplier)) == (
            user,
            repo,
            Some(supplier_domain(normalized_supplier(supplier))),
        ),
{
    let p = normalized_supplier(supplier);
    let k = package_key(user, repo, supplier);
    assert(k =~= p + seq!['_'] + user + seq!['/'] + repo) by {
        reveal_strlit("/");
        reveal_strlit("_");
    }
    let np = p.len() as int;
    let nu = user.len() as int;
    assert forall|j: int| 0 <= j < np implies k[j] != '_' by {
        assert(k[j] == p[j]);
        assert(p.contains(p[j]));
    }
    lemma_idx_of_unique(k, '_', np);
    assert forall|j: int| 0 <= j < np + 1 + nu implies k[j] != '/' by {
        if j < np {
            assert(k[j] == p[j]);
            assert(p.contains(p[j]));
        } else if j > np {
            assert(k[j] == user[j - np - 1]);
            assert(user.contains(user[j - np - 1]));
        }
    }
    lemma_idx_of_unique(k, '/', np + 1 + nu);
    assert(k.subrange(np + 1, np + 1 + nu) =~= user);
    assert(k.skip(np + 1 + nu + 1) =~= repo);
    assert(k.take(np) =~= p);
}

// ---------------------------------------------------------------------------
// Paths

/// `Path::join` on Unix: an absolute `part` replaces `base`; otherwise a `/`
/// separates them unless `base` is empty or already ends with one.
pub open spec fn path_join(base: Seq<char>, part: Seq<char>) -> Seq<char> {
    if part.len() > 0 && part[0] == '/' {
        part
    } else if base.len() > 0 && base.last() != '/' {
        base + seq!['/'] + part
    } else {
        base + part
    }
}

/// `Path::join` on Unix, on characters.
pub fn join_path(base: &[char], part: &[char]) -> (r: Vec<char>)
    ensures
        r@ == path_join(base@, part@),
{
    if part.len() > 0 && part[0] == '/' {
        return sub_chars(part, 0, part.len());
    }
    let mut v = sub_chars(base, 0, base.len());
    if base.len() > 0 && base[base.len() - 1] != '/' {
        v.push('/');
    }
    extend_chars(&mut v, part);
    proof {
        assert(base@.subrange(0, base@.len() as int) =~= base@);
        assert(part@.subrange(0, part@.len() as int) =~= part@);
    }
    v
}

/// The home directory, or the error that says HOME is not set.
pub fn home_dir_or_err(home: Option<&str>) -> (r: Result<String, GitpkgError>)
    ensures
        match home {
            Some(h) => r matches Ok(p) && p@ == h@,
            None => r == Err::<String, GitpkgError>(GitpkgError::HomeNotFound),
        },
{
    match home {
        Some(h) => Ok(h.to_string()),
        None => Err(GitpkgError::HomeNotFound),
    }
}

/// `<home>/.local/share/gitpkg/list.gitpkg`.
pub open spec fn list_path(home: Seq<char>) -> Seq<char> {
    path_join(home, ".local/share/gitpkg/list.gitpkg"@)
}

/// Where the list of installed packages is kept.
pub fn list_file_path(home: Option<&str>) -> (r: Result<String, GitpkgError>)
    ensures
        match home {
            Some(h) => r matches Ok(p) && p@ == list_path(h@),
            None => r == Err::<String, GitpkgError>(GitpkgError::HomeNotFound),
        },
{
    let h = home_dir_or_err(home)?;
    let hv = chars_of(h.as_str());
    let part = chars_of(".local/share/gitpkg/list.gitpkg");
    let p = join_path(hv.as_slice(), part.as_slice());
    Ok(string_of(p.as_slice()))
}

/// `<home>/.local/share/gitpkg/<key>/<commit>`.
pub open spec fn install_root_path(
    home: Seq<char>,
    user: Seq<char>,
    repo: Seq<char>,
    commit: Seq<char>,
    supplier: Seq<char>,
) -> Seq<char> {
    path_join(
        path_join(path_join(home, ".local/share/gitpkg"@), package_key(user, repo, supplier)),
        commit,
    )
}

/// The directory a given commit of a package is installed into.
pub fn install_root(
    user: &str,
    repo: &str,
    commit: &str,
    supplier: &str,
    home: Option<&str>,
) -> (r: Result<String, GitpkgError>)
    ensures
        match home {
            Some(h) => r matches Ok(p) && p@ == install_root_path(
                h@,
                user@,
                repo@,
                commit@,
                supplier@,
            ),
            None => r == Err::<String, GitpkgError>(GitpkgError::HomeNotFound),
        },
{
    let key = get_package_key(user, repo, supplier);
    let h = home_dir_or_err(home)?;
    let hv = chars_of(h.as_str());
    let base = chars_of(".local/share/gitpkg");
    let kv = chars_of(key.as_str());
    let cv = chars_of(commit);
    let a = join_path(hv.as_slice(), base.as_slice());
    let b = join_path(a.as_slice(), kv.as_slice());
    let c = join_path(b.as_slice(), cv.as_slice());
    Ok(string_of(c.as_slice()))
}

/// `<home>/.local/share/gitpkg/<key>/info.gitpkg`.
pub open spec fn info_path(home: Seq<char>, user: Seq<char>, repo: Seq<char>, supplier: Seq<char>) -> Seq<
    char,
> {
    path_join(
        path_join(path_join(home, ".local/share/gitpkg"@), package_key(user, repo, supplier)),
        "info.gitpkg"@,
    )
}

/// The file that holds a package's record.
pub fn info_file_path(user: &str, repo: &str, supplier: &str, home: Option<&str>) -> (r: Result<
    String,
    GitpkgError,
>)
    ensures
        match home {
            Some(h) => r matches Ok(p) && p@ == info_path(h@, user@, repo@, supplier@),
            None => r == Err::<String, GitpkgError>(GitpkgError::HomeNotFound),
        },
{
    let key = get_package_key(user, repo, supplier);
    let h = home_dir_or_err(home)?;
    let hv = chars_of(h.as_str());
    let base = chars_of(".local/share/gitpkg");
    let kv = chars_of(key.as_str());
    let name = chars_of("info.gitpkg");
    let a = join_path(hv.as_slice(), base.as_slice());
    let b = join_path(a.as_slice(), kv.as_slice());
    let c = join_path(b.as_slice(), name.as_slice());
    Ok(string_of(c.as_slice()))
}


// ---------------------------------------------------------------------------
// Clone directory

/// The MD5 digest of `data` (what `md5::compute` returns).
pub uninterp spec fn md5_digest(data: Seq<u8>) -> Seq<u8>;

/// `md5::compute`: the 16 bytes of the MD5 digest of `data`, named
/// `md5_digest(data)`; the digest algorithm itself is not stated.
#[verifier::external_body]
fn md5_bytes(data: &[u8]) -> (d: Vec<u8>)
    ensures
        d@ == md5_digest(data@),
        d@.len() == 16,
{
    md5::compute(data).0.to_vec()
}

/// The lowercase hex digit for `d < 16`.
pub open spec fn hex_digit(d: nat) -> char {
    if d < 10 {
        (48 + d) as char
    } else {
        (87 + d) as char
    }
}

/// Each byte as two lowercase hex digits (`{:02x}` per byte).
pub open spec fn hex_lower(b: Seq<u8>) -> Seq<char>
    decreases b.len(),
{
    if b.len() == 0 {
        seq![]
    } else {
        hex_lower(b.drop_last()) + seq![
            hex_digit((b.last() / 16) as nat),
            hex_digit((b.last() % 16) as nat),
        ]
    }
}

fn hex_digit_char(d: u8) -> (c: char)
    requires
        d < 16,
    ensures
        c == hex_digit(d as nat),
{
    if d < 10 {
        (48 + d) as char
    } else {
        (87 + d) as char
    }
}

fn hex_chars(b: &[u8]) -> (r: Vec<char>)
    ensures
        r@ == hex_lower(b@),
{
    let mut r: Vec<char> = Vec::new();
    let mut i: usize = 0;
    while i < b.len()
        invariant
            i <= b@.len(),
            r@ == hex_lower(b@.take(i as int)),
        decreases b@.len() - i,
    {
        let x = b[i];
        r.push(hex_digit_char(x / 16));
        r.push(hex_digit_char(x % 16));
        proof {
            assert(b@.take(i + 1).drop_last() =~= b@.take(i as int));
            assert(r@ =~= hex_lower(b@.take(i + 1)));
        }
        i = i + 1;
    }
    proof {
        assert(b@.take(b@.len() as int) =~= b@);
    }
    r
}

/// `<home>/.local/share/gitpkg/temp/<digest in hex>`.
pub open spec fn temp_dir_of(home: Seq<char>, digest: Seq<u8>) -> Seq<char> {
    path_join(path_join(home, ".local/share/gitpkg/temp"@), hex_lower(digest))
}

/// `<home>/.local/share/gitpkg/temp/<md5 of user and repo, in hex>`.
pub open spec fn temp_dir_path(home: Seq<char>, user: Seq<char>, repo: Seq<char>) -> Seq<char> {
    temp_dir_of(home, md5_digest(vstd::utf8::encode_utf8(user + repo)))
}

/// The clone directory named by a digest of the package's user and
/// repository.
pub fn temp_dir_from_digest(home: &str, digest: &[u8]) -> (r: String)
    ensures
        r@ == temp_dir_of(home@, digest@),
{
    let hash = hex_chars(digest);
    let hv = chars_of(home);
    let base = chars_of(".local/share/gitpkg/temp");
    let a = join_path(hv.as_slice(), base.as_slice());
    let b = join_path(a.as_slice(), hash.as_slice());
    string_of(b.as_slice())
}

/// The directory a package is cloned into before it is built.
pub fn temp_path(user: &str, repo: &str, home: Option<&str>) -> (r: Result<String, GitpkgError>)
    ensures
        match home {
            Some(h) => r matches Ok(p) && p@ == temp_dir_path(h@, user@, repo@),
            None => r == Err::<String, GitpkgError>(GitpkgError::HomeNotFound),
        },
{
    let mut joined: Vec<char> = Vec::new();
    extend_str(&mut joined, user);
    extend_str(&mut joined, repo);
    let name = string_of(joined.as_slice());
    let digest = md5_bytes(name.as_str().as_bytes());
    let h = home_dir_or_err(home)?;
    Ok(temp_dir_from_digest(h.as_str(), digest.as_slice()))
}

// ---------------------------------------------------------------------------
// The package record

/// Whether a flag is off (the record leaves such a `submodules` out).
pub fn is_false(b: &bool) -> (r: bool)
    ensures
        r == !*b,
{
    !*b
}

/// What gitpkg records about an installed package (its `info.gitpkg`).
#[derive(Clone, Debug)]
pub struct PackageInfo {
    pub user: String,
    pub repo: String,
    pub latest_commit: String,
    pub build_system: String,
    pub package_manager: String,
    pub timestamp: String,
    pub install_path: String,
    pub symlink_path: String,
    pub supplier: String,
    pub has_data_files: bool,
    pub system_wide: bool,
    pub system_deps: Vec<String>,
    pub remote_url: Option<String>,
    pub branch: Option<String>,
    pub make_target: Option<String>,
    pub build_flags: Option<String>,
    pub submodules: bool,
    pub data_symlinks: Vec<String>,
    pub desktop_symlinks: Vec<String>,
    pub desktop_file: Option<String>,
}

/// The view of an optional string.
pub open spec fn opt_view(o: Option<&str>) -> Option<Seq<char>> {
    match o {
        Some(s) => Some(s@),
        None => None,
    }
}

/// The view of an optional owned string.
pub open spec fn opt_string_view(o: Option<String>) -> Option<Seq<char>> {
    match o {
        Some(s) => Some(s@),
        None => None,
    }
}

fn opt_owned(o: Option<&str>) -> (r: Option<String>)
    ensures
        opt_string_view(r) == opt_view(o),
{
    match o {
        Some(s) => Some(s.to_string()),
        None => None,
    }
}

fn clone_strings(v: &[String]) -> (r: Vec<String>)
    ensures
        r@ == v@,
{
    let mut r: Vec<String> = Vec::new();
    let mut i: usize = 0;
    while i < v.len()
        invariant
            i <= v@.len(),
            r@ == v@.take(i as int),
        decreases v@.len() - i,
    {
        r.push(v[i].clone());
        proof {
            assert(v@.take(i + 1) =~= v@.take(i as int).push(v@[i as int]));
        }
        i = i + 1;
    }
    proof {
        assert(v@.take(v@.len() as int) =~= v@);
    }
    r
}

/// The record written after a successful build. The stored remote URL is
/// dropped when it is empty; everything else is recorded as given.
pub fn package_info(
    user: &str,
    repo: &str,
    commit: &str,
    build_system: &str,
    pm: &str,
    timestamp: &str,
    install_path: &str,
    symlink_path: &str,
    desktop_path: Option<&str>,
    supplier: &str,
    has_data_files: bool,
    data_symlinks: &[String],
    desktop_symlinks: &[String],
    branch: Option<&str>,
    make_target: Option<&str>,
    build_flags: Option<&str>,
    submodules: bool,
    system_wide: bool,
    installed_deps: &[String],
    remote_url: Option<&str>,
) -> (r: PackageInfo)
    ensures
        r.user@ == user@,
        r.repo@ == repo@,
        r.latest_commit@ == commit@,
        r.build_system@ == build_system@,
        r.package_manager@ == pm@,
        r.timestamp@ == timestamp@,
        r.install_path@ == install_path@,
        r.symlink_path@ == symlink_path@,
        r.supplier@ == supplier@,
        r.has_data_files == has_data_files,
        r.system_wide == system_wide,
        r.system_deps@ == installed_deps@,
        opt_string_view(r.remote_url) == (match remote_url {
            Some(u) => if u@.len() > 0 {
                Some(u@)
            } else {
                None
            },
            None => None,
        }),
        opt_string_view(r.branch) == opt_view(branch),
        opt_string_view(r.make_target) == opt_view(make_target),
        opt_string_view(r.build_flags) == opt_view(build_flags),
        r.submodules == submodules,
        r.data_symlinks@ == data_symlinks@,
        r.desktop_symlinks@ == desktop_symlinks@,
        opt_string_view(r.desktop_file) == opt_view(desktop_path),
{
    let remote = match remote_url {
        Some(u) => if u.is_empty() {
            None
        } else {
            Some(u.to_string())
        },
        None => None,
    };
    PackageInfo {
        user: user.to_string(),
        repo: repo.to_string(),
        latest_commit: commit.to_string(),
        build_system: build_system.to_string(),
        package_manager: pm.to_string(),
        timestamp: timestamp.to_string(),
        install_path: install_path.to_string(),
        symlink_path: symlink_path.to_string(),
        supplier: supplier.to_string(),
        has_data_files,
        system_wide,
        system_deps: clone_strings(installed_deps),
        remote_url: remote,
        branch: opt_owned(branch),
        make_target: opt_owned(make_target),
        build_flags: opt_owned(build_flags),
        submodules,
        data_symlinks: clone_strings(data_symlinks),
        desktop_symlinks: clone_strings(desktop_symlinks),
        desktop_file: opt_owned(desktop_path),
    }
}

} // verus!
