use gitpkg::error::GitpkgError;
use gitpkg::package::{
    get_package_key, home_dir_or_err, info_file_path, install_root, is_false, list_file_path,
    package_info, parse_pkg, parse_pkg_with_supplier, temp_path,
};

#[test]
fn test_parse_pkg_simple() {
    let (user, repo) = parse_pkg("alice/myrepo");
    assert_eq!(user, "alice");
    assert_eq!(repo, "myrepo");
}

#[test]
fn test_parse_pkg_supplier_prefix() {
    let (user, repo) = parse_pkg("codeberg_alice/myrepo");
    assert_eq!(user, "alice");
    assert_eq!(repo, "myrepo");
}

#[test]
fn test_parse_pkg_with_supplier_gh() {
    // "gh" shortname is not resolved by parse_pkg_with_supplier;
    // it's only resolved at the CLI level via resolve_supplier_shortname.
    let (user, repo, supplier) = parse_pkg_with_supplier("gh/alice/myrepo");
    assert_eq!(user, "gh");
    assert_eq!(repo, "alice");
    assert_eq!(supplier, None);
}

#[test]
fn test_parse_pkg_with_supplier_codeberg() {
    let (user, repo, supplier) = parse_pkg_with_supplier("codeberg.org_alice/myrepo");
    assert_eq!(user, "alice");
    assert_eq!(repo, "myrepo");
    assert_eq!(supplier, Some("codeberg.org".to_string()));
}

#[test]
fn test_parse_pkg_with_supplier_no_supplier() {
    let (user, repo, supplier) = parse_pkg_with_supplier("alice/myrepo");
    assert_eq!(user, "alice");
    assert_eq!(repo, "myrepo");
    assert_eq!(supplier, None);
}

#[test]
fn test_get_package_key_github() {
    let key = get_package_key("alice", "myrepo", "github.com");
    assert_eq!(key, "alice/myrepo");
}

#[test]
fn test_get_package_key_codeberg() {
    let key = get_package_key("alice", "myrepo", "codeberg.org");
    assert_eq!(key, "codeberg_alice/myrepo");
}

#[test]
fn parse_pkg_edge_cases() {
    assert_eq!(parse_pkg("alice"), ("alice".to_string(), String::new()));
    assert_eq!(parse_pkg("a/b/c"), ("a".to_string(), "b".to_string()));
    assert_eq!(parse_pkg("x_a/b/c"), ("a".to_string(), "b/c".to_string()));
    // An underscore after the slash is part of the repository name.
    assert_eq!(parse_pkg("alice/my_repo"), ("alice".to_string(), "my_repo".to_string()));
    assert_eq!(parse_pkg(""), (String::new(), String::new()));
}

#[test]
fn parse_pkg_with_supplier_adds_dot_com() {
    let (user, repo, supplier) = parse_pkg_with_supplier("gitlab_bob/tool");
    assert_eq!(user, "bob");
    assert_eq!(repo, "tool");
    assert_eq!(supplier, Some("gitlab.com".to_string()));
}

#[test]
fn package_key_parses_back() {
    // GitHub keys and keys of other suppliers give their user and repo back.
    let key = get_package_key("alice", "myrepo", "github.com");
    assert_eq!(parse_pkg(&key), ("alice".to_string(), "myrepo".to_string()));
    let key = get_package_key("al_ice", "my/repo", "gitlab.gnome.org");
    assert_eq!(key, "gitlab.gnome_al_ice/my/repo");
    assert_eq!(parse_pkg(&key), ("al_ice".to_string(), "my/repo".to_string()));
    let (_, _, s) = parse_pkg_with_supplier(&key);
    assert_eq!(s, Some("gitlab.gnome".to_string()));
}

#[test]
fn home_and_paths() {
    assert_eq!(home_dir_or_err(Some("/home/a")), Ok("/home/a".to_string()));
    assert_eq!(home_dir_or_err(None), Err(GitpkgError::HomeNotFound));
    assert_eq!(
        list_file_path(Some("/home/a")).unwrap(),
        "/home/a/.local/share/gitpkg/list.gitpkg"
    );
    assert_eq!(
        list_file_path(Some("/home/a/")).unwrap(),
        "/home/a/.local/share/gitpkg/list.gitpkg"
    );
    assert_eq!(list_file_path(None), Err(GitpkgError::HomeNotFound));
    assert_eq!(
        install_root("alice", "myrepo", "abc123", "codeberg.org", Some("/h")).unwrap(),
        "/h/.local/share/gitpkg/codeberg_alice/myrepo/abc123"
    );
    // An absolute component replaces what came before, as Path::join does.
    assert_eq!(
        install_root("alice", "myrepo", "/abs", "github.com", Some("/h")).unwrap(),
        "/abs"
    );
    assert_eq!(
        install_root("a", "b", "c", "github.com", None),
        Err(GitpkgError::HomeNotFound)
    );
    assert_eq!(
        info_file_path("alice", "myrepo", "github.com", Some("/h")).unwrap(),
        "/h/.local/share/gitpkg/alice/myrepo/info.gitpkg"
    );
}

#[test]
fn temp_path_uses_md5_of_user_and_repo() {
    assert_eq!(
        temp_path("alice", "myrepo", Some("/home/a")).unwrap(),
        "/home/a/.local/share/gitpkg/temp/025a6c1067687444bca16f2a22ce22e8"
    );
    assert_eq!(
        temp_path("jösé", "r", Some("/h")).unwrap(),
        "/h/.local/share/gitpkg/temp/8975f949bf839e4b8ac82325a00262fe"
    );
    assert_eq!(temp_path("a", "b", None), Err(GitpkgError::HomeNotFound));
}

#[test]
fn package_record_fields() {
    let deps = vec!["gcc".to_string(), "make".to_string()];
    let links = vec!["/l/a".to_string()];
    let info = package_info(
        "alice",
        "myrepo",
        "abc123",
        "cargo",
        "apt",
        "2025-01-01T00:00:00Z",
        "/tmp/install",
        "/tmp/bin/myrepo",
        Some("/d/x.desktop"),
        "github.com",
        true,
        &links,
        &[],
        Some("develop"),
        None,
        Some("-j4"),
        true,
        false,
        &deps,
        Some(""),
    );
    assert_eq!(info.user, "alice");
    assert_eq!(info.latest_commit, "abc123");
    assert_eq!(info.timestamp, "2025-01-01T00:00:00Z");
    assert_eq!(info.system_deps, deps);
    assert_eq!(info.data_symlinks, links);
    assert!(info.desktop_symlinks.is_empty());
    // An empty remote URL is not recorded.
    assert_eq!(info.remote_url, None);
    assert_eq!(info.branch.as_deref(), Some("develop"));
    assert_eq!(info.make_target, None);
    assert_eq!(info.desktop_file.as_deref(), Some("/d/x.desktop"));
    assert!(info.has_data_files && info.submodules && !info.system_wide);
    let info2 = package_info(
        "a", "b", "c", "d", "e", "f", "g", "h", None, "i", false, &[], &[], None, None, None,
        false, false, &[], Some("git@x:a/b.git"),
    );
    assert_eq!(info2.remote_url.as_deref(), Some("git@x:a/b.git"));
    assert!(is_false(&false));
    assert!(!is_false(&true));
}

#[test]
fn temp_dir_names_digest_in_hex() {
    let digest = [0x00u8, 0x0f, 0x10, 0xab, 0xff];
    assert_eq!(
        gitpkg::package::temp_dir_from_digest("/h/", &digest),
        "/h/.local/share/gitpkg/temp/000f10abff"
    );
    assert_eq!(gitpkg::package::temp_dir_from_digest("", &[]), ".local/share/gitpkg/temp/");
}
