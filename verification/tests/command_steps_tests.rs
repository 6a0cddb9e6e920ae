use gitpkg::commands::{
    upgrade_plan, change_branch_plan, Step,
    may_replace_link, migrated_record, needs_migration, needs_wrapper, ref_exists, remove_target,
    upgrade_needed,
    is_gitpkg_itself, is_old_version, names_key, old_account_package, upgrade_source,
};
use gitpkg::error::GitpkgError;
use gitpkg::package::{package_info, PackageInfo};
use gitpkg::pkglist::PackageList;
use gitpkg::registry::{record_package, Resolved};
use gitpkg::install::{data_source_dir, is_icon_entry};
use gitpkg::text::split_words;
use gitpkg::versions::{order_versions, VersionRow};

fn row(name: &str, current: bool, installed: Option<(i64, u32)>) -> VersionRow {
    VersionRow { name: name.to_string(), size: name.len() as u64, is_current: current, installed }
}

fn names(rows: &[VersionRow]) -> Vec<String> {
    rows.iter().map(|r| r.name.clone()).collect()
}

#[test]
fn versions_sorted_by_install_time_current_last() {
    let rows = vec![
        row("ccc", false, Some((300, 0))),
        row("aaa", true, Some((100, 0))),
        row("bbb", false, Some((200, 5))),
        row("ddd", false, Some((200, 1))),
    ];
    let out = order_versions(rows);
    assert_eq!(names(&out), vec!["ddd", "bbb", "ccc", "aaa"]);
    assert!(out[3].is_current);
}

#[test]
fn versions_unknown_times_after_known_by_name() {
    let rows = vec![
        row("zeta", false, None),
        row("alpha", false, None),
        row("mid", false, Some((50, 0))),
        row("beta", false, None),
    ];
    let out = order_versions(rows);
    assert_eq!(names(&out), vec!["mid", "alpha", "beta", "zeta"]);
}

#[test]
fn versions_ties_keep_listing_order() {
    let rows = vec![
        row("second", false, Some((7, 7))),
        row("first", false, Some((7, 7))),
        row("early", false, Some((-3, 999_999_999))),
    ];
    let out = order_versions(rows);
    assert_eq!(names(&out), vec!["early", "second", "first"]);
}

#[test]
fn versions_keep_every_row_and_field() {
    let rows = vec![row("b", false, None), row("a", true, None), row("c", true, None)];
    let out = order_versions(rows);
    // Only the first current row is moved to the end.
    assert_eq!(names(&out), vec!["b", "c", "a"]);
    assert_eq!(out.iter().map(|r| r.size).sum::<u64>(), 3);
    assert_eq!(out[2].installed, None);
}

#[test]
fn versions_empty() {
    assert!(order_versions(Vec::new()).is_empty());
}

#[test]
fn split_words_like_split_whitespace() {
    assert_eq!(split_words("gcc gcc-c++ make"), vec!["gcc", "gcc-c++", "make"]);
    assert_eq!(split_words("  nodejs\tnpm \n"), vec!["nodejs", "npm"]);
    assert!(split_words("   ").is_empty());
    assert!(split_words("").is_empty());
    assert_eq!(split_words("a\u{3000}b"), vec!["a", "b"]);
}

#[test]
fn old_versions_are_other_directories() {
    assert!(is_old_version("abc123", "def456"));
    assert!(!is_old_version("def456", "def456"));
    assert!(!is_old_version("info.gitpkg", "def456"));
}

#[test]
fn keys_hold_underscore_and_slash() {
    assert!(names_key("github.com_user/repo"));
    assert!(!names_key("user/repo"));
    assert!(!names_key("my_repo"));
}

#[test]
fn gitpkg_itself_under_both_accounts() {
    assert!(is_gitpkg_itself("Lalaggi", "gitpkg"));
    assert!(is_gitpkg_itself("el1lovescomputers", "gitpkg"));
    assert!(!is_gitpkg_itself("someone", "gitpkg"));
    assert!(!is_gitpkg_itself("Lalaggi", "other"));
}

#[test]
fn old_account() {
    assert_eq!(old_account_package(), ("el1lovescomputers".to_string(), "gitpkg".to_string()));
}

#[test]
fn upgrade_source_prefers_cli_supplier() {
    let (s, remote, migrated) =
        upgrade_source("user", "repo", Some("gitlab.com"), "github.com", Some("git@github.com:user/repo.git"));
    assert_eq!(s, "gitlab.com");
    assert_eq!(remote.as_deref(), Some("git@github.com:user/repo.git"));
    assert!(!migrated);
    let (s, remote, migrated) = upgrade_source("user", "repo", None, "codeberg.org", None);
    assert_eq!(s, "codeberg.org");
    assert_eq!(remote, None);
    assert!(!migrated);
}

#[test]
fn upgrade_source_moves_gitpkg_to_github() {
    let (s, remote, migrated) = upgrade_source(
        "el1lovescomputers",
        "gitpkg",
        None,
        "codeberg.org",
        Some("https://codeberg.org/el1lovescomputers/gitpkg.git"),
    );
    assert_eq!(s, "github.com");
    assert_eq!(remote, None);
    assert!(migrated);
}

#[test]
fn icon_build_files_are_skipped() {
    assert!(!is_icon_entry("meson.build"));
    assert!(!is_icon_entry("CMakeLists.txt"));
    assert!(is_icon_entry("hicolor"));
    assert!(is_icon_entry("app.svg"));
}

#[test]
fn electron_data_lives_in_install_dir() {
    assert_eq!(data_source_dir("electron", "/tmp/t", "/i/x"), "/i/x/electron");
    assert_eq!(data_source_dir("electron", "/tmp/t", "/i/x/"), "/i/x/electron");
    assert_eq!(data_source_dir("meson", "/tmp/t", "/i/x"), "/tmp/t");
}

fn sample_record() -> PackageInfo {
    package_info(
        "alice",
        "myrepo",
        "abc123",
        "cargo",
        "apt",
        "2025-01-01T00:00:00Z",
        "/h/.local/share/gitpkg/codeberg_alice/myrepo/abc123",
        "/h/.local/share/gitpkg/codeberg_alice/myrepo/bin",
        None,
        "codeberg.org",
        false,
        &[],
        &[],
        None,
        None,
        None,
        false,
        false,
        &[],
        Some("git@codeberg.org:alice/myrepo.git"),
    )
}

#[test]
fn migrated_record_rewrites_source() {
    let r = migrated_record(
        sample_record(),
        "myrepo",
        "github.com",
        "alice2",
        "codeberg_alice/myrepo",
        "alice2/myrepo",
        "/h/.local/share/gitpkg/alice2/myrepo/abc123".to_string(),
    );
    assert_eq!(r.supplier, "github.com");
    assert_eq!(r.user, "alice2");
    assert_eq!(r.remote_url.as_deref(), Some("git@github.com:alice2/myrepo.git"));
    assert_eq!(r.install_path, "/h/.local/share/gitpkg/alice2/myrepo/abc123");
    assert_eq!(r.symlink_path, "/h/.local/share/gitpkg/codeberg_alice/myrepo/bin");
    assert_eq!(r.latest_commit, "abc123");
    assert_eq!(r.repo, "myrepo");
}

#[test]
fn small_command_decisions() {
    assert!(needs_migration("codeberg.org", "github.com"));
    assert!(!needs_migration("github.com", "github.com"));
    assert!(may_replace_link(false, false));
    assert!(may_replace_link(true, true));
    assert!(!may_replace_link(true, false));
    assert!(needs_wrapper(2));
    assert!(!needs_wrapper(0));
    assert!(upgrade_needed("abc", "abd"));
    assert!(!upgrade_needed("abc", "abc"));
    assert!(ref_exists(true, true, ""));
    assert!(!ref_exists(false, true, "  \n"));
    assert!(ref_exists(false, true, "abc\trefs/heads/x\n"));
}

#[test]
fn remove_target_choices() {
    let list = PackageList::parse("alice/a = /p/a\ncodeberg_alice/a = /p/ca\nbob/b = /p/b\n");
    // In key order: alice/a, bob/b, codeberg_alice/a.
    let sups = vec![
        Some("github.com".to_string()),
        Some("github.com".to_string()),
        Some("codeberg.org".to_string()),
    ];
    assert_eq!(
        remove_target(&list, &sups, "zed/z").err(),
        Some(GitpkgError::PackageNotFound("zed/z".to_string()))
    );
    assert!(matches!(remove_target(&list, &sups, "alice/a"), Ok(Resolved::Ask(v)) if v.len() == 2));
    assert!(matches!(remove_target(&list, &sups, "bob/b"), Ok(Resolved::Package(f)) if f.2 == "/p/b"));
}

#[test]
fn record_and_list_agree() {
    let mut list = PackageList::parse("bob/b = /p/b\n");
    let info = sample_record();
    let path = record_package(&mut list, &info, Some("/h")).unwrap();
    assert_eq!(path, "/h/.local/share/gitpkg/codeberg_alice/myrepo/info.gitpkg");
    assert_eq!(list.get("codeberg_alice/myrepo"), Some(path));
    assert_eq!(list.len(), 2);
    let mut list2 = PackageList::new();
    assert_eq!(record_package(&mut list2, &info, None), Err(GitpkgError::HomeNotFound));
    assert_eq!(list2.len(), 0);
}

#[test]
fn upgrade_up_to_date_does_nothing() {
    assert_eq!(upgrade_plan("abc123", Some("abc123"), false).unwrap(), Vec::<Step>::new());
    assert_eq!(upgrade_plan("abc123", Some("abc123"), true).unwrap(), Vec::<Step>::new());
}

#[test]
fn upgrade_behind_clones_then_builds() {
    assert_eq!(upgrade_plan("abc123", Some("def456"), false).unwrap(), vec![Step::Clone, Step::Build]);
    assert_eq!(
        upgrade_plan("abc123", Some("def456"), true).unwrap(),
        vec![Step::Clone, Step::Build, Step::ForgetOldEntry]
    );
}

#[test]
fn upgrade_without_remote_answer_fails() {
    match upgrade_plan("abc123", None, false) {
        Err(GitpkgError::Git(m)) => assert_eq!(m, "Failed to get latest commit hash from remote"),
        other => panic!("unexpected {:?}", other),
    }
}

#[test]
fn change_branch_missing_ref_removes_nothing() {
    match change_branch_plan(false, "dev") {
        Err(GitpkgError::Git(m)) => assert_eq!(m, "Branch or tag 'dev' does not exist on remote"),
        other => panic!("unexpected {:?}", other),
    }
    assert_eq!(change_branch_plan(true, "dev").unwrap(), vec![Step::RemoveLinks, Step::Clone, Step::Build]);
}
