use gitpkg::commands::{
    check_branch_flag, clean_target, falls_back_to_old_account, is_self_migration,
    migration_candidates, replace_path_segment, resolve_new_username, rewrite_remote_url,
    select_match, upgrade_target,
};
use gitpkg::config::{config_path, default_superuser, Config};
use gitpkg::error::GitpkgError;
use gitpkg::git::{
    branch_listed, clone_args, ls_remote_ref, parse_commit_hash, parse_progress,
    parse_remote_commit, progress_line,
};
use gitpkg::install::{
    data_file_destinations, desktop_entry_name, desktop_symlink_name, keeps_source_dir,
    rewrite_desktop_exec, symlink_dir, toolchain_probe, wrapper_script,
};
use gitpkg::pkglist::PackageList;
use gitpkg::registry::Resolved;

fn cfg(pairs: &[(&str, &str)]) -> Config {
    Config::from_file(
        false,
        false,
        false,
        false,
        false,
        "auto".to_string(),
        Some(String::new()),
        pairs.iter().map(|(a, b)| (a.to_string(), b.to_string())).collect(),
    )
}

fn found(k: &str, s: &str, p: &str) -> (String, String, String) {
    (k.to_string(), s.to_string(), p.to_string())
}

#[test]
fn configuration() {
    let c = cfg(&[("codeberg.org", "alice"), ("github.com", "bob")]);
    assert_eq!(c.java_home, None);
    assert_eq!(c.superuser, "auto");
    assert_eq!(c.forge_username("github.com"), Some("bob".to_string()));
    assert_eq!(c.forge_username("gitlab.com"), None);
    let d = Config::default();
    assert_eq!(d.superuser, "auto");
    assert!(!d.system && !d.ssh && d.forge_usernames.is_empty());
    assert_eq!(default_superuser(), "auto");
    assert_eq!(
        config_path(Some("/x"), Some("/h")),
        Some("/x/gitpkg/config.toml".to_string())
    );
    assert_eq!(
        config_path(Some(""), Some("/h")),
        Some("/h/.config/gitpkg/config.toml".to_string())
    );
    assert_eq!(config_path(None, None), None);
    let j = Config::from_file(true, false, false, true, false, "doas".into(), Some("/jdk".into()), vec![]);
    assert_eq!(j.java_home.as_deref(), Some("/jdk"));
    assert!(j.system && j.verbose);
}

#[test]
fn migration() {
    assert_eq!(
        rewrite_remote_url("git@codeberg.org:a/r.git", "github.com", "b", "r"),
        "git@github.com:b/r.git"
    );
    assert_eq!(
        rewrite_remote_url("", "github.com", "b", "r"),
        "https://github.com/b/r.git"
    );
    assert_eq!(
        replace_path_segment("/h/.local/share/gitpkg/codeberg_a/r/bin", "codeberg_a", "b"),
        "/h/.local/share/gitpkg/b/r/bin"
    );
    assert_eq!(replace_path_segment("/usr/bin/r", "a/r", "b/r"), "/usr/bin/r");
    assert_eq!(replace_path_segment("x", "x", "y"), "y");
    assert_eq!(replace_path_segment("", "", "z"), "z");
    let c = cfg(&[("codeberg.org", "alice"), ("github.com", "bob")]);
    assert_eq!(
        resolve_new_username(Some("zed"), &c, "github.com", "codeberg.org"),
        Some("zed".to_string())
    );
    assert_eq!(
        resolve_new_username(None, &c, "github.com", "codeberg.org"),
        Some("bob".to_string())
    );
    assert_eq!(
        resolve_new_username(None, &c, "gitlab.com", "codeberg.org"),
        Some("alice".to_string())
    );
    assert_eq!(resolve_new_username(None, &c, "gitlab.com", "sr.ht"), None);
    let list = PackageList::parse(
        "codeberg_alice/a = /p/a\ncodeberg_carl/c = /p/c\nbob/b = /p/b\nx_y/z = /p/z\n",
    );
    // In key order: bob/b, codeberg_alice/a, codeberg_carl/c, x_y/z.
    let records = vec![
        Some(("github.com".to_string(), "bob".to_string())),
        Some(("codeberg.org".to_string(), "alice".to_string())),
        Some(("codeberg.org".to_string(), "carl".to_string())),
        None,
    ];
    assert_eq!(
        migration_candidates(&list, &records, &c, "github.com"),
        vec!["codeberg_alice/a".to_string()]
    );
    assert_eq!(
        migration_candidates(&list, &records, &c, "gitlab.com"),
        vec!["bob/b".to_string(), "codeberg_alice/a".to_string()]
    );
}

#[test]
fn choosing_matches() {
    let m = vec![
        found("alice/a", "github.com", "/p/a"),
        found("codeberg_alice/a", "codeberg.org", "/p/ca"),
    ];
    match select_match(m.clone(), "alice", "a", Some("codeberg.org")) {
        Ok(Resolved::Package(f)) => assert_eq!(f.2, "/p/ca"),
        _ => panic!("expected codeberg's package"),
    }
    match select_match(m.clone(), "alice", "a", Some("gitlab.com")) {
        Err(GitpkgError::PackageNotFound(msg)) => assert_eq!(msg, "alice/a from gitlab.com"),
        _ => panic!("expected not found"),
    }
    match select_match(m.clone(), "alice", "a", None) {
        Ok(Resolved::Ask(v)) => assert_eq!(v, m),
        _ => panic!("expected a choice"),
    }
    match select_match(vec![m[1].clone()], "alice", "a", Some("gitlab.com")) {
        Ok(Resolved::Package(f)) => assert_eq!(f.1, "codeberg.org"),
        _ => panic!("expected the only match"),
    }
    assert!(is_self_migration("el1lovescomputers", "gitpkg", false, "codeberg.org"));
    assert!(!is_self_migration("el1lovescomputers", "gitpkg", true, "codeberg.org"));
    assert!(!is_self_migration("el1lovescomputers", "gitpkg", false, "github.com"));
    assert!(falls_back_to_old_account("Lalaggi", "gitpkg", false));
    assert!(!falls_back_to_old_account("Lalaggi", "gitpkg", true));
}

#[test]
fn command_line_targets() {
    assert_eq!(upgrade_target(None), None);
    assert_eq!(upgrade_target(Some("all")), None);
    assert_eq!(upgrade_target(Some("self")), Some("Lalaggi/gitpkg".to_string()));
    assert_eq!(upgrade_target(Some("a/b")), Some("a/b".to_string()));
    assert_eq!(clean_target(Some("all")), None);
    assert_eq!(clean_target(Some("self")), Some("el1lovescomputers/gitpkg".to_string()));
    assert_eq!(clean_target(Some("x/y")), Some("x/y".to_string()));
    assert_eq!(check_branch_flag(None), Ok(None));
    assert_eq!(check_branch_flag(Some("dev")), Ok(Some("dev".to_string())));
    assert_eq!(
        check_branch_flag(Some("")),
        Err(GitpkgError::Parse("--branch requires a non-empty branch name".to_string()))
    );
}

#[test]
fn git_answers() {
    assert_eq!(ls_remote_ref(Some("dev")), "refs/heads/dev");
    assert_eq!(ls_remote_ref(None), "HEAD");
    assert_eq!(
        parse_remote_commit(true, "  abc123\tHEAD\n"),
        Some("abc123".to_string())
    );
    assert_eq!(parse_remote_commit(true, " \n"), None);
    assert_eq!(parse_remote_commit(false, "abc HEAD"), None);
    assert_eq!(parse_commit_hash(true, "deadbeef\n"), Some("deadbeef".to_string()));
    assert_eq!(parse_commit_hash(false, "deadbeef\n"), None);
    assert!(branch_listed(true, "abc\trefs/heads/dev\n"));
    assert!(!branch_listed(true, "\n"));
    assert!(!branch_listed(false, "abc"));
    assert_eq!(
        clone_args("u", "p", Some("dev"), true),
        vec!["clone", "-b", "dev", "--single-branch", "u", "p", "--progress"]
    );
    assert_eq!(clone_args("u", "p", None, false), vec!["clone", "u", "p"]);
}

#[test]
fn clone_progress() {
    assert_eq!(parse_progress("Receiving objects:  45% (9/20)"), Some(45));
    assert_eq!(parse_progress("Resolving deltas: 100% (3/3), done."), Some(100));
    assert_eq!(parse_progress("remote: Counting objects: 7% done"), Some(7));
    assert_eq!(parse_progress("45%"), None);
    assert_eq!(parse_progress("Cloning into 'x'..."), None);
    assert_eq!(parse_progress("big 300%"), None);
    assert_eq!(
        progress_line(45),
        format!("\rCloning repository [{}{}]  45%", "#".repeat(18), " ".repeat(22))
    );
    assert_eq!(
        progress_line(100),
        format!("\rCloning repository [{}] 100%", "#".repeat(40))
    );
    assert_eq!(
        progress_line(0),
        format!("\rCloning repository [{}]   0%", " ".repeat(40))
    );
    assert_eq!(
        progress_line(102),
        format!("\rCloning repository [{}] 102%", "#".repeat(40))
    );
}

#[test]
fn install_outputs() {
    assert!(keeps_source_dir("pnpm"));
    assert!(!keeps_source_dir("cargo"));
    assert_eq!(toolchain_probe("yarn"), "node");
    assert_eq!(toolchain_probe("npm"), "npm");
    assert_eq!(symlink_dir(true, true, Some("/h")), Some("/usr/bin".to_string()));
    assert_eq!(symlink_dir(true, false, Some("/h")), Some("/h/.local/bin".to_string()));
    assert_eq!(symlink_dir(false, true, None), None);
    assert_eq!(
        wrapper_script("app", "/i", "/i/bin/app"),
        "#!/bin/bash\n# Wrapper for app - sets up resource paths\nexport GITPKG_PACKAGE_ROOT=\"/i\"\nexport GRESOURCE_PATH=\"/i/share/app:$GRESOURCE_PATH\"\nexport XDG_DATA_DIRS=\"/i/share:$XDG_DATA_DIRS\"\nexport GSETTINGS_SCHEMA_DIR=\"/i/share/glib-2.0/schemas:$GSETTINGS_SCHEMA_DIR\"\nexec /i/bin/app \"$@\"\n"
    );
    assert_eq!(
        rewrite_desktop_exec("[Desktop Entry]\r\nExec=old %U\nName=App\n", "/bin/app"),
        "[Desktop Entry]\nExec=/bin/app\nName=App"
    );
    assert_eq!(rewrite_desktop_exec("", "/x"), "");
    assert_eq!(desktop_entry_name("alice", "app"), "gitpkg.alice.app.desktop");
    assert_eq!(
        desktop_symlink_name("codeberg_alice/app", "app.desktop"),
        "gitpkg.codeberg_alice_app.app.desktop"
    );
    assert_eq!(data_file_destinations("app.gresource", "app"), vec!["share/app"]);
    assert_eq!(
        data_file_destinations("org.app.gschema.xml", "app"),
        vec!["share/glib-2.0/schemas"]
    );
    assert_eq!(data_file_destinations("app.desktop", "app"), vec!["share/applications"]);
    assert!(data_file_destinations("readme.md", "app").is_empty());
}
