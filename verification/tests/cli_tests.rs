use gitpkg::cli::{
    build_git_url_with, detect_package_manager, install_command, normalize_supplier,
    parse_remote_url, remove_command, resolve_self_alias, resolve_superuser,
    resolve_supplier_shortname, superuser, superuser_auth, Superuser, SuperuserSetting,
};
use gitpkg::error::GitpkgError;

fn names(v: &[&str]) -> Vec<String> {
    v.iter().map(|s| s.to_string()).collect()
}

#[test]
fn superuser_parsing() {
    let none: Vec<String> = vec![];
    assert_eq!(Superuser::from_str("sudo", &none), Some(Superuser::Sudo));
    assert_eq!(Superuser::from_str("  PKEXEC\n", &none), Some(Superuser::Pkexec));
    assert_eq!(Superuser::from_str("Doas", &none), Some(Superuser::Doas));
    assert_eq!(Superuser::from_str("su", &none), None);
    assert_eq!(Superuser::from_str("auto", &none), None);
    assert_eq!(
        Superuser::from_str("auto", &names(&["doas", "pkexec"])),
        Some(Superuser::Pkexec)
    );
    for su in [Superuser::Sudo, Superuser::Pkexec, Superuser::Doas] {
        assert_eq!(Superuser::from_str(su.program(), &none), Some(su));
    }
}

#[test]
fn superuser_detection_and_resolution() {
    assert_eq!(Superuser::detect(&names(&["doas"])), Some(Superuser::Doas));
    assert_eq!(Superuser::detect(&names(&["doas", "sudo"])), Some(Superuser::Sudo));
    assert_eq!(Superuser::detect(&names(&["make"])), None);
    assert_eq!(resolve_superuser("doas", &names(&["sudo"])), (Superuser::Doas, true));
    assert_eq!(resolve_superuser(" Auto ", &names(&["pkexec"])), (Superuser::Pkexec, true));
    assert_eq!(resolve_superuser("auto", &[]), (Superuser::Sudo, true));
    assert_eq!(resolve_superuser("", &names(&["doas"])), (Superuser::Doas, false));
    assert_eq!(resolve_superuser("root", &[]), (Superuser::Sudo, false));
    assert_eq!(superuser(None), Superuser::Sudo);
    assert_eq!(superuser(Some(Superuser::Doas)), Superuser::Doas);
}

#[test]
fn superuser_commands() {
    assert_eq!(Superuser::Sudo.auth_args(), names(&["-v"]));
    assert_eq!(Superuser::Pkexec.auth_args(), names(&["true"]));
    assert_eq!(Superuser::Doas.auth_args(), names(&["-n", "true"]));
    assert_eq!(
        Superuser::Doas.command(&["rm", "-f", "/usr/bin/x"]),
        names(&["doas", "rm", "-f", "/usr/bin/x"])
    );
    assert_eq!(superuser_auth(None), names(&["sudo", "-v"]));
    assert_eq!(superuser_auth(Some(Superuser::Doas)), names(&["doas", "-n", "true"]));
}

#[test]
fn aliases_and_shortnames() {
    assert_eq!(resolve_self_alias("self"), "el1lovescomputers/gitpkg");
    assert_eq!(resolve_self_alias("selfie/x"), "selfie/x");
    for (short, domain) in [
        ("gh", "github.com"),
        ("github", "github.com"),
        ("gl", "gitlab.com"),
        ("gitlab", "gitlab.com"),
        ("cb", "codeberg.org"),
        ("codeberg", "codeberg.org"),
        ("glg", "gitlab.gnome.org"),
        ("gnome", "gitlab.gnome.org"),
        ("gnome.gitlab", "gitlab.gnome.org"),
        ("gnome-gitlab", "gitlab.gnome.org"),
        ("gitlab.gnome", "gitlab.gnome.org"),
        ("gitlab-gnome", "gitlab.gnome.org"),
        ("sr.ht", "sr.ht"),
    ] {
        assert_eq!(resolve_supplier_shortname(short), domain);
        // Expanding twice is expanding once.
        assert_eq!(resolve_supplier_shortname(&resolve_supplier_shortname(short)), domain);
    }
}

#[test]
fn supplier_normalization() {
    assert_eq!(normalize_supplier("github.com"), "github");
    assert_eq!(normalize_supplier("codeberg.org"), "codeberg");
    assert_eq!(normalize_supplier("gitlab.gnome.org"), "gitlab.gnome");
    assert_eq!(normalize_supplier("x.com.com"), "x");
    assert_eq!(normalize_supplier("x.com.org"), "x.com");
    assert_eq!(normalize_supplier("a.dev.io"), "a");
    assert_eq!(normalize_supplier("plain"), "plain");
}

#[test]
fn clone_urls() {
    assert_eq!(
        build_git_url_with("alice", "repo", None, false, None),
        "https://github.com/alice/repo.git"
    );
    assert_eq!(
        build_git_url_with("alice", "repo.git", Some("codeberg.org"), false, None),
        "https://codeberg.org/alice/repo.git"
    );
    assert_eq!(
        build_git_url_with("alice", "repo", Some("gitlab.com"), true, None),
        "git@gitlab.com:alice/repo.git"
    );
    assert_eq!(
        build_git_url_with("alice", "repo", None, true, Some("")),
        "git@github.com:alice/repo.git"
    );
    assert_eq!(
        build_git_url_with("alice", "repo", None, false, Some("git@h:x/y.git")),
        "git@h:x/y.git"
    );
    assert_eq!(parse_remote_url(true, "  git@h:x/y.git\n"), Some("git@h:x/y.git".to_string()));
    assert_eq!(parse_remote_url(true, " \n"), None);
    assert_eq!(parse_remote_url(false, "url"), None);
}

#[test]
fn package_managers() {
    assert_eq!(detect_package_manager(&names(&["zypper", "dnf"])), Some("dnf"));
    assert_eq!(detect_package_manager(&names(&["nix-env"])), Some("nix-env"));
    assert_eq!(detect_package_manager(&names(&["brew"])), None);
    assert_eq!(
        install_command("apt", "gcc"),
        Some(names(&["apt", "install", "-y", "gcc"]))
    );
    assert_eq!(
        install_command("pacman", "go"),
        Some(names(&["pacman", "-Sy", "--noconfirm", "go"]))
    );
    assert_eq!(install_command("apk", "x"), Some(names(&["apk", "add", "x"])));
    assert_eq!(install_command("nix-env", "x"), Some(names(&["nix-env", "-iA", "x"])));
    assert_eq!(install_command("brew", "x"), None);
    assert_eq!(
        remove_command("pacman", "go"),
        Some(names(&["pacman", "-R", "--noconfirm", "go"]))
    );
    assert_eq!(remove_command("apk", "x"), Some(names(&["apk", "del", "x"])));
    assert_eq!(remove_command("nix-env", "x"), Some(names(&["nix-env", "-e", "x"])));
    assert_eq!(remove_command("port", "x"), None);
}

#[test]
fn error_messages() {
    assert_eq!(GitpkgError::Io("disk full".to_string()).message(), "disk full");
    assert_eq!(
        GitpkgError::HomeNotFound.message(),
        "HOME environment variable is not set"
    );
    assert_eq!(
        GitpkgError::PackageNotFound("a/b".to_string()).message(),
        "Package a/b is not installed"
    );
    assert_eq!(GitpkgError::BuildFailed("b".to_string()).message(), "Build failed for b");
    assert_eq!(GitpkgError::CloneFailed.message(), "Git clone failed");
    assert_eq!(GitpkgError::Git("bad".to_string()).message(), "Git error: bad");
    assert_eq!(GitpkgError::Parse("oops".to_string()).message(), "oops");
    assert_eq!(
        GitpkgError::PackageManagerNotFound.message(),
        "No package manager detected"
    );
    assert_eq!(GitpkgError::Cancelled.message(), "Operation cancelled");
}

#[test]
fn superuser_is_set_once_per_run() {
    let mut s = SuperuserSetting::new();
    assert_eq!(s.get(), Superuser::Sudo);
    assert!(s.set("doas", &names(&["sudo"])));
    assert_eq!(s.get(), Superuser::Doas);
    assert!(!s.set("bogus", &names(&["pkexec"])));
    assert_eq!(s.get(), Superuser::Doas);
    let mut t = SuperuserSetting::new();
    assert!(t.set("AUTO", &names(&["pkexec", "doas"])));
    assert_eq!(t.get(), Superuser::Pkexec);
}
