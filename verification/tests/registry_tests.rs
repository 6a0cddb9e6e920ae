use gitpkg::commands::locate_package;
use gitpkg::error::GitpkgError;
use gitpkg::pkglist::PackageList;
use gitpkg::registry::{
    add_to_package_list, find_matching_packages, find_package_by_key, package_key_matches,
    parse_selection, remove_from_package_list, remove_old_supplier_entry, resolve_package,
    Resolved,
};

fn found(k: &str, s: &str, p: &str) -> (String, String, String) {
    (k.to_string(), s.to_string(), p.to_string())
}

#[test]
fn list_text_is_read_and_written() {
    let text = "zed/z = /p/z\r\n  alice/a=/p/a  \nbroken line\nx = y = z\n\ncodeberg_alice/a = /p/ca\nalice/a = /p/a2\n";
    let list = PackageList::parse(text);
    assert_eq!(list.len(), 3);
    assert_eq!(list.get("alice/a"), Some("/p/a2".to_string()));
    assert_eq!(list.get("zed/z"), Some("/p/z".to_string()));
    assert_eq!(list.get("codeberg_alice/a"), Some("/p/ca".to_string()));
    assert_eq!(list.get("broken line"), None);
    assert_eq!(
        list.render(),
        "alice/a = /p/a2\ncodeberg_alice/a = /p/ca\nzed/z = /p/z\n"
    );
    assert_eq!(list.keys(), vec!["alice/a", "codeberg_alice/a", "zed/z"]);
    // Reading back what was written gives the same list.
    let again = PackageList::parse(&list.render());
    assert_eq!(again.render(), list.render());
    assert_eq!(PackageList::parse("").len(), 0);
    assert_eq!(PackageList::new().render(), "");
}

#[test]
fn list_updates() {
    let mut list = PackageList::new();
    add_to_package_list(&mut list, "alice", "a", "/p/a", "github.com");
    add_to_package_list(&mut list, "alice", "a", "/p/ca", "codeberg.org");
    add_to_package_list(&mut list, "bob", "b", "/p/b", "github.com");
    add_to_package_list(&mut list, "alice", "a", "/p/a2", "github.com");
    assert_eq!(list.len(), 3);
    assert_eq!(list.get("alice/a"), Some("/p/a2".to_string()));
    remove_old_supplier_entry(&mut list, "alice", "a", "codeberg.org");
    assert_eq!(list.get("codeberg_alice/a"), None);
    remove_from_package_list(&mut list, "nobody/x");
    assert_eq!(list.len(), 2);
    remove_from_package_list(&mut list, "bob/b");
    assert_eq!(list.render(), "alice/a = /p/a2\n");
    assert_eq!(list.index_of("alice/a"), 0);
    assert_eq!(list.index_of("bob/b"), 1);
    assert_eq!(list.key_at(0), "alice/a");
    assert_eq!(list.path_at(0), "/p/a2");
}

#[test]
fn key_matching() {
    assert!(package_key_matches("alice/a", "alice", "a"));
    assert!(package_key_matches("codeberg_alice/a", "alice", "a"));
    assert!(package_key_matches("x_y_alice/a", "alice", "a"));
    assert!(!package_key_matches("alice/a/b", "alice", "a"));
    assert!(!package_key_matches("alice", "alice", ""));
    assert!(!package_key_matches("bob/a", "alice", "a"));
}

fn sample() -> (PackageList, Vec<Option<String>>) {
    let list = PackageList::parse(
        "alice/a = /p/a\ncodeberg_alice/a = /p/ca\nbob/b = /p/b\ngitlab_carol/c = /p/c\n",
    );
    // In key order: alice/a, bob/b, codeberg_alice/a, gitlab_carol/c.
    let suppliers = vec![
        Some("github.com".to_string()),
        None,
        Some("codeberg.org".to_string()),
        Some("gitlab.com".to_string()),
    ];
    (list, suppliers)
}

#[test]
fn finding_packages() {
    let (list, sup) = sample();
    assert_eq!(
        find_matching_packages(&list, &sup, "alice", "a"),
        vec![
            found("alice/a", "github.com", "/p/a"),
            found("codeberg_alice/a", "codeberg.org", "/p/ca")
        ]
    );
    // bob's record could not be read, so bob is not found.
    assert!(find_matching_packages(&list, &sup, "bob", "b").is_empty());
    assert_eq!(
        find_package_by_key(&list, &sup, "codeberg_alice/a"),
        Some(found("codeberg_alice/a", "codeberg.org", "/p/ca"))
    );
    assert_eq!(
        find_package_by_key(&list, &sup, "carol/c"),
        Some(found("gitlab_carol/c", "gitlab.com", "/p/c"))
    );
    // Two packages match alice/a's user and repo under another prefix.
    assert_eq!(find_package_by_key(&list, &sup, "x_alice/a"), None);
    assert_eq!(find_package_by_key(&list, &sup, "bob/b"), None);
}

#[test]
fn resolving_packages() {
    let (list, sup) = sample();
    match resolve_package(&list, &sup, "alice/a") {
        Ok(Resolved::Package(f)) => assert_eq!(f, found("alice/a", "github.com", "/p/a")),
        _ => panic!("expected the exact key"),
    }
    match resolve_package(&list, &sup, "codeberg.org_alice/a") {
        Ok(Resolved::Package(f)) => {
            assert_eq!(f, found("codeberg_alice/a", "codeberg.org", "/p/ca"))
        }
        _ => panic!("expected the supplier's package"),
    }
    match resolve_package(&list, &sup, "nothere_alice/a") {
        Ok(Resolved::Package(f)) => assert_eq!(f, found("alice/a", "github.com", "/p/a")),
        _ => panic!("expected the first match"),
    }
    match resolve_package(&list, &sup, "x/alice") {
        Err(GitpkgError::PackageNotFound(p)) => assert_eq!(p, "x/alice"),
        _ => panic!("expected not found"),
    }
    let list2 = PackageList::parse("alice/a = /p/a\ncodeberg_alice/a = /p/ca\n");
    let sup2 = vec![Some("github.com".to_string()), Some("codeberg.org".to_string())];
    match resolve_package(&list2, &sup2, "other_alice/a") {
        Ok(Resolved::Package(f)) => assert_eq!(f, found("alice/a", "github.com", "/p/a")),
        _ => panic!("expected the first match"),
    }
    let sup3 = vec![None, Some("codeberg.org".to_string())];
    match resolve_package(&list2, &sup3, "alice/a") {
        Ok(Resolved::Package(f)) => {
            assert_eq!(f, found("codeberg_alice/a", "codeberg.org", "/p/ca"))
        }
        _ => panic!("expected the only readable match"),
    }
    let list3 = PackageList::parse("x_alice/a = /p/x\ny_alice/a = /p/y\n");
    let sup4 = vec![Some("x.com".to_string()), Some("y.com".to_string())];
    match resolve_package(&list3, &sup4, "alice/a") {
        Ok(Resolved::Ask(m)) => assert_eq!(m.len(), 2),
        _ => panic!("expected a choice"),
    }
}

#[test]
fn selection_input() {
    assert_eq!(parse_selection("1", 3), Some(0));
    assert_eq!(parse_selection(" 3\n", 3), Some(2));
    assert_eq!(parse_selection("+2", 3), Some(1));
    assert_eq!(parse_selection("0", 3), None);
    assert_eq!(parse_selection("4", 3), None);
    assert_eq!(parse_selection("-1", 3), None);
    assert_eq!(parse_selection("+", 3), None);
    assert_eq!(parse_selection("", 3), None);
    assert_eq!(parse_selection("1 2", 3), None);
    assert_eq!(parse_selection("99999999999999999999999", 3), None);
    assert_eq!(parse_selection("0002", 3), Some(1));
}

fn installed() -> (PackageList, Vec<Option<String>>) {
    let list = PackageList::parse(
        "alice/a = /p/a\ncodeberg.org_alice/a = /p/ca\nbob/b = /p/b\ncarol/c = /p/c\n",
    );
    // Entries in key order: alice/a, bob/b, carol/c, codeberg.org_alice/a.
    let suppliers = vec![
        Some("github.com".to_string()),
        Some("github.com".to_string()),
        None,
        Some("codeberg.org".to_string()),
    ];
    (list, suppliers)
}

#[test]
fn locate_by_key_and_by_name() {
    let (list, sups) = installed();
    match locate_package(&list, &sups, "codeberg.org_alice/a", None) {
        Ok(Some(Resolved::Package(f))) => assert_eq!(f, found("codeberg.org_alice/a", "codeberg.org", "/p/ca")),
        _ => panic!("key not located"),
    }
    assert_eq!(
        locate_package(&list, &sups, "gitlab.com_zed/z", None).err(),
        Some(GitpkgError::PackageNotFound("gitlab.com_zed/z".to_string()))
    );
    match locate_package(&list, &sups, "bob/b", None) {
        Ok(Some(Resolved::Package(f))) => assert_eq!(f, found("bob/b", "github.com", "/p/b")),
        _ => panic!("single match not located"),
    }
    match locate_package(&list, &sups, "alice/a", None) {
        Ok(Some(Resolved::Ask(v))) => assert_eq!(v.len(), 2),
        _ => panic!("several matches must be offered"),
    }
    match locate_package(&list, &sups, "alice/a", Some("codeberg.org")) {
        Ok(Some(Resolved::Package(f))) => assert_eq!(f.2, "/p/ca"),
        _ => panic!("supplier not honoured"),
    }
    assert_eq!(
        locate_package(&list, &sups, "alice/a", Some("gitlab.com")).err(),
        Some(GitpkgError::PackageNotFound("alice/a from gitlab.com".to_string()))
    );
    // A package whose record cannot be read does not count as installed.
    assert!(matches!(locate_package(&list, &sups, "carol/c", None), Ok(None)));
    assert!(matches!(locate_package(&list, &sups, "dave/d", None), Ok(None)));
}

#[test]
fn added_package_is_found_by_key() {
    let mut list = PackageList::parse("bob/b = /p/b\n");
    add_to_package_list(&mut list, "alice", "a", "/p/ca", "codeberg.org");
    let key = "codeberg_alice/a";
    let mut sups: Vec<Option<String>> = vec![None; list.len()];
    sups[list.index_of(key)] = Some("codeberg.org".to_string());
    assert_eq!(
        find_package_by_key(&list, &sups, key),
        Some(found(key, "codeberg.org", "/p/ca"))
    );
}

#[test]
fn migration_moves_the_list_entry() {
    let mut list = PackageList::parse("codeberg_alice/a = /p/a\nbob/b = /p/b\n");
    add_to_package_list(&mut list, "alice2", "a", "/p/a", "github.com");
    remove_old_supplier_entry(&mut list, "alice", "a", "codeberg.org");
    assert_eq!(list.get("alice2/a"), Some("/p/a".to_string()));
    assert_eq!(list.get("codeberg_alice/a"), None);
    assert_eq!(list.get("bob/b"), Some("/p/b".to_string()));
    assert_eq!(list.len(), 2);
}
