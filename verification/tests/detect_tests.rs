use gitpkg::json::{json_as_str, json_get, parse_json, Json};
use gitpkg::detect::package_json_from;
use gitpkg::detect::{electron_build_scripts, has_build_script, node_bin_entry, parse_package_json};
use gitpkg::install::{toolchain_plan, Toolchain};
use gitpkg::detect::{
    build_marker, build_system_packages, detect_build_system, detect_electron,
    detect_js_package_manager, is_shell_shebang, mime_is_python, DirEntry, DirSnapshot,
    PackageJson,
};

fn pj(deps: &[&str], dev: &[&str], pm: Option<&str>) -> Option<PackageJson> {
    Some(PackageJson {
        dependencies: Some(deps.iter().map(|s| s.to_string()).collect()),
        dev_dependencies: Some(dev.iter().map(|s| s.to_string()).collect()),
        package_manager: pm.map(|s| s.to_string()),
        scripts: Vec::new(),
        bin: None,
        bins: Vec::new(),
        main: None,
    })
}

fn file(name: &str) -> DirEntry {
    DirEntry {
        name: name.to_string(),
        is_file: true,
        is_dir: false,
        is_python: false,
        holds_python_file: false,
        head: None,
    }
}

fn snap(present: &[&str], entries: Vec<DirEntry>) -> DirSnapshot {
    DirSnapshot {
        present: present.iter().map(|s| s.to_string()).collect(),
        package_json: None,
        entries,
    }
}

#[test]
fn system_packages() {
    assert_eq!(build_system_packages("cargo", "apt"), Some("rustc"));
    assert_eq!(build_system_packages("go", "pacman"), Some("go"));
    assert_eq!(build_system_packages("go", "dnf"), Some("golang"));
    assert_eq!(build_system_packages("make", "apt"), Some("build-essential"));
    assert_eq!(build_system_packages("cmake", "pacman"), Some("base-devel"));
    assert_eq!(build_system_packages("meson", "apk"), Some("build-base"));
    assert_eq!(build_system_packages("ninja", "nix-env"), Some("gcc"));
    assert_eq!(build_system_packages("mason", "zypper"), Some("gcc gcc-c++ make"));
    assert_eq!(build_system_packages("electron", "yum"), Some("nodejs npm"));
    assert_eq!(build_system_packages("gradle", "apt"), Some("gradle"));
    assert_eq!(build_system_packages("python", "apt"), Some("python"));
    assert_eq!(build_system_packages("just", "apk"), Some("just"));
    assert_eq!(build_system_packages("rake", "dnf"), Some("ruby"));
    assert_eq!(build_system_packages("sh", "apt"), None);
    assert_eq!(build_system_packages("cargo", "brew"), None);
}

#[test]
fn javascript_projects() {
    assert!(detect_electron(&pj(&["electron"], &[], None)));
    assert!(detect_electron(&pj(&[], &["react", "electron"], None)));
    assert!(!detect_electron(&pj(&["react"], &[], None)));
    assert!(!detect_electron(&None));
    assert_eq!(detect_js_package_manager(&pj(&[], &[], Some("pnpm@9")), false, true), "pnpm");
    assert_eq!(detect_js_package_manager(&pj(&[], &[], Some("yarn@4")), true, false), "yarn");
    assert_eq!(detect_js_package_manager(&pj(&[], &[], Some("npm@10")), true, true), "npm");
    assert_eq!(detect_js_package_manager(&pj(&[], &[], Some("bun@1")), false, true), "yarn");
    assert_eq!(detect_js_package_manager(&None, true, true), "pnpm");
    assert_eq!(detect_js_package_manager(&None, false, false), "npm");
}

#[test]
fn build_system_detection() {
    assert_eq!(build_marker(0), ("Makefile", "make"));
    assert_eq!(build_marker(16), ("Rakefile", "rake"));
    assert_eq!(detect_build_system(&snap(&["Cargo.toml", "Makefile"], vec![])), Some("make"));
    assert_eq!(detect_build_system(&snap(&["go.mod"], vec![])), Some("go"));
    let mut s = snap(&["package.json", "yarn.lock"], vec![]);
    assert_eq!(detect_build_system(&s), Some("yarn"));
    s.package_json = pj(&[], &["electron"], None);
    assert_eq!(detect_build_system(&s), Some("electron"));
    let mut py = file("main.py");
    py.is_python = true;
    assert_eq!(detect_build_system(&snap(&[], vec![py.clone()])), Some("python"));
    let mut hidden = py.clone();
    hidden.name = ".hidden.py".to_string();
    assert_eq!(detect_build_system(&snap(&[], vec![hidden])), None);
    let mut dir = file("src");
    dir.is_file = false;
    dir.is_dir = true;
    dir.holds_python_file = true;
    assert_eq!(detect_build_system(&snap(&[], vec![dir.clone()])), Some("python"));
    dir.name = "venv".to_string();
    assert_eq!(detect_build_system(&snap(&[], vec![dir])), None);
    assert_eq!(detect_build_system(&snap(&[], vec![file("install.sh")])), Some("sh"));
    assert_eq!(detect_build_system(&snap(&[], vec![file(".x.sh")])), None);
    let mut script = file("run");
    script.head = Some("#!/usr/bin/env bash\necho hi".to_string());
    assert_eq!(detect_build_system(&snap(&[], vec![script.clone()])), Some("sh"));
    script.name = "run.txt".to_string();
    assert_eq!(detect_build_system(&snap(&[], vec![script])), None);
    assert_eq!(detect_build_system(&snap(&[], vec![file("README")])), None);
}

#[test]
fn shebangs_and_mime() {
    assert!(is_shell_shebang("#!/bin/sh\n"));
    assert!(is_shell_shebang("#!/usr/bin/env sh"));
    assert!(is_shell_shebang("#!/bin/zsh"));
    assert!(!is_shell_shebang("#!/usr/bin/python3"));
    assert!(!is_shell_shebang("# /bin/sh"));
    assert!(mime_is_python("text/x-python"));
    assert!(mime_is_python("text/x-script.python\n"));
    assert!(!mime_is_python("text/plain"));
}

fn programs(names: &[&str]) -> Vec<String> {
    names.iter().map(|n| n.to_string()).collect()
}

fn plan_packages(t: Toolchain) -> Option<Vec<String>> {
    match t {
        Toolchain::Install(v) => Some(v),
        _ => None,
    }
}

#[test]
fn toolchain_python_needs_an_interpreter() {
    assert!(matches!(toolchain_plan("python", "apt", &programs(&["python"])), Toolchain::Present));
    assert_eq!(
        plan_packages(toolchain_plan("python", "apt", &programs(&[]))),
        Some(vec!["python3".to_string()])
    );
}

#[test]
fn toolchain_installs_mapped_packages_when_probe_missing() {
    assert_eq!(
        plan_packages(toolchain_plan("cmake", "dnf", &programs(&["python3"]))),
        Some(vec!["gcc".to_string(), "gcc-c++".to_string(), "make".to_string()])
    );
    assert_eq!(
        plan_packages(toolchain_plan("yarn", "pacman", &programs(&[]))),
        Some(vec!["nodejs".to_string(), "npm".to_string()])
    );
    assert!(matches!(toolchain_plan("yarn", "pacman", &programs(&["node"])), Toolchain::Present));
    assert!(matches!(toolchain_plan("cargo", "apk", &programs(&["cargo"])), Toolchain::Present));
}

#[test]
fn toolchain_unmapped() {
    assert!(matches!(toolchain_plan("sh", "apt", &programs(&[])), Toolchain::Unmapped));
    assert!(matches!(toolchain_plan("cargo", "brew", &programs(&[])), Toolchain::Unmapped));
}

#[test]
fn package_json_is_read() {
    let text = r#"{
        "name": "x",
        "main": "main.js",
        "packageManager": "pnpm@8.0.0",
        "dependencies": {"react": "^18", "electron": "^30"},
        "devDependencies": {},
        "scripts": {"build:web": "vite build", "build": "", "test": 3},
        "bin": {"x": "cli.js", "y": 1}
    }"#;
    let pj = parse_package_json(text).expect("valid JSON");
    assert_eq!(pj.dependencies, Some(vec!["electron".to_string(), "react".to_string()]));
    assert_eq!(pj.dev_dependencies, Some(vec![]));
    assert_eq!(pj.package_manager.as_deref(), Some("pnpm@8.0.0"));
    assert_eq!(pj.main.as_deref(), Some("main.js"));
    assert_eq!(pj.bin, None);
    assert!(!has_build_script(&pj));
    assert_eq!(electron_build_scripts(&pj), vec!["build:web", "build"]);
    assert_eq!(node_bin_entry(&pj, "x").as_deref(), Some("cli.js"));
    assert_eq!(node_bin_entry(&pj, "y"), None);
    assert_eq!(node_bin_entry(&pj, "z"), None);
    let js = Some(pj);
    assert!(detect_electron(&js));
    assert_eq!(detect_js_package_manager(&js, false, true), "pnpm");
}

#[test]
fn package_json_bin_string_and_bad_text() {
    let pj = parse_package_json(r#"{"bin": "bin/tool", "scripts": {"build": "tsc"}}"#).unwrap();
    assert_eq!(node_bin_entry(&pj, "anything").as_deref(), Some("bin/tool"));
    assert!(has_build_script(&pj));
    assert_eq!(pj.dependencies, None);
    assert!(parse_package_json("not json").is_none());
    assert!(parse_package_json("[1, 2]").map(|p| p.main.is_none()).unwrap_or(false));
}

#[test]
fn json_values_are_read_whole() {
    let j = parse_json(r#"{"b": [1, 2.5, null, true], "a": {"x": "y"}}"#).expect("valid JSON");
    match &j {
        Json::Object(entries) => {
            // serde_json's map keeps keys in order.
            assert_eq!(entries.len(), 2);
            assert_eq!(entries[0].0, "a");
            assert_eq!(entries[1].0, "b");
            match &entries[1].1 {
                Json::Array(items) => {
                    assert_eq!(items.len(), 4);
                    assert!(matches!(&items[0], Json::Number(n) if n == "1"));
                    assert!(matches!(&items[1], Json::Number(n) if n == "2.5"));
                    assert!(matches!(items[2], Json::Null));
                    assert!(matches!(items[3], Json::Bool(true)));
                }
                _ => panic!("array expected"),
            }
        }
        _ => panic!("object expected"),
    }
    let a = json_get(&j, "a").expect("key a");
    assert_eq!(json_get(a, "x").and_then(json_as_str).as_deref(), Some("y"));
    assert!(json_get(&j, "missing").is_none());
    assert!(json_get(a, "x").map(|x| json_get(x, "y").is_none()).unwrap_or(false));
    assert!(parse_json("{").is_none());
    let pj = package_json_from(&j);
    assert_eq!(pj.dependencies, None);
    assert!(pj.scripts.is_empty());
}
