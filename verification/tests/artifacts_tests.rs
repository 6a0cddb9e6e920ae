use gitpkg::artifacts::{
    add_python_shebang, cargo_bin_names, cargo_config_files, cmake_targets, console_script_names,
    uses_vendor_dir,
    executable_search_dirs, executable_search_names, installed_executable_names,
    is_candidate_executable, is_searched_dir, main_python_script, makefile_targets,
    meson_targets, pick_built_executable, preferred_executable, python_marker_files, python_plan,
    python_wrapper_text, script_command_name, search_build_file, ScriptChoice,
};
use gitpkg::detect::DirEntry;

fn strs(v: &[&str]) -> Vec<String> {
    v.iter().map(|s| s.to_string()).collect()
}

#[test]
fn makefile_names_rules_and_outputs() {
    let text = "CC=gcc\nall: tool\n.PHONY: clean\ntool: main.o\n\tgcc -o  tool main.o\n%.o: %.c\nclean:\n$(OUT): x\ninstall:\n";
    assert_eq!(
        makefile_targets(text, "MyTool"),
        strs(&["tool", "tool", "MyTool", "mytool", "a.out", "main"])
    );
    assert_eq!(makefile_targets("", "X"), strs(&["X", "x", "a.out", "main"]));
}

#[test]
fn meson_names_quoted() {
    let text = "project('p')\nexecutable('app', 'main.c')\n  exe = executable(\"other\", src)\nexecutable(noquote)\n";
    assert_eq!(meson_targets(text, "P"), strs(&["app", "other"]));
    assert_eq!(meson_targets("project('p')\n", "Proj"), strs(&["Proj", "proj"]));
}

#[test]
fn cmake_names_trimmed() {
    let text = "add_executable(hello main.c)\nadd_executable( ${NAME} x)\nadd_executable(\"my-app\" y)\n";
    assert_eq!(cmake_targets(text, "R"), strs(&["hello", "NAME", "my-app"]));
    assert_eq!(cmake_targets("project(x)\n", "Rr"), strs(&["Rr", "rr"]));
}

#[test]
fn cargo_names_bins_or_package() {
    let text = "[package]\nname = \"pkg\"\nversion = \"1\"\n\n[dependencies]\nname = \"nope\"\n";
    assert_eq!(cargo_bin_names(text), strs(&["pkg"]));
    let text = "[package]\nname = \"pkg\"\n[[bin]]\nname = \"one\"\npath = \"x\"\n[[bin]]\nname = \"two\"\n";
    assert_eq!(cargo_bin_names(text), strs(&["one", "two"]));
    assert!(cargo_bin_names("").is_empty());
}

#[test]
fn search_names_and_dirs() {
    assert_eq!(search_build_file("meson"), Some(("meson.build".to_string(), true)));
    assert_eq!(search_build_file("make"), Some(("Makefile".to_string(), false)));
    assert_eq!(search_build_file("go"), None);
    assert_eq!(
        executable_search_names("cmake", Some("add_executable(hi a.c)\n"), Some("[package]\nname = \"crate\"\n"), "MyApp"),
        strs(&["hi", "crate", "MyApp", "myapp", "my-app", "a.out", "main"])
    );
    assert_eq!(
        executable_search_names("go", None, None, "x"),
        strs(&["x", "x", "x", "a.out", "main"])
    );
    assert_eq!(
        executable_search_dirs("/t", &strs(&["/e1", "/e2"])),
        strs(&[
            "/e2", "/e1", "/t", "/t/bin", "/t/build", "/t/out", "/t/target", "/t/target/release",
            "/t/target/debug", "/t/src"
        ])
    );
}

#[test]
fn first_executable_in_search_order() {
    let found = vec![vec![false, false], vec![false, true], vec![true, true]];
    assert_eq!(pick_built_executable(&found), Some((1, 1)));
    assert_eq!(pick_built_executable(&[vec![false], vec![]]), None);
    assert_eq!(pick_built_executable(&[]), None);
}

#[test]
fn whole_directory_search() {
    assert!(is_candidate_executable("tool"));
    assert!(!is_candidate_executable("run.sh"));
    assert!(!is_candidate_executable(".hidden"));
    assert!(!is_candidate_executable("CMakeCache"));
    assert!(is_searched_dir("build"));
    assert!(!is_searched_dir("node_modules"));
    assert!(!is_searched_dir(".git"));
    assert_eq!(preferred_executable(&strs(&["a", "MYAPP", "myapp"]), "MyApp"), Some(1));
    assert_eq!(preferred_executable(&strs(&["a"]), "b"), None);
    assert_eq!(
        installed_executable_names("Tool", &strs(&["x"])),
        strs(&["Tool", "tool", "x"])
    );
}

fn entry(name: &str, is_file: bool, is_python: bool) -> DirEntry {
    DirEntry {
        name: name.to_string(),
        is_file,
        is_dir: !is_file,
        is_python,
        holds_python_file: false,
        head: None,
    }
}

#[test]
fn python_plan_and_wrappers() {
    assert_eq!(python_marker_files().len(), 6);
    let p = python_plan(&strs(&["requirements.txt"]));
    assert!(!p.installs_package && p.has_requirements);
    let p = python_plan(&strs(&["setup.cfg"]));
    assert!(p.installs_package && !p.has_requirements);
    assert_eq!(
        console_script_names(&strs(&["python", "pip3", "mytool", "x.pyc", "activate"])),
        strs(&["mytool", "activate"])
    );
    assert_eq!(
        python_wrapper_text("r", "/i", "/i/venv/bin/t"),
        "#!/bin/bash\n# Autogenerated wrapper for python package r\nexport GITPKG_PACKAGE_ROOT=\"/i\"\nexec \"/i/venv/bin/t\" \"$@\"\n"
    );
    assert_eq!(add_python_shebang("print(1)\n"), "#!/usr/bin/env python3\nprint(1)\n");
    assert_eq!(add_python_shebang("#!/bin/py\n"), "#!/bin/py\n");
    assert_eq!(script_command_name("app.py"), "app");
    assert_eq!(script_command_name("tool"), "tool");
}

#[test]
fn main_python_script_order() {
    let es = vec![
        entry("test_x.py", true, true),
        entry("app.py", true, true),
        entry("main.py", true, true),
        entry("pkg", false, false),
    ];
    let nested = vec![None, None, None, Some("m.py".to_string())];
    assert!(matches!(main_python_script("repo", &es, &nested), Some(ScriptChoice::File(2))));
    let es2 = vec![entry("repo", true, true), entry("main.py", true, true)];
    assert!(matches!(main_python_script("repo", &es2, &[None, None]), Some(ScriptChoice::File(0))));
    let es3 = vec![entry("_p.py", true, true), entry("tool.py", true, true)];
    assert!(matches!(main_python_script("r", &es3, &[None, None]), Some(ScriptChoice::File(1))));
    let es4 = vec![entry("venv", false, false), entry("pkg", false, false)];
    let n4 = vec![Some("a.py".to_string()), Some("b.py".to_string())];
    assert!(matches!(main_python_script("r", &es4, &n4), Some(ScriptChoice::Nested(1))));
    assert!(main_python_script("r", &[], &[]).is_none());
}

#[test]
fn vendored_cargo_config() {
    assert!(uses_vendor_dir("[source.crates-io]\nreplace-with = \"v\"\n[source.v]\n  directory = \"vendor\"\n"));
    assert!(uses_vendor_dir("directory='x'"));
    assert!(!uses_vendor_dir("directory = \"\"\n"));
    assert!(!uses_vendor_dir("[source.v]\nregistry = \"x\"\n"));
    assert!(!uses_vendor_dir("directory"));
    assert_eq!(
        cargo_config_files("/t", None, Some("/h")),
        strs(&["/t/.cargo/config.toml", "/t/.cargo/config", "/h/.cargo/config.toml", "/h/.cargo/config"])
    );
    assert_eq!(
        cargo_config_files("/t", Some("/c"), None)[2..].to_vec(),
        strs(&["/c/config.toml", "/c/config"])
    );
    assert_eq!(cargo_config_files("/t", None, None)[3], "/.cargo/config");
}
