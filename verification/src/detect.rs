//! Build system detection and the system packages each build system needs.
use vstd::prelude::*;

use crate::cli::{is_on_path, on_path};
use crate::package::opt_string_view;
use crate::json::{json_as_str, json_get, json_lookup, json_of_text, json_str, parse_json, Json};
use crate::text::{
    chars_eq, chars_of, contains_seq, contains_str, eq_str, ridx_of, rfind_char_end, starts_with,
    starts_with_chars, sub_chars, views,
};

verus! {

broadcast use vstd::string::group_string_axioms;

// ---------------------------------------------------------------------------
// System packages per build system

/// Whether `pm` is one of the package managers gitpkg knows.
pub open spec fn known_pm(pm: Seq<char>) -> bool {
    pm == "apt"@ || pm == "dnf"@ || pm == "yum"@ || pm == "pacman"@ || pm == "zypper"@ || pm
        == "apk"@ || pm == "nix-env"@
}

/// The compiler packages of the `make` family for a package manager.
pub open spec fn toolchain_packages(pm: Seq<char>) -> Seq<char> {
    if pm == "apt"@ {
        "build-essential"@
    } else if pm == "pacman"@ {
        "base-devel"@
    } else if pm == "apk"@ {
        "build-base"@
    } else if pm == "nix-env"@ {
        "gcc"@
    } else {
        "gcc gcc-c++ make"@
    }
}

/// The system packages (space separated) a build system needs under a
/// package manager; none for an unknown pairing.
pub open spec fn system_packages(bs: Seq<char>, pm: Seq<char>) -> Option<Seq<char>> {
    if !known_pm(pm) {
        None
    } else if bs == "cargo"@ {
        Some("rustc"@)
    } else if bs == "go"@ {
        Some(
            if pm == "pacman"@ {
                "go"@
            } else {
                "golang"@
            },
        )
    } else if bs == "make"@ || bs == "cmake"@ || bs == "meson"@ || bs == "mason"@ || bs
        == "ninja"@ {
        Some(toolchain_packages(pm))
    } else if bs == "npm"@ || bs == "pnpm"@ || bs == "yarn"@ || bs == "electron"@ {
        Some("nodejs npm"@)
    } else if bs == "gradle"@ {
        Some("gradle"@)
    } else if bs == "python"@ {
        Some("python"@)
    } else if bs == "just"@ {
        Some("just"@)
    } else if bs == "rake"@ {
        Some("ruby"@)
    } else {
        None
    }
}

/// The system packages a build system needs under a package manager.
pub fn build_system_packages(build_system: &str, pm: &str) -> (r: Option<&'static str>)
    ensures
        match r {
            Some(p) => system_packages(build_system@, pm@) == Some(p@),
            None => system_packages(build_system@, pm@) is None,
        },
{
    let p = chars_of(pm);
    let pa = p.as_slice();
    if !(eq_str(pa, "apt") || eq_str(pa, "dnf") || eq_str(pa, "yum") || eq_str(pa, "pacman")
        || eq_str(pa, "zypper") || eq_str(pa, "apk") || eq_str(pa, "nix-env")) {
        return None;
    }
    let b = chars_of(build_system);
    let ba = b.as_slice();
    if eq_str(ba, "cargo") {
        Some("rustc")
    } else if eq_str(ba, "go") {
        if eq_str(pa, "pacman") {
            Some("go")
        } else {
            Some("golang")
        }
    } else if eq_str(ba, "make") || eq_str(ba, "cmake") || eq_str(ba, "meson") || eq_str(
        ba,
        "mason",
    ) || eq_str(ba, "ninja") {
        if eq_str(pa, "apt") {
            Some("build-essential")
        } else if eq_str(pa, "pacman") {
            Some("base-devel")
        } else if eq_str(pa, "apk") {
            Some("build-base")
        } else if eq_str(pa, "nix-env") {
            Some("gcc")
        } else {
            Some("gcc gcc-c++ make")
        }
    } else if eq_str(ba, "npm") || eq_str(ba, "pnpm") || eq_str(ba, "yarn") || eq_str(
        ba,
        "electron",
    ) {
        Some("nodejs npm")
    } else if eq_str(ba, "gradle") {
        Some("gradle")
    } else if eq_str(ba, "python") {
        Some("python")
    } else if eq_str(ba, "just") {
        Some("just")
    } else if eq_str(ba, "rake") {
        Some("ruby")
    } else {
        None
    }
}

// ---------------------------------------------------------------------------
// JavaScript projects

/// What gitpkg reads from a project's `package.json`: the names in its
/// `dependencies` and `devDependencies` objects (none when the field is
/// missing or not an object), its `packageManager` string, its scripts,
/// its `bin` (a path, or an object of entries) and its `main` string.
#[derive(Clone, Debug)]
pub struct PackageJson {
    pub dependencies: Option<Vec<String>>,
    pub dev_dependencies: Option<Vec<String>>,
    pub package_manager: Option<String>,
    /// Each entry of the `scripts` object, with its text when that is a
    /// string.
    pub scripts: Vec<(String, Option<String>)>,
    /// `bin` when it is a string.
    pub bin: Option<String>,
    /// Each entry of `bin` when it is an object, with its path when that is
    /// a string.
    pub bins: Vec<(String, Option<String>)>,
    /// `main` when it is a string.
    pub main: Option<String>,
}

pub open spec fn opt_names_view(o: Option<Vec<String>>) -> Option<Seq<Seq<char>>> {
    match o {
        Some(v) => Some(views(v@)),
        None => None,
    }
}

pub open spec fn entries_view(v: Seq<(String, Option<String>)>) -> Seq<(Seq<char>, Option<Seq<char>>)> {
    v.map_values(|e: (String, Option<String>)| (e.0@, opt_string_view(e.1)))
}

/// A parsed `package.json` as plain values, in the order of its fields.
pub open spec fn package_json_view(r: Option<PackageJson>) -> Option<
    (
        Option<Seq<Seq<char>>>,
        Option<Seq<Seq<char>>>,
        Option<Seq<char>>,
        Seq<(Seq<char>, Option<Seq<char>>)>,
        Option<Seq<char>>,
        Seq<(Seq<char>, Option<Seq<char>>)>,
        Option<Seq<char>>,
    ),
> {
    match r {
        Some(pj) => Some(
            (
                opt_names_view(pj.dependencies),
                opt_names_view(pj.dev_dependencies),
                opt_string_view(pj.package_manager),
                entries_view(pj.scripts@),
                opt_string_view(pj.bin),
                entries_view(pj.bins@),
                opt_string_view(pj.main),
            ),
        ),
        None => None,
    }
}

/// The keys of a field when it is an object.
pub open spec fn object_keys(f: Option<Json>) -> Option<Seq<Seq<char>>> {
    match f {
        Some(Json::Object(o)) => Some(o@.map_values(|e: (String, Json)| e.0@)),
        _ => None,
    }
}

/// The entries of a field when it is an object, each with its text when
/// it is a string; none when the field is not an object.
pub open spec fn object_entries(f: Option<Json>) -> Seq<(Seq<char>, Option<Seq<char>>)> {
    match f {
        Some(Json::Object(o)) => o@.map_values(|e: (String, Json)| (e.0@, json_str(e.1))),
        _ => seq![],
    }
}

/// The text of a field when it is a string.
pub open spec fn string_field(f: Option<Json>) -> Option<Seq<char>> {
    match f {
        Some(x) => json_str(x),
        None => None,
    }
}

/// What gitpkg reads from a parsed `package.json`: the keys of
/// `dependencies` and `devDependencies`, `packageManager`, the entries of
/// `scripts`, `bin` as a string, the entries of `bin` as an object, and
/// `main`.
pub open spec fn package_json_fields_of(j: Json) -> (
    Option<Seq<Seq<char>>>,
    Option<Seq<Seq<char>>>,
    Option<Seq<char>>,
    Seq<(Seq<char>, Option<Seq<char>>)>,
    Option<Seq<char>>,
    Seq<(Seq<char>, Option<Seq<char>>)>,
    Option<Seq<char>>,
) {
    (
        object_keys(json_lookup(j, "dependencies"@)),
        object_keys(json_lookup(j, "devDependencies"@)),
        string_field(json_lookup(j, "packageManager"@)),
        object_entries(json_lookup(j, "scripts"@)),
        string_field(json_lookup(j, "bin"@)),
        object_entries(json_lookup(j, "bin"@)),
        string_field(json_lookup(j, "main"@)),
    )
}

fn keys_of(f: Option<&Json>) -> (r: Option<Vec<String>>)
    ensures
        opt_names_view(r) == object_keys(match f {
            Some(x) => Some(*x),
            None => None,
        }),
{
    match f {
        Some(Json::Object(o)) => {
            let ghost keys = o@.map_values(|e: (String, Json)| e.0@);
            let mut v: Vec<String> = Vec::new();
            let mut i: usize = 0;
            while i < o.len()
                invariant
                    i <= o@.len(),
                    keys == o@.map_values(|e: (String, Json)| e.0@),
                    views(v@) == keys.take(i as int),
                decreases o@.len() - i,
            {
                let w = o[i].0.clone();
                let ghost before = v@;
                v.push(w);
                proof {
                    assert(views(v@) =~= views(before).push(w@));
                    assert(views(v@) =~= keys.take(i + 1));
                }
                i = i + 1;
            }
            proof {
                assert(views(v@) =~= keys);
            }
            Some(v)
        },
        _ => None,
    }
}

fn entries_of(f: Option<&Json>) -> (r: Vec<(String, Option<String>)>)
    ensures
        entries_view(r@) == object_entries(match f {
            Some(x) => Some(*x),
            None => None,
        }),
{
    match f {
        Some(Json::Object(o)) => {
            let ghost es = o@.map_values(|e: (String, Json)| (e.0@, json_str(e.1)));
            let mut v: Vec<(String, Option<String>)> = Vec::new();
            let mut i: usize = 0;
            while i < o.len()
                invariant
                    i <= o@.len(),
                    es == o@.map_values(|e: (String, Json)| (e.0@, json_str(e.1))),
                    entries_view(v@) == es.take(i as int),
                decreases o@.len() - i,
            {
                let w = (o[i].0.clone(), json_as_str(&o[i].1));
                let ghost before = v@;
                v.push(w);
                proof {
                    assert(entries_view(v@) =~= entries_view(before).push((w.0@, opt_string_view(w.1))));
                    assert(entries_view(v@) =~= es.take(i + 1));
                }
                i = i + 1;
            }
            proof {
                assert(entries_view(v@) =~= es);
            }
            v
        },
        _ => {
            let v: Vec<(String, Option<String>)> = Vec::new();
            assert(entries_view(v@) =~= Seq::<(Seq<char>, Option<Seq<char>>)>::empty());
            v
        },
    }
}

fn text_of(f: Option<&Json>) -> (r: Option<String>)
    ensures
        opt_string_view(r) == string_field(match f {
            Some(x) => Some(*x),
            None => None,
        }),
{
    match f {
        Some(x) => json_as_str(x),
        None => None,
    }
}

/// What gitpkg reads from a parsed `package.json`.
pub fn package_json_from(j: &Json) -> (r: PackageJson)
    ensures
        package_json_view(Some(r)) == Some(package_json_fields_of(*j)),
{
    PackageJson {
        dependencies: keys_of(json_get(j, "dependencies")),
        dev_dependencies: keys_of(json_get(j, "devDependencies")),
        package_manager: text_of(json_get(j, "packageManager")),
        scripts: entries_of(json_get(j, "scripts")),
        bin: text_of(json_get(j, "bin")),
        bins: entries_of(json_get(j, "bin")),
        main: text_of(json_get(j, "main")),
    }
}

/// A project's `package.json` read from its text: none when the text is
/// not JSON.
pub fn parse_package_json(text: &str) -> (r: Option<PackageJson>)
    ensures
        package_json_view(r) == match json_of_text(text@) {
            Some(j) => Some(package_json_fields_of(j)),
            None => None,
        },
{
    match parse_json(text) {
        Some(j) => Some(package_json_from(&j)),
        None => None,
    }
}

/// The value of the first entry named `name`, if any.
pub open spec fn entry_value(e: Seq<(Seq<char>, Option<Seq<char>>)>, name: Seq<char>) -> Option<
    Option<Seq<char>>,
>
    decreases e.len(),
{
    if e.len() == 0 {
        None
    } else if e[0].0 == name {
        Some(e[0].1)
    } else {
        entry_value(e.drop_first(), name)
    }
}

fn find_entry(e: &[(String, Option<String>)], name: &str) -> (r: Option<Option<String>>)
    ensures
        match r {
            Some(v) => entry_value(entries_view(e@), name@) == Some(opt_string_view(v)),
            None => entry_value(entries_view(e@), name@) is None,
        },
{
    let ghost ev = entries_view(e@);
    let nv = chars_of(name);
    let mut i: usize = 0;
    assert(ev.skip(0) =~= ev);
    while i < e.len()
        invariant
            i <= e@.len(),
            ev == entries_view(e@),
            nv@ == name@,
            entry_value(ev, name@) == entry_value(ev.skip(i as int), name@),
        decreases e@.len() - i,
    {
        let ghost rest = ev.skip(i as int);
        assert(rest[0] == ev[i as int]);
        assert(ev[i as int] == (e@[i as int].0@, opt_string_view(e@[i as int].1)));
        assert(rest.drop_first() =~= ev.skip(i + 1));
        let k = chars_of(e[i].0.as_str());
        if chars_eq(k.as_slice(), nv.as_slice()) {
            let v = match &e[i].1 {
                Some(t) => Some(t.clone()),
                None => None,
            };
            return Some(v);
        }
        i = i + 1;
    }
    assert(ev.skip(i as int).len() == 0);
    None
}

/// Whether a script is there with string text.
pub open spec fn has_script(pj: PackageJson, name: Seq<char>) -> bool {
    entry_value(entries_view(pj.scripts@), name) matches Some(Some(_))
}

/// Whether `scripts.build` is a non-empty string (`npm run build` is then
/// run after installing).
pub fn has_build_script(pj: &PackageJson) -> (r: bool)
    ensures
        r == (entry_value(entries_view(pj.scripts@), "build"@) matches Some(Some(t)) && t.len() > 0),
{
    match find_entry(pj.scripts.as_slice(), "build") {
        Some(Some(t)) => chars_of(t.as_str()).len() > 0,
        _ => false,
    }
}

/// The scripts an Electron build runs, in this order, among `build:app`,
/// `build:web`, `build:electron` and `build`: those with string text.
pub open spec fn electron_scripts(pj: PackageJson) -> Seq<Seq<char>> {
    (if has_script(pj, "build:app"@) { seq!["build:app"@] } else { seq![] })
        + (if has_script(pj, "build:web"@) { seq!["build:web"@] } else { seq![] })
        + (if has_script(pj, "build:electron"@) { seq!["build:electron"@] } else { seq![] })
        + (if has_script(pj, "build"@) { seq!["build"@] } else { seq![] })
}

fn script_present(pj: &PackageJson, name: &str) -> (r: bool)
    ensures
        r == has_script(*pj, name@),
{
    match find_entry(pj.scripts.as_slice(), name) {
        Some(Some(_)) => true,
        _ => false,
    }
}

/// The scripts an Electron build runs, in order.
pub fn electron_build_scripts(pj: &PackageJson) -> (r: Vec<String>)
    ensures
        views(r@) == electron_scripts(*pj),
{
    let mut r: Vec<String> = Vec::new();
    if script_present(pj, "build:app") {
        r.push("build:app".to_string());
    }
    if script_present(pj, "build:web") {
        r.push("build:web".to_string());
    }
    if script_present(pj, "build:electron") {
        r.push("build:electron".to_string());
    }
    if script_present(pj, "build") {
        r.push("build".to_string());
    }
    proof {
        assert(views(r@) =~= electron_scripts(*pj));
    }
    r
}

/// The program a Node package declares for `repo`: `bin` when it is a
/// path, else the `bin` entry named `repo` when that is a path.
pub fn node_bin_entry(pj: &PackageJson, repo: &str) -> (r: Option<String>)
    ensures
        opt_string_view(r) == match pj.bin {
            Some(b) => Some(b@),
            None => match entry_value(entries_view(pj.bins@), repo@) {
                Some(Some(p)) => Some(p),
                _ => None,
            },
        },
{
    match &pj.bin {
        Some(b) => Some(b.clone()),
        None => match find_entry(pj.bins.as_slice(), repo) {
            Some(Some(p)) => Some(p),
            _ => None,
        },
    }
}

/// Whether a list of dependency names holds `electron`.
pub open spec fn lists_electron(deps: Option<Vec<String>>) -> bool {
    match deps {
        Some(d) => exists|i: int| 0 <= i < d@.len() && #[trigger] d@[i]@ == "electron"@,
        None => false,
    }
}

fn has_electron(deps: &Option<Vec<String>>) -> (r: bool)
    ensures
        r == lists_electron(*deps),
{
    match deps {
        Some(d) => is_on_path(d.as_slice(), "electron"),
        None => false,
    }
}

/// An Electron app: `electron` among the dependencies or dev-dependencies
/// of a readable `package.json`.
pub fn detect_electron(package_json: &Option<PackageJson>) -> (r: bool)
    ensures
        r == match package_json {
            Some(pj) => lists_electron(pj.dependencies) || lists_electron(pj.dev_dependencies),
            None => false,
        },
{
    match package_json {
        Some(pj) => has_electron(&pj.dependencies) || has_electron(&pj.dev_dependencies),
        None => false,
    }
}

/// The JavaScript package manager: the one `packageManager` names (by
/// prefix `pnpm`, `yarn` or `npm`), else the one whose lock file is there,
/// else npm.
pub open spec fn js_package_manager(
    package_json: Option<PackageJson>,
    has_pnpm_lock: bool,
    has_yarn_lock: bool,
) -> Seq<char> {
    let field = match package_json {
        Some(pj) => match pj.package_manager {
            Some(p) => Some(p@),
            None => None,
        },
        None => None,
    };
    if field is Some && starts_with(field->0, "pnpm"@) {
        "pnpm"@
    } else if field is Some && starts_with(field->0, "yarn"@) {
        "yarn"@
    } else if field is Some && starts_with(field->0, "npm"@) {
        "npm"@
    } else if has_pnpm_lock {
        "pnpm"@
    } else if has_yarn_lock {
        "yarn"@
    } else {
        "npm"@
    }
}

/// The JavaScript package manager of a project, from its `package.json`
/// and whether `pnpm-lock.yaml` and `yarn.lock` are there.
pub fn detect_js_package_manager(
    package_json: &Option<PackageJson>,
    has_pnpm_lock: bool,
    has_yarn_lock: bool,
) -> (r: &'static str)
    ensures
        r@ == js_package_manager(*package_json, has_pnpm_lock, has_yarn_lock),
{
    if let Some(pj) = package_json {
        if let Some(pm) = &pj.package_manager {
            let v = chars_of(pm.as_str());
            let pnpm = chars_of("pnpm");
            let yarn = chars_of("yarn");
            let npm = chars_of("npm");
            if starts_with_chars(v.as_slice(), pnpm.as_slice()) {
                return "pnpm";
            } else if starts_with_chars(v.as_slice(), yarn.as_slice()) {
                return "yarn";
            } else if starts_with_chars(v.as_slice(), npm.as_slice()) {
                return "npm";
            }
        }
    }
    if has_pnpm_lock {
        return "pnpm";
    }
    if has_yarn_lock {
        return "yarn";
    }
    "npm"
}


// ---------------------------------------------------------------------------
// Build systems

/// The files that mark a build system, in the order they are looked for,
/// each with the build system it marks.
pub open spec fn build_markers() -> Seq<(Seq<char>, Seq<char>)> {
    seq![
        ("Makefile"@, "make"@),
        ("Justfile"@, "just"@),
        ("justfile"@, "just"@),
        ("CMakeLists.txt"@, "cmake"@),
        ("meson.build"@, "meson"@),
        ("mason.toml"@, "mason"@),
        ("build.ninja"@, "ninja"@),
        ("Cargo.toml"@, "cargo"@),
        ("build.gradle"@, "gradle"@),
        ("go.mod"@, "go"@),
        ("pyproject.toml"@, "python"@),
        ("setup.py"@, "python"@),
        ("setup.cfg"@, "python"@),
        ("Pipfile"@, "python"@),
        ("poetry.lock"@, "python"@),
        ("requirements.txt"@, "python"@),
        ("Rakefile"@, "rake"@),
    ]
}

/// The `i`th marker file and the build system it marks.
pub fn build_marker(i: usize) -> (r: (&'static str, &'static str))
    requires
        i < 17,
    ensures
        (r.0@, r.1@) == build_markers()[i as int],
{
    if i == 0 {
        ("Makefile", "make")
    } else if i == 1 {
        ("Justfile", "just")
    } else if i == 2 {
        ("justfile", "just")
    } else if i == 3 {
        ("CMakeLists.txt", "cmake")
    } else if i == 4 {
        ("meson.build", "meson")
    } else if i == 5 {
        ("mason.toml", "mason")
    } else if i == 6 {
        ("build.ninja", "ninja")
    } else if i == 7 {
        ("Cargo.toml", "cargo")
    } else if i == 8 {
        ("build.gradle", "gradle")
    } else if i == 9 {
        ("go.mod", "go")
    } else if i == 10 {
        ("pyproject.toml", "python")
    } else if i == 11 {
        ("setup.py", "python")
    } else if i == 12 {
        ("setup.cfg", "python")
    } else if i == 13 {
        ("Pipfile", "python")
    } else if i == 14 {
        ("poetry.lock", "python")
    } else if i == 15 {
        ("requirements.txt", "python")
    } else {
        ("Rakefile", "rake")
    }
}

/// What detection knows about one entry of the project directory.
#[derive(Clone, Debug)]
pub struct DirEntry {
    /// The entry's file name.
    pub name: String,
    /// A regular file (after following symlinks).
    pub is_file: bool,
    /// A directory (after following symlinks).
    pub is_dir: bool,
    /// A file that is Python source: a `.py` name, or a MIME type naming
    /// Python.
    pub is_python: bool,
    /// A directory with a Python source file directly inside it.
    pub holds_python_file: bool,
    /// The first 64 bytes of the file read as UTF-8 (invalid bytes
    /// replaced), when the file could be read and is that long.
    pub head: Option<String>,
}

/// What detection knows about a project directory.
#[derive(Clone, Debug)]
pub struct DirSnapshot {
    /// The marker files, `package.json`, `pnpm-lock.yaml` and `yarn.lock`
    /// that exist in the directory.
    pub present: Vec<String>,
    /// The parsed `package.json`, when it could be read and parsed.
    pub package_json: Option<PackageJson>,
    /// The directory's entries.
    pub entries: Vec<DirEntry>,
}

/// The build system of the first marker file that is present, from the
/// `from`th marker on.
pub open spec fn first_marker(present: Seq<String>, from: int) -> Option<Seq<char>>
    decreases 17 - from,
{
    if from < 0 || from >= 17 {
        None
    } else if on_path(present, build_markers()[from].0) {
        Some(build_markers()[from].1)
    } else {
        first_marker(present, from + 1)
    }
}

/// `Path::extension` of a file name: what follows its last `.`, when that
/// dot is not the name's first character (and the name is not `..`).
pub open spec fn extension(name: Seq<char>) -> Option<Seq<char>> {
    let i = ridx_of(name, '.');
    if name == ".."@ || i <= 0 {
        None
    } else {
        Some(name.skip(i + 1))
    }
}

/// A visible Python file other than `setup.py`, or a visible directory
/// (other than `__pycache__` and `venv`) holding a Python file.
pub open spec fn python_entry(e: DirEntry) -> bool {
    ||| e.is_file && e.is_python && !starts_with(e.name@, "."@) && e.name@ != "setup.py"@
    ||| e.is_dir && !starts_with(e.name@, "."@) && e.name@ != "__pycache__"@ && e.name@ != "venv"@
        && e.holds_python_file
}

/// A visible `.sh` file.
pub open spec fn shell_script_entry(e: DirEntry) -> bool {
    e.is_file && !starts_with(e.name@, "."@) && extension(e.name@) == Some("sh"@)
}

/// A shebang naming a POSIX-style shell.
pub open spec fn shell_shebang(head: Seq<char>) -> bool {
    &&& starts_with(head, "#!"@)
    &&& {
        ||| contains_seq(head, "/sh"@)
        ||| contains_seq(head, "/bash"@)
        ||| contains_seq(head, "/zsh"@)
        ||| contains_seq(head, "/dash"@)
        ||| contains_seq(head, "/ksh"@)
        ||| contains_seq(head, "/env bash"@)
        ||| contains_seq(head, "/env sh"@)
    }
}

/// A visible file without extension that starts with a shell shebang.
pub open spec fn shebang_entry(e: DirEntry) -> bool {
    &&& e.is_file
    &&& !starts_with(e.name@, "."@)
    &&& extension(e.name@) is None
    &&& e.head matches Some(h) && shell_shebang(h@)
}

/// The build system of a project directory: the first marker file's, then
/// a JavaScript project's (Electron, or its package manager), then Python
/// when a Python file is found, then shell when a shell script is found.
pub open spec fn detected_build_system(snap: DirSnapshot) -> Option<Seq<char>> {
    let present = snap.present@;
    match first_marker(present, 0) {
        Some(bs) => Some(bs),
        None => if on_path(present, "package.json"@) {
            Some(
                if (match snap.package_json {
                    Some(pj) => lists_electron(pj.dependencies) || lists_electron(pj.dev_dependencies),
                    None => false,
                }) {
                    "electron"@
                } else {
                    js_package_manager(
                        snap.package_json,
                        on_path(present, "pnpm-lock.yaml"@),
                        on_path(present, "yarn.lock"@),
                    )
                },
            )
        } else if exists|i: int| 0 <= i < snap.entries@.len() && python_entry(#[trigger] snap.entries@[i]) {
            Some("python"@)
        } else if exists|i: int|
            0 <= i < snap.entries@.len() && shell_script_entry(#[trigger] snap.entries@[i]) {
            Some("sh"@)
        } else if exists|i: int| 0 <= i < snap.entries@.len() && shebang_entry(#[trigger] snap.entries@[i]) {
            Some("sh"@)
        } else {
            None
        },
    }
}

fn file_extension(name: &str) -> (r: Option<Vec<char>>)
    ensures
        match r {
            Some(x) => extension(name@) == Some(x@),
            None => extension(name@) is None,
        },
{
    let v = chars_of(name);
    let k = rfind_char_end(v.as_slice(), '.');
    proof {
        crate::text::lemma_ridx_of(v@, '.');
    }
    if eq_str(v.as_slice(), "..") || k <= 1 {
        return None;
    }
    Some(sub_chars(v.as_slice(), k, v.len()))
}

fn is_hidden(name: &str) -> (r: bool)
    ensures
        r == starts_with(name@, "."@),
{
    let v = chars_of(name);
    let dot = chars_of(".");
    starts_with_chars(v.as_slice(), dot.as_slice())
}

fn is_python_entry(e: &DirEntry) -> (r: bool)
    ensures
        r == python_entry(*e),
{
    let hidden = is_hidden(e.name.as_str());
    let n = chars_of(e.name.as_str());
    (e.is_file && e.is_python && !hidden && !eq_str(n.as_slice(), "setup.py")) || (e.is_dir
        && !hidden && !eq_str(n.as_slice(), "__pycache__") && !eq_str(n.as_slice(), "venv")
        && e.holds_python_file)
}

fn is_shell_script_entry(e: &DirEntry) -> (r: bool)
    ensures
        r == shell_script_entry(*e),
{
    if !e.is_file || is_hidden(e.name.as_str()) {
        return false;
    }
    match file_extension(e.name.as_str()) {
        Some(x) => eq_str(x.as_slice(), "sh"),
        None => false,
    }
}

/// Whether the start of a file is a shebang naming a POSIX-style shell.
pub fn is_shell_shebang(head: &str) -> (r: bool)
    ensures
        r == shell_shebang(head@),
{
    let v = chars_of(head);
    let bang = chars_of("#!");
    starts_with_chars(v.as_slice(), bang.as_slice()) && (contains_str(head, "/sh") || contains_str(
        head,
        "/bash",
    ) || contains_str(head, "/zsh") || contains_str(head, "/dash") || contains_str(head, "/ksh")
        || contains_str(head, "/env bash") || contains_str(head, "/env sh"))
}

fn is_shebang_entry(e: &DirEntry) -> (r: bool)
    ensures
        r == shebang_entry(*e),
{
    if !e.is_file || is_hidden(e.name.as_str()) {
        return false;
    }
    if file_extension(e.name.as_str()).is_some() {
        return false;
    }
    match &e.head {
        Some(h) => is_shell_shebang(h.as_str()),
        None => false,
    }
}

/// Detect the build system of a project from what is known of its
/// directory.
pub fn detect_build_system(snap: &DirSnapshot) -> (r: Option<&'static str>)
    ensures
        match r {
            Some(bs) => detected_build_system(*snap) == Some(bs@),
            None => detected_build_system(*snap) is None,
        },
{
    let present = snap.present.as_slice();
    let mut i: usize = 0;
    while i < 17
        invariant
            i <= 17,
            present@ == snap.present@,
            first_marker(present@, 0) == first_marker(present@, i as int),
        decreases 17 - i,
    {
        let (file, bs) = build_marker(i);
        if is_on_path(present, file) {
            return Some(bs);
        }
        i = i + 1;
    }
    if is_on_path(present, "package.json") {
        if detect_electron(&snap.package_json) {
            return Some("electron");
        }
        let pnpm = is_on_path(present, "pnpm-lock.yaml");
        let yarn = is_on_path(present, "yarn.lock");
        return Some(detect_js_package_manager(&snap.package_json, pnpm, yarn));
    }
    let n = snap.entries.len();
    let mut j: usize = 0;
    while j < n
        invariant
            j <= n,
            n == snap.entries@.len(),
            first_marker(snap.present@, 0) is None,
            !on_path(snap.present@, "package.json"@),
            forall|k: int| 0 <= k < j ==> !python_entry(#[trigger] snap.entries@[k]),
        decreases n - j,
    {
        if is_python_entry(&snap.entries[j]) {
            return Some("python");
        }
        j = j + 1;
    }
    let mut j: usize = 0;
    while j < n
        invariant
            j <= n,
            n == snap.entries@.len(),
            first_marker(snap.present@, 0) is None,
            !on_path(snap.present@, "package.json"@),
            forall|k: int| 0 <= k < n ==> !python_entry(#[trigger] snap.entries@[k]),
            forall|k: int| 0 <= k < j ==> !shell_script_entry(#[trigger] snap.entries@[k]),
        decreases n - j,
    {
        if is_shell_script_entry(&snap.entries[j]) {
            return Some("sh");
        }
        j = j + 1;
    }
    let mut j: usize = 0;
    while j < n
        invariant
            j <= n,
            n == snap.entries@.len(),
            first_marker(snap.present@, 0) is None,
            !on_path(snap.present@, "package.json"@),
            forall|k: int| 0 <= k < n ==> !python_entry(#[trigger] snap.entries@[k]),
            forall|k: int| 0 <= k < n ==> !shell_script_entry(#[trigger] snap.entries@[k]),
            forall|k: int| 0 <= k < j ==> !shebang_entry(#[trigger] snap.entries@[k]),
        decreases n - j,
    {
        if is_shebang_entry(&snap.entries[j]) {
            return Some("sh");
        }
        j = j + 1;
    }
    None
}

/// Whether a MIME type names Python.
pub fn mime_is_python(mime: &str) -> (r: bool)
    ensures
        r == contains_seq(mime@, "python"@),
{
    contains_str(mime, "python")
}

proof fn lemma_first_marker_at(present: Seq<String>, from: int, k: int)
    requires
        0 <= from <= k < 17,
        forall|j: int| from <= j < k ==> !on_path(present, #[trigger] build_markers()[j].0),
        on_path(present, build_markers()[k].0),
    ensures
        first_marker(present, from) == Some(build_markers()[k].1),
    decreases k - from,
{
    if from < k {
        lemma_first_marker_at(present, from + 1, k);
    }
}

/// Whether none of `names` is among the files present.
pub open spec fn none_present(present: Seq<String>, names: Seq<Seq<char>>) -> bool {
    forall|k: int| 0 <= k < names.len() ==> !on_path(present, #[trigger] names[k])
}

/// The marker files decide the build system, the first present in this
/// order winning: `Makefile` make; `Justfile`, `justfile` just;
/// `CMakeLists.txt` cmake; `meson.build` meson; `mason.toml` mason;
/// `build.ninja` ninja; `Cargo.toml` cargo; `build.gradle` gradle; `go.mod`
/// go; `pyproject.toml`, `setup.py`, `setup.cfg`, `Pipfile`, `poetry.lock`,
/// `requirements.txt` python; `Rakefile` rake.
pub proof fn law_marker_files_decide(snap: DirSnapshot)
    ensures
        on_path(snap.present@, "Makefile"@)
            ==> detected_build_system(snap) == Some("make"@),
        none_present(snap.present@, seq!["Makefile"@]) && on_path(snap.present@, "Justfile"@)
            ==> detected_build_system(snap) == Some("just"@),
        none_present(snap.present@, seq!["Makefile"@, "Justfile"@]) && on_path(snap.present@, "justfile"@)
            ==> detected_build_system(snap) == Some("just"@),
        none_present(snap.present@, seq!["Makefile"@, "Justfile"@, "justfile"@]) && on_path(snap.present@, "CMakeLists.txt"@)
            ==> detected_build_system(snap) == Some("cmake"@),
        none_present(snap.present@, seq!["Makefile"@, "Justfile"@, "justfile"@, "CMakeLists.txt"@]) && on_path(snap.present@, "meson.build"@)
            ==> detected_build_system(snap) == Some("meson"@),
        none_present(snap.present@, seq!["Makefile"@, "Justfile"@, "justfile"@, "CMakeLists.txt"@, "meson.build"@]) && on_path(snap.present@, "mason.toml"@)
            ==> detected_build_system(snap) == Some("mason"@),
        none_present(snap.present@, seq!["Makefile"@, "Justfile"@, "justfile"@, "CMakeLists.txt"@, "meson.build"@, "mason.toml"@]) && on_path(snap.present@, "build.ninja"@)
            ==> detected_build_system(snap) == Some("ninja"@),
        none_present(snap.present@, seq!["Makefile"@, "Justfile"@, "justfile"@, "CMakeLists.txt"@, "meson.build"@, "mason.toml"@, "build.ninja"@]) && on_path(snap.present@, "Cargo.toml"@)
            ==> detected_build_system(snap) == Some("cargo"@),
        none_present(snap.present@, seq!["Makefile"@, "Justfile"@, "justfile"@, "CMakeLists.txt"@, "meson.build"@, "mason.toml"@, "build.ninja"@, "Cargo.toml"@]) && on_path(snap.present@, "build.gradle"@)
            ==> detected_build_system(snap) == Some("gradle"@),
        none_present(snap.present@, seq!["Makefile"@, "Justfile"@, "justfile"@, "CMakeLists.txt"@, "meson.build"@, "mason.toml"@, "build.ninja"@, "Cargo.toml"@, "build.gradle"@]) && on_path(snap.present@, "go.mod"@)
            ==> detected_build_system(snap) == Some("go"@),
        none_present(snap.present@, seq!["Makefile"@, "Justfile"@, "justfile"@, "CMakeLists.txt"@, "meson.build"@, "mason.toml"@, "build.ninja"@, "Cargo.toml"@, "build.gradle"@, "go.mod"@]) && on_path(snap.present@, "pyproject.toml"@)
            ==> detected_build_system(snap) == Some("python"@),
        none_present(snap.present@, seq!["Makefile"@, "Justfile"@, "justfile"@, "CMakeLists.txt"@, "meson.build"@, "mason.toml"@, "build.ninja"@, "Cargo.toml"@, "build.gradle"@, "go.mod"@, "pyproject.toml"@]) && on_path(snap.present@, "setup.py"@)
            ==> detected_build_system(snap) == Some("python"@),
        none_present(snap.present@, seq!["Makefile"@, "Justfile"@, "justfile"@, "CMakeLists.txt"@, "meson.build"@, "mason.toml"@, "build.ninja"@, "Cargo.toml"@, "build.gradle"@, "go.mod"@, "pyproject.toml"@, "setup.py"@]) && on_path(snap.present@, "setup.cfg"@)
            ==> detected_build_system(snap) == Some("python"@),
        none_present(snap.present@, seq!["Makefile"@, "Justfile"@, "justfile"@, "CMakeLists.txt"@, "meson.build"@, "mason.toml"@, "build.ninja"@, "Cargo.toml"@, "build.gradle"@, "go.mod"@, "pyproject.toml"@, "setup.py"@, "setup.cfg"@]) && on_path(snap.present@, "Pipfile"@)
            ==> detected_build_system(snap) == Some("python"@),
        none_present(snap.present@, seq!["Makefile"@, "Justfile"@, "justfile"@, "CMakeLists.txt"@, "meson.build"@, "mason.toml"@, "build.ninja"@, "Cargo.toml"@, "build.gradle"@, "go.mod"@, "pyproject.toml"@, "setup.py"@, "setup.cfg"@, "Pipfile"@]) && on_path(snap.present@, "poetry.lock"@)
            ==> detected_build_system(snap) == Some("python"@),
        none_present(snap.present@, seq!["Makefile"@, "Justfile"@, "justfile"@, "CMakeLists.txt"@, "meson.build"@, "mason.toml"@, "build.ninja"@, "Cargo.toml"@, "build.gradle"@, "go.mod"@, "pyproject.toml"@, "setup.py"@, "setup.cfg"@, "Pipfile"@, "poetry.lock"@]) && on_path(snap.present@, "requirements.txt"@)
            ==> detected_build_system(snap) == Some("python"@),
        none_present(snap.present@, seq!["Makefile"@, "Justfile"@, "justfile"@, "CMakeLists.txt"@, "meson.build"@, "mason.toml"@, "build.ninja"@, "Cargo.toml"@, "build.gradle"@, "go.mod"@, "pyproject.toml"@, "setup.py"@, "setup.cfg"@, "Pipfile"@, "poetry.lock"@, "requirements.txt"@]) && on_path(snap.present@, "Rakefile"@)
            ==> detected_build_system(snap) == Some("rake"@),
{
    let p = snap.present@;
    let m = build_markers();
    assert(m[0] == ("Makefile"@, "make"@));
    assert(m[1] == ("Justfile"@, "just"@));
    assert(m[2] == ("justfile"@, "just"@));
    assert(m[3] == ("CMakeLists.txt"@, "cmake"@));
    assert(m[4] == ("meson.build"@, "meson"@));
    assert(m[5] == ("mason.toml"@, "mason"@));
    assert(m[6] == ("build.ninja"@, "ninja"@));
    assert(m[7] == ("Cargo.toml"@, "cargo"@));
    assert(m[8] == ("build.gradle"@, "gradle"@));
    assert(m[9] == ("go.mod"@, "go"@));
    assert(m[10] == ("pyproject.toml"@, "python"@));
    assert(m[11] == ("setup.py"@, "python"@));
    assert(m[12] == ("setup.cfg"@, "python"@));
    assert(m[13] == ("Pipfile"@, "python"@));
    assert(m[14] == ("poetry.lock"@, "python"@));
    assert(m[15] == ("requirements.txt"@, "python"@));
    assert(m[16] == ("Rakefile"@, "rake"@));
    if none_present(p, seq![]) && on_path(p, "Makefile"@) {
        let names: Seq<Seq<char>> = seq![];
        assert forall|j: int| 0 <= j < 0 implies !on_path(p, #[trigger] m[j].0) by {
            assert(names[j] == m[j].0);
        }
        lemma_first_marker_at(p, 0, 0);
    }
    if none_present(p, seq!["Makefile"@]) && on_path(p, "Justfile"@) {
        let names: Seq<Seq<char>> = seq!["Makefile"@];
        assert forall|j: int| 0 <= j < 1 implies !on_path(p, #[trigger] m[j].0) by {
            assert(names[j] == m[j].0);
        }
        lemma_first_marker_at(p, 0, 1);
    }
    if none_present(p, seq!["Makefile"@, "Justfile"@]) && on_path(p, "justfile"@) {
        let names: Seq<Seq<char>> = seq!["Makefile"@, "Justfile"@];
        assert forall|j: int| 0 <= j < 2 implies !on_path(p, #[trigger] m[j].0) by {
            assert(names[j] == m[j].0);
        }
        lemma_first_marker_at(p, 0, 2);
    }
    if none_present(p, seq!["Makefile"@, "Justfile"@, "justfile"@]) && on_path(p, "CMakeLists.txt"@) {
        let names: Seq<Seq<char>> = seq!["Makefile"@, "Justfile"@, "justfile"@];
        assert forall|j: int| 0 <= j < 3 implies !on_path(p, #[trigger] m[j].0) by {
            assert(names[j] == m[j].0);
        }
        lemma_first_marker_at(p, 0, 3);
    }
    if none_present(p, seq!["Makefile"@, "Justfile"@, "justfile"@, "CMakeLists.txt"@]) && on_path(p, "meson.build"@) {
        let names: Seq<Seq<char>> = seq!["Makefile"@, "Justfile"@, "justfile"@, "CMakeLists.txt"@];
        assert forall|j: int| 0 <= j < 4 implies !on_path(p, #[trigger] m[j].0) by {
            assert(names[j] == m[j].0);
        }
        lemma_first_marker_at(p, 0, 4);
    }
    if none_present(p, seq!["Makefile"@, "Justfile"@, "justfile"@, "CMakeLists.txt"@, "meson.build"@]) && on_path(p, "mason.toml"@) {
        let names: Seq<Seq<char>> = seq!["Makefile"@, "Justfile"@, "justfile"@, "CMakeLists.txt"@, "meson.build"@];
        assert forall|j: int| 0 <= j < 5 implies !on_path(p, #[trigger] m[j].0) by {
            assert(names[j] == m[j].0);
        }
        lemma_first_marker_at(p, 0, 5);
    }
    if none_present(p, seq!["Makefile"@, "Justfile"@, "justfile"@, "CMakeLists.txt"@, "meson.build"@, "mason.toml"@]) && on_path(p, "build.ninja"@) {
        let names: Seq<Seq<char>> = seq!["Makefile"@, "Justfile"@, "justfile"@, "CMakeLists.txt"@, "meson.build"@, "mason.toml"@];
        assert forall|j: int| 0 <= j < 6 implies !on_path(p, #[trigger] m[j].0) by {
            assert(names[j] == m[j].0);
        }
        lemma_first_marker_at(p, 0, 6);
    }
    if none_present(p, seq!["Makefile"@, "Justfile"@, "justfile"@, "CMakeLists.txt"@, "meson.build"@, "mason.toml"@, "build.ninja"@]) && on_path(p, "Cargo.toml"@) {
        let names: Seq<Seq<char>> = seq!["Makefile"@, "Justfile"@, "justfile"@, "CMakeLists.txt"@, "meson.build"@, "mason.toml"@, "build.ninja"@];
        assert forall|j: int| 0 <= j < 7 implies !on_path(p, #[trigger] m[j].0) by {
            assert(names[j] == m[j].0);
        }
        lemma_first_marker_at(p, 0, 7);
    }
    if none_present(p, seq!["Makefile"@, "Justfile"@, "justfile"@, "CMakeLists.txt"@, "meson.build"@, "mason.toml"@, "build.ninja"@, "Cargo.toml"@]) && on_path(p, "build.gradle"@) {
        let names: Seq<Seq<char>> = seq!["Makefile"@, "Justfile"@, "justfile"@, "CMakeLists.txt"@, "meson.build"@, "mason.toml"@, "build.ninja"@, "Cargo.toml"@];
        assert forall|j: int| 0 <= j < 8 implies !on_path(p, #[trigger] m[j].0) by {
            assert(names[j] == m[j].0);
        }
        lemma_first_marker_at(p, 0, 8);
    }
    if none_present(p, seq!["Makefile"@, "Justfile"@, "justfile"@, "CMakeLists.txt"@, "meson.build"@, "mason.toml"@, "build.ninja"@, "Cargo.toml"@, "build.gradle"@]) && on_path(p, "go.mod"@) {
        let names: Seq<Seq<char>> = seq!["Makefile"@, "Justfile"@, "justfile"@, "CMakeLists.txt"@, "meson.build"@, "mason.toml"@, "build.ninja"@, "Cargo.toml"@, "build.gradle"@];
        assert forall|j: int| 0 <= j < 9 implies !on_path(p, #[trigger] m[j].0) by {
            assert(names[j] == m[j].0);
        }
        lemma_first_marker_at(p, 0, 9);
    }
    if none_present(p, seq!["Makefile"@, "Justfile"@, "justfile"@, "CMakeLists.txt"@, "meson.build"@, "mason.toml"@, "build.ninja"@, "Cargo.toml"@, "build.gradle"@, "go.mod"@]) && on_path(p, "pyproject.toml"@) {
        let names: Seq<Seq<char>> = seq!["Makefile"@, "Justfile"@, "justfile"@, "CMakeLists.txt"@, "meson.build"@, "mason.toml"@, "build.ninja"@, "Cargo.toml"@, "build.gradle"@, "go.mod"@];
        assert forall|j: int| 0 <= j < 10 implies !on_path(p, #[trigger] m[j].0) by {
            assert(names[j] == m[j].0);
        }
        lemma_first_marker_at(p, 0, 10);
    }
    if none_present(p, seq!["Makefile"@, "Justfile"@, "justfile"@, "CMakeLists.txt"@, "meson.build"@, "mason.toml"@, "build.ninja"@, "Cargo.toml"@, "build.gradle"@, "go.mod"@, "pyproject.toml"@]) && on_path(p, "setup.py"@) {
        let names: Seq<Seq<char>> = seq!["Makefile"@, "Justfile"@, "justfile"@, "CMakeLists.txt"@, "meson.build"@, "mason.toml"@, "build.ninja"@, "Cargo.toml"@, "build.gradle"@, "go.mod"@, "pyproject.toml"@];
        assert forall|j: int| 0 <= j < 11 implies !on_path(p, #[trigger] m[j].0) by {
            assert(names[j] == m[j].0);
        }
        lemma_first_marker_at(p, 0, 11);
    }
    if none_present(p, seq!["Makefile"@, "Justfile"@, "justfile"@, "CMakeLists.txt"@, "meson.build"@, "mason.toml"@, "build.ninja"@, "Cargo.toml"@, "build.gradle"@, "go.mod"@, "pyproject.toml"@, "setup.py"@]) && on_path(p, "setup.cfg"@) {
        let names: Seq<Seq<char>> = seq!["Makefile"@, "Justfile"@, "justfile"@, "CMakeLists.txt"@, "meson.build"@, "mason.toml"@, "build.ninja"@, "Cargo.toml"@, "build.gradle"@, "go.mod"@, "pyproject.toml"@, "setup.py"@];
        assert forall|j: int| 0 <= j < 12 implies !on_path(p, #[trigger] m[j].0) by {
            assert(names[j] == m[j].0);
        }
        lemma_first_marker_at(p, 0, 12);
    }
    if none_present(p, seq!["Makefile"@, "Justfile"@, "justfile"@, "CMakeLists.txt"@, "meson.build"@, "mason.toml"@, "build.ninja"@, "Cargo.toml"@, "build.gradle"@, "go.mod"@, "pyproject.toml"@, "setup.py"@, "setup.cfg"@]) && on_path(p, "Pipfile"@) {
        let names: Seq<Seq<char>> = seq!["Makefile"@, "Justfile"@, "justfile"@, "CMakeLists.txt"@, "meson.build"@, "mason.toml"@, "build.ninja"@, "Cargo.toml"@, "build.gradle"@, "go.mod"@, "pyproject.toml"@, "setup.py"@, "setup.cfg"@];
        assert forall|j: int| 0 <= j < 13 implies !on_path(p, #[trigger] m[j].0) by {
            assert(names[j] == m[j].0);
        }
        lemma_first_marker_at(p, 0, 13);
    }
    if none_present(p, seq!["Makefile"@, "Justfile"@, "justfile"@, "CMakeLists.txt"@, "meson.build"@, "mason.toml"@, "build.ninja"@, "Cargo.toml"@, "build.gradle"@, "go.mod"@, "pyproject.toml"@, "setup.py"@, "setup.cfg"@, "Pipfile"@]) && on_path(p, "poetry.lock"@) {
        let names: Seq<Seq<char>> = seq!["Makefile"@, "Justfile"@, "justfile"@, "CMakeLists.txt"@, "meson.build"@, "mason.toml"@, "build.ninja"@, "Cargo.toml"@, "build.gradle"@, "go.mod"@, "pyproject.toml"@, "setup.py"@, "setup.cfg"@, "Pipfile"@];
        assert forall|j: int| 0 <= j < 14 implies !on_path(p, #[trigger] m[j].0) by {
            assert(names[j] == m[j].0);
        }
        lemma_first_marker_at(p, 0, 14);
    }
    if none_present(p, seq!["Makefile"@, "Justfile"@, "justfile"@, "CMakeLists.txt"@, "meson.build"@, "mason.toml"@, "build.ninja"@, "Cargo.toml"@, "build.gradle"@, "go.mod"@, "pyproject.toml"@, "setup.py"@, "setup.cfg"@, "Pipfile"@, "poetry.lock"@]) && on_path(p, "requirements.txt"@) {
        let names: Seq<Seq<char>> = seq!["Makefile"@, "Justfile"@, "justfile"@, "CMakeLists.txt"@, "meson.build"@, "mason.toml"@, "build.ninja"@, "Cargo.toml"@, "build.gradle"@, "go.mod"@, "pyproject.toml"@, "setup.py"@, "setup.cfg"@, "Pipfile"@, "poetry.lock"@];
        assert forall|j: int| 0 <= j < 15 implies !on_path(p, #[trigger] m[j].0) by {
            assert(names[j] == m[j].0);
        }
        lemma_first_marker_at(p, 0, 15);
    }
    if none_present(p, seq!["Makefile"@, "Justfile"@, "justfile"@, "CMakeLists.txt"@, "meson.build"@, "mason.toml"@, "build.ninja"@, "Cargo.toml"@, "build.gradle"@, "go.mod"@, "pyproject.toml"@, "setup.py"@, "setup.cfg"@, "Pipfile"@, "poetry.lock"@, "requirements.txt"@]) && on_path(p, "Rakefile"@) {
        let names: Seq<Seq<char>> = seq!["Makefile"@, "Justfile"@, "justfile"@, "CMakeLists.txt"@, "meson.build"@, "mason.toml"@, "build.ninja"@, "Cargo.toml"@, "build.gradle"@, "go.mod"@, "pyproject.toml"@, "setup.py"@, "setup.cfg"@, "Pipfile"@, "poetry.lock"@, "requirements.txt"@];
        assert forall|j: int| 0 <= j < 16 implies !on_path(p, #[trigger] m[j].0) by {
            assert(names[j] == m[j].0);
        }
        lemma_first_marker_at(p, 0, 16);
    }
}

} // verus!
