//! What an install writes: the launcher wrapper, the desktop entry, and
//! where data files and symlinks go.
use vstd::prelude::*;

use crate::cli::{is_on_path, on_path};
use crate::detect::{build_system_packages, system_packages};
use crate::package::{join_path, opt_string_view, path_join};
use crate::text::{
    chars_of, ends_with, ends_with_chars, eq_str, extend_chars, extend_str, lines, lines_of, split_words, views, words,
    starts_with, starts_with_chars, string_of,
};

verus! {

broadcast use vstd::string::group_string_axioms;

// ---------------------------------------------------------------------------
// Build system facts

/// JavaScript build systems keep their clone directory after the build.
pub fn keeps_source_dir(bs: &str) -> (r: bool)
    ensures
        r == (bs@ == "npm"@ || bs@ == "pnpm"@ || bs@ == "yarn"@ || bs@ == "electron"@),
{
    let v = chars_of(bs);
    let a = v.as_slice();
    eq_str(a, "npm") || eq_str(a, "pnpm") || eq_str(a, "yarn") || eq_str(a, "electron")
}

/// The program whose presence shows a build system's toolchain is
/// installed: `node` for pnpm, yarn and Electron, else the build system's
/// own name.
pub open spec fn probe(bs: Seq<char>) -> Seq<char> {
    if bs == "pnpm"@ || bs == "yarn"@ || bs == "electron"@ {
        "node"@
    } else {
        bs
    }
}

pub fn toolchain_probe(bs: &str) -> (r: String)
    ensures
        r@ == probe(bs@),
{
    let v = chars_of(bs);
    let a = v.as_slice();
    if eq_str(a, "pnpm") || eq_str(a, "yarn") || eq_str(a, "electron") {
        "node".to_string()
    } else {
        bs.to_string()
    }
}

/// Where the launcher symlink goes: `/usr/bin` for a system-wide install
/// whose superuser check passed, else `<home>/.local/bin`; none without a
/// home directory.
pub fn symlink_dir(system_wide: bool, auth_ok: bool, home: Option<&str>) -> (r: Option<String>)
    ensures
        opt_string_view(r) == (if system_wide && auth_ok {
            Some("/usr/bin"@)
        } else {
            match home {
                Some(h) => Some(path_join(h@, ".local/bin"@)),
                None => None,
            }
        }),
{
    if system_wide && auth_ok {
        return Some("/usr/bin".to_string());
    }
    match home {
        Some(h) => {
            let hv = chars_of(h);
            let part = chars_of(".local/bin");
            let p = join_path(hv.as_slice(), part.as_slice());
            Some(string_of(p.as_slice()))
        },
        None => None,
    }
}

// ---------------------------------------------------------------------------
// Wrapper script

/// The launcher that sets up resource paths before running the program.
pub open spec fn wrapper_text(repo: Seq<char>, install_path: Seq<char>, exe: Seq<char>) -> Seq<char> {
    let share = path_join(install_path, "share"@);
    "#!/bin/bash\n# Wrapper for "@ + repo + " - sets up resource paths\nexport GITPKG_PACKAGE_ROOT=\""@
        + install_path + "\"\nexport GRESOURCE_PATH=\""@ + path_join(share, repo)
        + ":$GRESOURCE_PATH\"\nexport XDG_DATA_DIRS=\""@ + share
        + ":$XDG_DATA_DIRS\"\nexport GSETTINGS_SCHEMA_DIR=\""@ + path_join(
        path_join(share, "glib-2.0"@),
        "schemas"@,
    ) + ":$GSETTINGS_SCHEMA_DIR\"\nexec "@ + exe + " \"$@\"\n"@
}

/// The launcher script for a package with data files.
pub fn wrapper_script(repo: &str, install_path: &str, exe_path: &str) -> (r: String)
    ensures
        r@ == wrapper_text(repo@, install_path@, exe_path@),
{
    let ip = chars_of(install_path);
    let share_part = chars_of("share");
    let share = join_path(ip.as_slice(), share_part.as_slice());
    let rv = chars_of(repo);
    let gres = join_path(share.as_slice(), rv.as_slice());
    let glib = chars_of("glib-2.0");
    let schemas = chars_of("schemas");
    let g = join_path(share.as_slice(), glib.as_slice());
    let schema = join_path(g.as_slice(), schemas.as_slice());
    let mut v: Vec<char> = Vec::new();
    extend_str(&mut v, "#!/bin/bash\n# Wrapper for ");
    extend_str(&mut v, repo);
    extend_str(&mut v, " - sets up resource paths\nexport GITPKG_PACKAGE_ROOT=\"");
    extend_str(&mut v, install_path);
    extend_str(&mut v, "\"\nexport GRESOURCE_PATH=\"");
    extend_chars(&mut v, gres.as_slice());
    extend_str(&mut v, ":$GRESOURCE_PATH\"\nexport XDG_DATA_DIRS=\"");
    extend_chars(&mut v, share.as_slice());
    extend_str(&mut v, ":$XDG_DATA_DIRS\"\nexport GSETTINGS_SCHEMA_DIR=\"");
    extend_chars(&mut v, schema.as_slice());
    extend_str(&mut v, ":$GSETTINGS_SCHEMA_DIR\"\nexec ");
    extend_str(&mut v, exe_path);
    extend_str(&mut v, " \"$@\"\n");
    string_of(v.as_slice())
}

// ---------------------------------------------------------------------------
// Desktop entries

/// Lines joined with `\n` between them.
pub open spec fn join_lines(p: Seq<Seq<char>>) -> Seq<char>
    decreases p.len(),
{
    if p.len() == 0 {
        seq![]
    } else if p.len() == 1 {
        p[0]
    } else {
        p[0] + seq!['\n'] + join_lines(p.drop_first())
    }
}

/// A desktop entry line, with an `Exec=` line pointing at `exe`.
pub open spec fn exec_line(l: Seq<char>, exe: Seq<char>) -> Seq<char> {
    if starts_with(l, "Exec="@) {
        "Exec="@ + exe
    } else {
        l
    }
}

/// The desktop entry with every `Exec=` line pointing at `exe`.
pub open spec fn desktop_with_exec(content: Seq<char>, exe: Seq<char>) -> Seq<char> {
    join_lines(lines(content).map_values(|l: Seq<char>| exec_line(l, exe)))
}

proof fn lemma_join_lines_push(p: Seq<Seq<char>>, x: Seq<char>)
    ensures
        join_lines(p.push(x)) == if p.len() == 0 {
            x
        } else {
            join_lines(p) + seq!['\n'] + x
        },
    decreases p.len(),
{
    if p.len() == 0 {
        assert(p.push(x) =~= seq![x]);
    } else if p.len() == 1 {
        assert(p.push(x).drop_first() =~= seq![x]);
        assert(join_lines(seq![x]) == x);
        assert(join_lines(p.push(x)) == p[0] + seq!['\n'] + x);
    } else {
        lemma_join_lines_push(p.drop_first(), x);
        assert(p.push(x).drop_first() =~= p.drop_first().push(x));
        assert(join_lines(p.push(x)) == p[0] + seq!['\n'] + join_lines(p.drop_first().push(x)));
        assert(join_lines(p.push(x)) =~= join_lines(p) + seq!['\n'] + x);
    }
}

/// Point every `Exec=` line of a desktop entry at the installed program;
/// the lines are joined with `\n` (no trailing line break).
pub fn rewrite_desktop_exec(content: &str, exe: &str) -> (r: String)
    ensures
        r@ == desktop_with_exec(content@, exe@),
{
    let c = chars_of(content);
    let ls = lines_of(c.as_slice());
    let ghost lv = ls@.map_values(|l: Vec<char>| l@);
    let ghost mapped = lv.map_values(|l: Seq<char>| exec_line(l, exe@));
    let prefix = chars_of("Exec=");
    let mut v: Vec<char> = Vec::new();
    let mut i: usize = 0;
    proof {
        assert(mapped.take(0) =~= Seq::<Seq<char>>::empty());
    }
    while i < ls.len()
        invariant
            i <= ls@.len(),
            lv == ls@.map_values(|l: Vec<char>| l@),
            mapped == lv.map_values(|l: Seq<char>| exec_line(l, exe@)),
            prefix@ == "Exec="@,
            v@ == join_lines(mapped.take(i as int)),
        decreases ls@.len() - i,
    {
        proof {
            lemma_join_lines_push(mapped.take(i as int), mapped[i as int]);
            assert(mapped.take(i + 1) =~= mapped.take(i as int).push(mapped[i as int]));
            assert(lv[i as int] == ls@[i as int]@);
        }
        if i > 0 {
            v.push('\n');
        }
        if starts_with_chars(ls[i].as_slice(), prefix.as_slice()) {
            extend_str(&mut v, "Exec=");
            extend_str(&mut v, exe);
        } else {
            extend_chars(&mut v, ls[i].as_slice());
        }
        i = i + 1;
    }
    proof {
        assert(mapped.take(ls@.len() as int) =~= mapped);
    }
    string_of(v.as_slice())
}

/// The name of the desktop entry installed for a package:
/// `gitpkg.<user>.<repo>.desktop`.
pub fn desktop_entry_name(user: &str, repo: &str) -> (r: String)
    ensures
        r@ == "gitpkg."@ + user@ + "."@ + repo@ + ".desktop"@,
{
    let mut v: Vec<char> = Vec::new();
    extend_str(&mut v, "gitpkg.");
    extend_str(&mut v, user);
    extend_str(&mut v, ".");
    extend_str(&mut v, repo);
    extend_str(&mut v, ".desktop");
    string_of(v.as_slice())
}

/// A key with every `/` replaced by `_`.
pub open spec fn flat_key(key: Seq<char>) -> Seq<char> {
    key.map_values(|c: char| if c == '/' { '_' } else { c })
}

/// The name of the symlink made for one of a package's desktop files:
/// `gitpkg.<key with / as _>.<file name>`.
pub fn desktop_symlink_name(pkg_key: &str, base: &str) -> (r: String)
    ensures
        r@ == "gitpkg."@ + flat_key(pkg_key@) + "."@ + base@,
{
    let k = chars_of(pkg_key);
    let mut v: Vec<char> = Vec::new();
    extend_str(&mut v, "gitpkg.");
    let ghost start = v@;
    let mut i: usize = 0;
    while i < k.len()
        invariant
            i <= k@.len(),
            v@ == start + flat_key(k@.take(i as int)),
        decreases k@.len() - i,
    {
        let c = if k[i] == '/' {
            '_'
        } else {
            k[i]
        };
        v.push(c);
        proof {
            assert(flat_key(k@.take(i + 1)) =~= flat_key(k@.take(i as int)).push(c));
        }
        i = i + 1;
    }
    proof {
        assert(k@.take(k@.len() as int) =~= k@);
    }
    extend_str(&mut v, ".");
    extend_str(&mut v, base);
    string_of(v.as_slice())
}

/// Where a data file found next to the sources is installed (relative to
/// the install directory), for each kind the name ends with: GResource
/// bundles under `share/<repo>`, GSettings schemas under
/// `share/glib-2.0/schemas`, desktop entries under `share/applications`.
pub open spec fn data_destinations(name: Seq<char>, repo: Seq<char>) -> Seq<Seq<char>> {
    (if ends_with(name, ".gresource"@) {
        seq![path_join("share"@, repo)]
    } else {
        seq![]
    }) + (if ends_with(name, ".gschema.xml"@) {
        seq!["share/glib-2.0/schemas"@]
    } else {
        seq![]
    }) + (if ends_with(name, ".desktop"@) {
        seq!["share/applications"@]
    } else {
        seq![]
    })
}

pub fn data_file_destinations(name: &str, repo: &str) -> (r: Vec<String>)
    ensures
        r@.map_values(|s: String| s@) == data_destinations(name@, repo@),
{
    let n = chars_of(name);
    let gres = chars_of(".gresource");
    let schema = chars_of(".gschema.xml");
    let desktop = chars_of(".desktop");
    let mut r: Vec<String> = Vec::new();
    let ghost a = r@;
    if ends_with_chars(n.as_slice(), gres.as_slice()) {
        let share = chars_of("share");
        let rv = chars_of(repo);
        let d = join_path(share.as_slice(), rv.as_slice());
        r.push(string_of(d.as_slice()));
    }
    let ghost b = r@;
    if ends_with_chars(n.as_slice(), schema.as_slice()) {
        r.push("share/glib-2.0/schemas".to_string());
    }
    let ghost c = r@;
    if ends_with_chars(n.as_slice(), desktop.as_slice()) {
        r.push("share/applications".to_string());
    }
    proof {
        assert(r@.map_values(|s: String| s@) =~= data_destinations(name@, repo@));
    }
    r
}

/// Whether an entry of a package's `share/icons` directory is copied into
/// the icon theme: everything but the build files some projects keep
/// there.
pub fn is_icon_entry(name: &str) -> (r: bool)
    ensures
        r == !(name@ == "meson.build"@ || name@ == "CMakeLists.txt"@),
{
    let n = chars_of(name);
    !(eq_str(n.as_slice(), "meson.build") || eq_str(n.as_slice(), "CMakeLists.txt"))
}

/// What `install` does about a build system's toolchain before building.
pub enum Toolchain {
    /// The toolchain is on PATH already.
    Present,
    /// These system packages are installed first.
    Install(Vec<String>),
    /// The package manager has no packages for the build system.
    Unmapped,
}

/// The toolchain step of `install` for build system `bs` with package
/// manager `pm`, given the programs found on PATH (among `python3`,
/// `python` and the build system's probe). Python projects need an
/// interpreter, installed as `python3` when neither is found; other
/// projects need the packages the package manager maps the build system
/// to, installed when the probe is not found.
pub fn toolchain_plan(bs: &str, pm: &str, found: &[String]) -> (r: Toolchain)
    ensures
        if bs@ == "python"@ {
            if on_path(found@, "python3"@) || on_path(found@, "python"@) {
                r is Present
            } else {
                r matches Toolchain::Install(v) && views(v@) == seq!["python3"@]
            }
        } else {
            match system_packages(bs@, pm@) {
                None => r is Unmapped,
                Some(p) => if on_path(found@, probe(bs@)) {
                    r is Present
                } else {
                    r matches Toolchain::Install(v) && views(v@) == words(p)
                },
            }
        },
{
    let b = chars_of(bs);
    if eq_str(b.as_slice(), "python") {
        if is_on_path(found, "python3") || is_on_path(found, "python") {
            return Toolchain::Present;
        }
        let mut v: Vec<String> = Vec::new();
        v.push("python3".to_string());
        proof {
            assert(views(v@) =~= seq!["python3"@]);
        }
        return Toolchain::Install(v);
    }
    match build_system_packages(bs, pm) {
        None => Toolchain::Unmapped,
        Some(p) => {
            let probe_name = toolchain_probe(bs);
            if is_on_path(found, probe_name.as_str()) {
                Toolchain::Present
            } else {
                Toolchain::Install(split_words(p))
            }
        },
    }
}

/// Where the data files of a fresh build are looked for: an Electron
/// build moves its sources to `<install>/electron`; other builds leave
/// them in the clone.
pub fn data_source_dir(bs: &str, temp: &str, install_path: &str) -> (r: String)
    ensures
        r@ == (if bs@ == "electron"@ {
            path_join(install_path@, "electron"@)
        } else {
            temp@
        }),
{
    let b = chars_of(bs);
    if eq_str(b.as_slice(), "electron") {
        let ip = chars_of(install_path);
        let part = chars_of("electron");
        let p = join_path(ip.as_slice(), part.as_slice());
        string_of(p.as_slice())
    } else {
        temp.to_string()
    }
}

/// Rewriting a desktop entry keeps its lines and their order: the result
/// joins, with `\n`, one output line per input line, where an input line
/// that starts with `Exec=` becomes `Exec=` and the installed program, and
/// every other line (`TryExec=` among them) is kept as it is.
pub proof fn law_desktop_exec_keeps_other_lines(content: Seq<char>, exe: Seq<char>)
    ensures
        exists|outs: Seq<Seq<char>>|
            #![trigger join_lines(outs)]
            {
                &&& outs.len() == lines(content).len()
                &&& desktop_with_exec(content, exe) == join_lines(outs)
                &&& forall|i: int|
                    0 <= i < outs.len() ==> (if starts_with(#[trigger] lines(content)[i], "Exec="@) {
                        outs[i] == "Exec="@ + exe
                    } else {
                        outs[i] == lines(content)[i]
                    })
            },
{
    let outs = lines(content).map_values(|l: Seq<char>| exec_line(l, exe));
    assert(desktop_with_exec(content, exe) == join_lines(outs));
}

} // verus!
