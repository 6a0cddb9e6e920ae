//! Supplier names, clone URLs, superuser providers and system package
//! manager commands.
use vstd::prelude::*;

use crate::text::{chars_of, owned_strings, views, ends_with, ends_with_chars, eq_str, extend_chars, extend_str, string_of, trim_end_matches, trim_end_matches_chars, lead_ws, lower_ascii, lower_ascii_chars, trail_ws, trim, trim_start, trim_str};

verus! {

broadcast use vstd::string::group_string_axioms;

// ---------------------------------------------------------------------------
// Programs found on PATH

/// Whether `name` is among the programs found on PATH.
pub open spec fn on_path(installed: Seq<String>, name: Seq<char>) -> bool {
    exists|i: int| 0 <= i < installed.len() && #[trigger] installed[i]@ == name
}

/// Whether `name` is among the programs found on PATH.
pub fn is_on_path(installed: &[String], name: &str) -> (r: bool)
    ensures
        r == on_path(installed@, name@),
{
    let n = name.to_string();
    let mut i: usize = 0;
    while i < installed.len()
        invariant
            i <= installed@.len(),
            n@ == name@,
            forall|j: int| 0 <= j < i ==> installed@[j]@ != name@,
        decreases installed@.len() - i,
    {
        if installed[i] == n {
            return true;
        }
        i = i + 1;
    }
    false
}

// ---------------------------------------------------------------------------
// Superuser providers

/// Superuser provider used for privileged operations (symlinks in /usr/bin,
/// system icon installs, and system-package installs/removals).
#[derive(Clone, Copy, Debug, PartialEq, Eq, Structural)]
pub enum Superuser {
    Sudo,
    Pkexec,
    Doas,
}

impl Superuser {
    /// The program name of the provider.
    pub open spec fn name(self) -> Seq<char> {
        match self {
            Superuser::Sudo => "sudo"@,
            Superuser::Pkexec => "pkexec"@,
            Superuser::Doas => "doas"@,
        }
    }

    /// The first available provider: sudo, then pkexec, then doas.
    pub open spec fn detected(installed: Seq<String>) -> Option<Superuser> {
        if on_path(installed, "sudo"@) {
            Some(Superuser::Sudo)
        } else if on_path(installed, "pkexec"@) {
            Some(Superuser::Pkexec)
        } else if on_path(installed, "doas"@) {
            Some(Superuser::Doas)
        } else {
            None
        }
    }

    /// What `from_str` accepts: a provider name or `auto`, surrounding
    /// whitespace and ASCII case ignored.
    pub open spec fn parsed(s: Seq<char>, installed: Seq<String>) -> Option<Superuser> {
        let t = lower_ascii(trim(s));
        if t == "sudo"@ {
            Some(Superuser::Sudo)
        } else if t == "pkexec"@ {
            Some(Superuser::Pkexec)
        } else if t == "doas"@ {
            Some(Superuser::Doas)
        } else if t == "auto"@ {
            Superuser::detected(installed)
        } else {
            None
        }
    }

    /// Parse a provider name. Accepts `sudo`, `pkexec`, `doas`, and `auto`
    /// (the first available provider among the programs in `installed`).
    pub fn from_str(s: &str, installed: &[String]) -> (r: Option<Superuser>)
        ensures
            r == Superuser::parsed(s@, installed@),
    {
        let t = trim_str(s);
        let l = lower_ascii_chars(t.as_slice());
        if eq_str(l.as_slice(), "sudo") {
            Some(Superuser::Sudo)
        } else if eq_str(l.as_slice(), "pkexec") {
            Some(Superuser::Pkexec)
        } else if eq_str(l.as_slice(), "doas") {
            Some(Superuser::Doas)
        } else if eq_str(l.as_slice(), "auto") {
            Superuser::detect(installed)
        } else {
            None
        }
    }

    /// Detect the first available provider: sudo, then pkexec, then doas.
    pub fn detect(installed: &[String]) -> (r: Option<Superuser>)
        ensures
            r == Superuser::detected(installed@),
    {
        if is_on_path(installed, "sudo") {
            Some(Superuser::Sudo)
        } else if is_on_path(installed, "pkexec") {
            Some(Superuser::Pkexec)
        } else if is_on_path(installed, "doas") {
            Some(Superuser::Doas)
        } else {
            None
        }
    }

    /// The program name for this provider.
    pub fn program(&self) -> (r: &'static str)
        ensures
            r@ == self.name(),
    {
        match self {
            Superuser::Sudo => "sudo",
            Superuser::Pkexec => "pkexec",
            Superuser::Doas => "doas",
        }
    }

    /// The arguments of the command that checks the provider can elevate:
    /// `sudo -v`, `pkexec true`, `doas -n true`.
    pub open spec fn auth_check(self) -> Seq<Seq<char>> {
        match self {
            Superuser::Sudo => seq!["-v"@],
            Superuser::Pkexec => seq!["true"@],
            Superuser::Doas => seq!["-n"@, "true"@],
        }
    }

    /// The arguments passed to the provider to check that it can elevate.
    pub fn auth_args(&self) -> (r: Vec<String>)
        ensures
            r@.map_values(|a: String| a@) == self.auth_check(),
    {
        let mut r: Vec<String> = Vec::new();
        match self {
            Superuser::Sudo => {
                r.push("-v".to_string());
            },
            Superuser::Pkexec => {
                r.push("true".to_string());
            },
            Superuser::Doas => {
                r.push("-n".to_string());
                r.push("true".to_string());
            },
        }
        proof {
            assert(r@.map_values(|a: String| a@) =~= self.auth_check());
        }
        r
    }
}

impl Superuser {
    /// The command line that runs `args` under this provider: the
    /// provider's program followed by the arguments.
    pub fn command(&self, args: &[&str]) -> (r: Vec<String>)
        ensures
            views(r@) == seq![self.name()] + args@.map_values(|a: &str| a@),
    {
        let mut r: Vec<String> = Vec::new();
        r.push(self.program().to_string());
        let mut rest = owned_strings(args);
        let ghost h = r@;
        let ghost t = rest@;
        r.append(&mut rest);
        proof {
            assert(views(r@) =~= views(h) + views(t));
        }
        r
    }
}

/// The command that checks the provider in effect can elevate privileges:
/// its program with its check arguments.
pub fn superuser_auth(stored: Option<Superuser>) -> (r: Vec<String>)
    ensures
        views(r@) == seq![superuser_in_effect(stored).name()] + superuser_in_effect(stored).auth_check(),
{
    let su = superuser(stored);
    let mut r: Vec<String> = Vec::new();
    r.push(su.program().to_string());
    let mut rest = su.auth_args();
    let ghost h = r@;
    let ghost t = rest@;
    r.append(&mut rest);
    proof {
        assert(views(r@) =~= views(h) + views(t));
    }
    r
}

/// The provider in effect: the stored one, or sudo when none was stored.
pub open spec fn superuser_in_effect(stored: Option<Superuser>) -> Superuser {
    match stored {
        Some(s) => s,
        None => Superuser::Sudo,
    }
}

/// The superuser provider of a run: unset until the first `set`, which
/// fixes it for the rest of the run.
pub struct SuperuserSetting {
    stored: Option<Superuser>,
}

impl SuperuserSetting {
    /// What is stored: none before the first `set`.
    pub closed spec fn stored(&self) -> Option<Superuser> {
        self.stored
    }

    /// Nothing set yet.
    pub fn new() -> (r: SuperuserSetting)
        ensures
            r.stored() is None,
    {
        SuperuserSetting { stored: None }
    }

    /// Resolve `value` against the programs found on PATH and store the
    /// provider, unless one is stored already: only the first call of a
    /// run counts. Returns whether `value` was recognised.
    pub fn set(&mut self, value: &str, installed: &[String]) -> (recognised: bool)
        ensures
            recognised == resolved_superuser(value@, installed@).1,
            final(self).stored() == match old(self).stored() {
                Some(s) => Some(s),
                None => Some(resolved_superuser(value@, installed@).0),
            },
    {
        let (resolved, recognised) = resolve_superuser(value, installed);
        if self.stored.is_none() {
            self.stored = Some(resolved);
        }
        recognised
    }

    /// The provider in effect: the stored one, `sudo` when none was set.
    pub fn get(&self) -> (r: Superuser)
        ensures
            r == superuser_in_effect(self.stored()),
    {
        superuser(self.stored)
    }
}

/// The provider in effect is the one the first `set` of the run resolved
/// (`sudo` before any): later calls of `set` do not change it.
pub proof fn law_superuser_set_once(
    first: Seq<char>,
    later: Seq<char>,
    installed_first: Seq<String>,
    installed_later: Seq<String>,
    before: Option<Superuser>,
)
    requires
        before is None,
    ensures
        ({
            let after_first = match before {
                Some(s) => Some(s),
                None => Some(resolved_superuser(first, installed_first).0),
            };
            let after_later = match after_first {
                Some(s) => Some(s),
                None => Some(resolved_superuser(later, installed_later).0),
            };
            &&& superuser_in_effect(before) == Superuser::Sudo
            &&& superuser_in_effect(after_later) == resolved_superuser(first, installed_first).0
        }),
{
}

/// Parsing the name of a provider gives that provider back.
pub proof fn law_superuser_name_roundtrip(su: Superuser, installed: Seq<String>)
    ensures
        Superuser::parsed(su.name(), installed) == Some(su),
{
    reveal_strlit("sudo");
    reveal_strlit("pkexec");
    reveal_strlit("doas");
    reveal_strlit("auto");
    let n = su.name();
    assert(lead_ws(n) == 0);
    assert(trail_ws(n) == 0);
    assert(trim_start(n) =~= n);
    assert(trim(n) =~= n);
    assert(lower_ascii(n) =~= n);
}


/// The provider chosen for a configured value: a named provider when the
/// value names one, otherwise the first available provider, otherwise sudo.
/// The flag is false when the value was neither a provider nor `auto`
/// (the caller warns about it).
pub open spec fn resolved_superuser(value: Seq<char>, installed: Seq<String>) -> (Superuser, bool) {
    let fallback = match Superuser::detected(installed) {
        Some(s) => s,
        None => Superuser::Sudo,
    };
    if lower_ascii(trim(value)) == "auto"@ {
        (fallback, true)
    } else {
        match Superuser::parsed(value, installed) {
            Some(s) => (s, true),
            None => (fallback, false),
        }
    }
}

/// Resolve the configured superuser provider (the decision `set_superuser`
/// stores for the process): `auto` and unrecognised values fall back to
/// auto-detection, then to sudo. The flag tells whether the value was
/// recognised.
pub fn resolve_superuser(value: &str, installed: &[String]) -> (r: (Superuser, bool))
    ensures
        r == resolved_superuser(value@, installed@),
{
    let t = trim_str(value);
    let l = lower_ascii_chars(t.as_slice());
    let fallback = match Superuser::detect(installed) {
        Some(s) => s,
        None => Superuser::Sudo,
    };
    if eq_str(l.as_slice(), "auto") {
        (fallback, true)
    } else {
        match Superuser::from_str(value, installed) {
            Some(s) => (s, true),
            None => (fallback, false),
        }
    }
}

/// The provider in effect: the stored one, or sudo when none was stored.
pub fn superuser(stored: Option<Superuser>) -> (r: Superuser)
    ensures
        r == superuser_in_effect(stored),
{
    match stored {
        Some(s) => s,
        None => Superuser::Sudo,
    }
}

// ---------------------------------------------------------------------------
// Package and supplier names

/// `self` stands for gitpkg's own repository.
pub fn resolve_self_alias(arg: &str) -> (r: String)
    ensures
        r@ == (if arg@ == "self"@ {
            "el1lovescomputers/gitpkg"@
        } else {
            arg@
        }),
{
    let v = chars_of(arg);
    if eq_str(v.as_slice(), "self") {
        "el1lovescomputers/gitpkg".to_string()
    } else {
        arg.to_string()
    }
}

/// The supplier domain that a shortname stands for; other names unchanged.
pub open spec fn supplier_domain_of(arg: Seq<char>) -> Seq<char> {
    if arg == "gh"@ || arg == "github"@ {
        "github.com"@
    } else if arg == "gl"@ || arg == "gitlab"@ {
        "gitlab.com"@
    } else if arg == "cb"@ || arg == "codeberg"@ {
        "codeberg.org"@
    } else if arg == "glg"@ || arg == "gnome"@ || arg == "gnome.gitlab"@ || arg == "gnome-gitlab"@
        || arg == "gitlab.gnome"@ || arg == "gitlab-gnome"@ {
        "gitlab.gnome.org"@
    } else {
        arg
    }
}

/// Expand a supplier shortname (`gh`, `gl`, `cb`, `glg`, ...) to its domain.
pub fn resolve_supplier_shortname(arg: &str) -> (r: String)
    ensures
        r@ == supplier_domain_of(arg@),
{
    let v = chars_of(arg);
    let a = v.as_slice();
    if eq_str(a, "gh") || eq_str(a, "github") {
        "github.com".to_string()
    } else if eq_str(a, "gl") || eq_str(a, "gitlab") {
        "gitlab.com".to_string()
    } else if eq_str(a, "cb") || eq_str(a, "codeberg") {
        "codeberg.org".to_string()
    } else if eq_str(a, "glg") || eq_str(a, "gnome") || eq_str(a, "gnome.gitlab") || eq_str(
        a,
        "gnome-gitlab",
    ) || eq_str(a, "gitlab.gnome") || eq_str(a, "gitlab-gnome") {
        "gitlab.gnome.org".to_string()
    } else {
        arg.to_string()
    }
}

/// Expanding a shortname twice is the same as expanding it once.
pub proof fn law_supplier_shortname_idempotent(arg: Seq<char>)
    ensures
        supplier_domain_of(supplier_domain_of(arg)) == supplier_domain_of(arg),
{
    reveal_strlit("gh");
    reveal_strlit("github");
    reveal_strlit("gl");
    reveal_strlit("gitlab");
    reveal_strlit("cb");
    reveal_strlit("codeberg");
    reveal_strlit("glg");
    reveal_strlit("gnome");
    reveal_strlit("gnome.gitlab");
    reveal_strlit("gnome-gitlab");
    reveal_strlit("gitlab.gnome");
    reveal_strlit("gitlab-gnome");
    reveal_strlit("github.com");
    reveal_strlit("gitlab.com");
    reveal_strlit("codeberg.org");
    reveal_strlit("gitlab.gnome.org");
    let shorts = seq![
        "gh"@,
        "github"@,
        "gl"@,
        "gitlab"@,
        "cb"@,
        "codeberg"@,
        "glg"@,
        "gnome"@,
        "gnome.gitlab"@,
        "gnome-gitlab"@,
        "gitlab.gnome"@,
        "gitlab-gnome"@,
    ];
    let domains = seq!["github.com"@, "gitlab.com"@, "codeberg.org"@, "gitlab.gnome.org"@];
    assert forall|i: int, j: int| 0 <= i < 4 && 0 <= j < 12 implies domains[i] != shorts[j] by {
        if domains[i].len() == shorts[j].len() {
            assert(domains[i][0] != shorts[j][0]);
        }
    }
    assert(domains[0] == "github.com"@);
    assert(domains[1] == "gitlab.com"@);
    assert(domains[2] == "codeberg.org"@);
    assert(domains[3] == "gitlab.gnome.org"@);
    assert(shorts[0] == "gh"@ && shorts[1] == "github"@ && shorts[2] == "gl"@ && shorts[3] == "gitlab"@);
    assert(shorts[4] == "cb"@ && shorts[5] == "codeberg"@ && shorts[6] == "glg"@ && shorts[7] == "gnome"@);
    assert(shorts[8] == "gnome.gitlab"@ && shorts[9] == "gnome-gitlab"@ && shorts[10] == "gitlab.gnome"@);
    assert(shorts[11] == "gitlab-gnome"@);
}

/// The supplier name without its top-level domain: every trailing `.com`,
/// then `.org`, `.net`, `.io` and `.dev` removed in that order.
pub open spec fn normalized_supplier(s: Seq<char>) -> Seq<char> {
    trim_end_matches(
        trim_end_matches(
            trim_end_matches(trim_end_matches(trim_end_matches(s, ".com"@), ".org"@), ".net"@),
            ".io"@,
        ),
        ".dev"@,
    )
}

pub fn normalize_supplier(supplier: &str) -> (r: String)
    ensures
        r@ == normalized_supplier(supplier@),
{
    let v = chars_of(supplier);
    let com = chars_of(".com");
    let org = chars_of(".org");
    let net = chars_of(".net");
    let io = chars_of(".io");
    let dev = chars_of(".dev");
    let a = trim_end_matches_chars(v.as_slice(), com.as_slice());
    let b = trim_end_matches_chars(a.as_slice(), org.as_slice());
    let c = trim_end_matches_chars(b.as_slice(), net.as_slice());
    let d = trim_end_matches_chars(c.as_slice(), io.as_slice());
    let e = trim_end_matches_chars(d.as_slice(), dev.as_slice());
    string_of(e.as_slice())
}

// ---------------------------------------------------------------------------
// Clone URLs

/// The repository name with a `.git` suffix (added unless already there).
pub open spec fn repo_dot_git(repo: Seq<char>) -> Seq<char> {
    if ends_with(repo, ".git"@) {
        repo
    } else {
        repo + ".git"@
    }
}

/// The supplier domain, GitHub when none is given.
pub open spec fn domain_or_github(supplier: Option<&str>) -> Seq<char> {
    match supplier {
        Some(d) => d@,
        None => "github.com"@,
    }
}

/// The clone URL that `build_git_url_with` builds.
pub open spec fn git_url(
    user: Seq<char>,
    repo: Seq<char>,
    supplier: Option<&str>,
    ssh: bool,
    remote_url: Option<&str>,
) -> Seq<char> {
    if remote_url is Some && remote_url->0@.len() > 0 {
        remote_url->0@
    } else if ssh {
        "git@"@ + domain_or_github(supplier) + ":"@ + user + "/"@ + repo_dot_git(repo)
    } else {
        "https://"@ + domain_or_github(supplier) + "/"@ + user + "/"@ + repo_dot_git(repo)
    }
}

fn repo_with_git_suffix(repo: &str) -> (r: Vec<char>)
    ensures
        r@ == repo_dot_git(repo@),
{
    let mut v = chars_of(repo);
    let suffix = chars_of(".git");
    if !ends_with_chars(v.as_slice(), suffix.as_slice()) {
        extend_chars(&mut v, suffix.as_slice());
    }
    v
}

/// Build the clone URL for a repository.
///
/// Precedence (highest first):
/// 1. `remote_url`: a previously stored remote, reused when non-empty.
/// 2. `ssh`: a `git@<supplier>:<user>/<repo>.git` URL.
/// 3. default: `https://<supplier>/<user>/<repo>.git`.
pub fn build_git_url_with(
    user: &str,
    repo: &str,
    supplier: Option<&str>,
    ssh: bool,
    remote_url: Option<&str>,
) -> (r: String)
    ensures
        r@ == git_url(user@, repo@, supplier, ssh, remote_url),
{
    if let Some(url) = remote_url {
        if !url.is_empty() {
            return url.to_string();
        }
    }
    if ssh {
        let mut v: Vec<char> = Vec::new();
        extend_str(&mut v, "git@");
        match supplier {
            Some(d) => extend_str(&mut v, d),
            None => extend_str(&mut v, "github.com"),
        }
        extend_str(&mut v, ":");
        extend_str(&mut v, user);
        extend_str(&mut v, "/");
        let rn = repo_with_git_suffix(repo);
        extend_chars(&mut v, rn.as_slice());
        return string_of(v.as_slice());
    }
    build_git_url_inner(user, repo, supplier, false)
}

fn build_git_url_inner(user: &str, repo: &str, supplier: Option<&str>, _unused: bool) -> (r: String)
    ensures
        r@ == "https://"@ + domain_or_github(supplier) + "/"@ + user@ + "/"@ + repo_dot_git(repo@),
{
    let mut v: Vec<char> = Vec::new();
    extend_str(&mut v, "https://");
    match supplier {
        Some(d) => extend_str(&mut v, d),
        None => extend_str(&mut v, "github.com"),
    }
    extend_str(&mut v, "/");
    extend_str(&mut v, user);
    extend_str(&mut v, "/");
    let rn = repo_with_git_suffix(repo);
    extend_chars(&mut v, rn.as_slice());
    string_of(v.as_slice())
}

/// The `origin` URL that `git remote get-url origin` reported: its output
/// trimmed, or none when git failed or printed nothing.
pub fn parse_remote_url(success: bool, stdout: &str) -> (r: Option<String>)
    ensures
        r is Some <==> success && trim(stdout@).len() > 0,
        r matches Some(u) ==> u@ == trim(stdout@),
{
    if !success {
        return None;
    }
    let t = trim_str(stdout);
    if t.len() == 0 {
        None
    } else {
        Some(string_of(t.as_slice()))
    }
}

// ---------------------------------------------------------------------------
// System package managers

/// The package managers gitpkg knows, in the order they are looked for.
pub open spec fn package_managers() -> Seq<Seq<char>> {
    seq!["apt"@, "dnf"@, "yum"@, "pacman"@, "zypper"@, "apk"@, "nix-env"@]
}

fn package_manager_name(i: usize) -> (r: &'static str)
    requires
        i < 7,
    ensures
        r@ == package_managers()[i as int],
{
    if i == 0 {
        "apt"
    } else if i == 1 {
        "dnf"
    } else if i == 2 {
        "yum"
    } else if i == 3 {
        "pacman"
    } else if i == 4 {
        "zypper"
    } else if i == 5 {
        "apk"
    } else {
        "nix-env"
    }
}

/// The first known package manager found among the programs on PATH.
pub fn detect_package_manager(installed: &[String]) -> (r: Option<&'static str>)
    ensures
        r matches Some(pm) ==> exists|i: int|
            0 <= i < 7 && pm@ == package_managers()[i] && on_path(installed@, package_managers()[i])
                && forall|j: int| 0 <= j < i ==> !on_path(installed@, package_managers()[j]),
        r is None ==> forall|j: int| 0 <= j < 7 ==> !on_path(installed@, package_managers()[j]),
{
    let mut i: usize = 0;
    while i < 7
        invariant
            i <= 7,
            forall|j: int| 0 <= j < i ==> !on_path(installed@, package_managers()[j]),
        decreases 7 - i,
    {
        let pm = package_manager_name(i);
        if is_on_path(installed, pm) {
            return Some(pm);
        }
        i = i + 1;
    }
    None
}


/// The command that installs `pkg` with the package manager `pm`, or none
/// for an unknown package manager.
pub open spec fn install_args(pm: Seq<char>, pkg: Seq<char>) -> Option<Seq<Seq<char>>> {
    if pm == "apt"@ {
        Some(seq!["apt"@, "install"@, "-y"@, pkg])
    } else if pm == "dnf"@ {
        Some(seq!["dnf"@, "install"@, "-y"@, pkg])
    } else if pm == "yum"@ {
        Some(seq!["yum"@, "install"@, "-y"@, pkg])
    } else if pm == "pacman"@ {
        Some(seq!["pacman"@, "-Sy"@, "--noconfirm"@, pkg])
    } else if pm == "zypper"@ {
        Some(seq!["zypper"@, "install"@, "-y"@, pkg])
    } else if pm == "apk"@ {
        Some(seq!["apk"@, "add"@, pkg])
    } else if pm == "nix-env"@ {
        Some(seq!["nix-env"@, "-iA"@, pkg])
    } else {
        None
    }
}

/// The command that removes `pkg` with the package manager `pm`, or none
/// for an unknown package manager.
pub open spec fn remove_args(pm: Seq<char>, pkg: Seq<char>) -> Option<Seq<Seq<char>>> {
    if pm == "apt"@ {
        Some(seq!["apt"@, "remove"@, "-y"@, pkg])
    } else if pm == "dnf"@ {
        Some(seq!["dnf"@, "remove"@, "-y"@, pkg])
    } else if pm == "yum"@ {
        Some(seq!["yum"@, "remove"@, "-y"@, pkg])
    } else if pm == "pacman"@ {
        Some(seq!["pacman"@, "-R"@, "--noconfirm"@, pkg])
    } else if pm == "zypper"@ {
        Some(seq!["zypper"@, "remove"@, "-y"@, pkg])
    } else if pm == "apk"@ {
        Some(seq!["apk"@, "del"@, pkg])
    } else if pm == "nix-env"@ {
        Some(seq!["nix-env"@, "-e"@, pkg])
    } else {
        None
    }
}

/// The command (run under the superuser provider) that installs a system
/// package; none for an unsupported package manager.
pub fn install_command(pm: &str, package_name: &str) -> (r: Option<Vec<String>>)
    ensures
        match r {
            Some(v) => install_args(pm@, package_name@) == Some(views(v@)),
            None => install_args(pm@, package_name@) is None,
        },
{
    let p = chars_of(pm);
    let a = p.as_slice();
    let v = if eq_str(a, "apt") {
        owned_strings(&["apt", "install", "-y", package_name])
    } else if eq_str(a, "dnf") {
        owned_strings(&["dnf", "install", "-y", package_name])
    } else if eq_str(a, "yum") {
        owned_strings(&["yum", "install", "-y", package_name])
    } else if eq_str(a, "pacman") {
        owned_strings(&["pacman", "-Sy", "--noconfirm", package_name])
    } else if eq_str(a, "zypper") {
        owned_strings(&["zypper", "install", "-y", package_name])
    } else if eq_str(a, "apk") {
        owned_strings(&["apk", "add", package_name])
    } else if eq_str(a, "nix-env") {
        owned_strings(&["nix-env", "-iA", package_name])
    } else {
        return None;
    };
    Some(v)
}

/// The command (run under the superuser provider) that removes a system
/// package; none for an unsupported package manager.
pub fn remove_command(pm: &str, package_name: &str) -> (r: Option<Vec<String>>)
    ensures
        match r {
            Some(v) => remove_args(pm@, package_name@) == Some(views(v@)),
            None => remove_args(pm@, package_name@) is None,
        },
{
    let p = chars_of(pm);
    let a = p.as_slice();
    let v = if eq_str(a, "apt") {
        owned_strings(&["apt", "remove", "-y", package_name])
    } else if eq_str(a, "dnf") {
        owned_strings(&["dnf", "remove", "-y", package_name])
    } else if eq_str(a, "yum") {
        owned_strings(&["yum", "remove", "-y", package_name])
    } else if eq_str(a, "pacman") {
        owned_strings(&["pacman", "-R", "--noconfirm", package_name])
    } else if eq_str(a, "zypper") {
        owned_strings(&["zypper", "remove", "-y", package_name])
    } else if eq_str(a, "apk") {
        owned_strings(&["apk", "del", package_name])
    } else if eq_str(a, "nix-env") {
        owned_strings(&["nix-env", "-e", package_name])
    } else {
        return None;
    };
    Some(v)
}

/// Installing and removing a system package name the same package
/// manager and package, with the same shape, and differ in the verb:
/// installing uses an install verb (`install`, `-Sy`, `add`, `-iA`),
/// removing a remove verb (`remove`, `-R`, `del`, `-e`). Exactly the seven
/// known package managers have both commands; on Fedora that is
/// `dnf install -y <package>`.
pub proof fn law_install_and_remove_commands(pm: Seq<char>, pkg: Seq<char>)
    ensures
        install_args(pm, pkg) is Some <==> remove_args(pm, pkg) is Some,
        install_args(pm, pkg) is Some <==> (pm == "apt"@ || pm == "dnf"@ || pm == "yum"@ || pm
            == "pacman"@ || pm == "zypper"@ || pm == "apk"@ || pm == "nix-env"@),
        install_args(pm, pkg) is Some ==> ({
            let i = install_args(pm, pkg)->0;
            let r = remove_args(pm, pkg)->0;
            &&& i.len() == r.len()
            &&& i.len() >= 3
            &&& i[0] == pm && r[0] == pm
            &&& i.last() == pkg && r.last() == pkg
            &&& i[1] != r[1]
            &&& (i[1] == "install"@ || i[1] == "-Sy"@ || i[1] == "add"@ || i[1] == "-iA"@)
            &&& (r[1] == "remove"@ || r[1] == "-R"@ || r[1] == "del"@ || r[1] == "-e"@)
            &&& forall|k: int| 1 < k < i.len() - 1 ==> i[k] == r[k]
        }),
        install_args("apt"@, pkg) == Some(seq!["apt"@, "install"@, "-y"@, pkg]),
        install_args("dnf"@, pkg) == Some(seq!["dnf"@, "install"@, "-y"@, pkg]),
        install_args("yum"@, pkg) == Some(seq!["yum"@, "install"@, "-y"@, pkg]),
        install_args("zypper"@, pkg) == Some(seq!["zypper"@, "install"@, "-y"@, pkg]),
        install_args("pacman"@, pkg) == Some(seq!["pacman"@, "-Sy"@, "--noconfirm"@, pkg]),
        install_args("apk"@, pkg) == Some(seq!["apk"@, "add"@, pkg]),
        install_args("nix-env"@, pkg) == Some(seq!["nix-env"@, "-iA"@, pkg]),
{
    reveal_strlit("apt");
    reveal_strlit("dnf");
    reveal_strlit("yum");
    reveal_strlit("pacman");
    reveal_strlit("zypper");
    reveal_strlit("apk");
    reveal_strlit("nix-env");
    reveal_strlit("install");
    reveal_strlit("remove");
    reveal_strlit("-Sy");
    reveal_strlit("-R");
    reveal_strlit("add");
    reveal_strlit("del");
    reveal_strlit("-iA");
    reveal_strlit("-e");
    assert("zypper"@[0] != "pacman"@[0]);
    assert("apk"@[2] != "apt"@[2] && "apk"@[0] != "dnf"@[0] && "apk"@[0] != "yum"@[0]);
    assert("apk"@.len() != "pacman"@.len() && "apk"@.len() != "zypper"@.len());
    assert("nix-env"@.len() != "apt"@.len() && "nix-env"@.len() != "dnf"@.len());
    assert("nix-env"@.len() != "yum"@.len() && "nix-env"@.len() != "pacman"@.len());
    assert("nix-env"@.len() != "zypper"@.len() && "nix-env"@.len() != "apk"@.len());
    assert("install"@[0] != "remove"@[0]);
    assert("-Sy"@[1] != "-R"@[1]);
    assert("add"@[0] != "del"@[0]);
    assert("-iA"@[1] != "-e"@[1]);
    if install_args(pm, pkg) is Some {
        let i = install_args(pm, pkg)->0;
        let r = remove_args(pm, pkg)->0;
        if pm == "pacman"@ {
            assert(pm != "zypper"@);
        } else if pm == "zypper"@ {
            assert(pm != "pacman"@);
        }
        assert(forall|k: int| 1 < k < i.len() - 1 ==> i[k] == r[k]);
    }
}

/// The SSH and HTTPS clone URLs name the same repository path
/// `user/<repo>.git`: the SSH URL is `git@<domain>:` and that path, the
/// HTTPS URL `https://<domain>/` and that path, the domain being the
/// supplier's (GitHub's when none is given). The path ends in `.git`
/// exactly once: a repository already ending in `.git` is not suffixed
/// again. A stored non-empty remote URL is used as it is.
pub proof fn law_clone_urls_share_path(
    user: Seq<char>,
    repo: Seq<char>,
    supplier: Option<&str>,
    remote_url: Option<&str>,
)
    ensures
        ({
            let domain = match supplier {
                Some(d) => d@,
                None => "github.com"@,
            };
            let p = user + "/"@ + (if ends_with(repo, ".git"@) {
                repo
            } else {
                repo + ".git"@
            });
            &&& git_url(user, repo, supplier, true, None) == "git@"@ + domain + ":"@ + p
            &&& git_url(user, repo, supplier, false, None) == "https://"@ + domain + "/"@ + p
            &&& ends_with(p, ".git"@)
            &&& p.take(p.len() - 4) == user + "/"@ + (if ends_with(repo, ".git"@) {
                repo.take(repo.len() - 4)
            } else {
                repo
            })
        }),
        remote_url is Some && remote_url->0@.len() > 0 ==> git_url(user, repo, supplier, true, remote_url)
            == remote_url->0@ && git_url(user, repo, supplier, false, remote_url) == remote_url->0@,
{
    reveal_strlit(".git");
    let q = if ends_with(repo, ".git"@) {
        repo
    } else {
        repo + ".git"@
    };
    let p = user + "/"@ + q;
    if ends_with(repo, ".git"@) {
        assert(p.skip(p.len() - 4) =~= repo.skip(repo.len() - 4));
        assert(p.take(p.len() - 4) =~= user + "/"@ + repo.take(repo.len() - 4));
    } else {
        assert(p.skip(p.len() - 4) =~= ".git"@);
        assert(p.take(p.len() - 4) =~= user + "/"@ + repo);
    }
    assert("git@"@ + domain_or_github(supplier) + ":"@ + user + "/"@ + repo_dot_git(repo) =~= "git@"@
        + domain_or_github(supplier) + ":"@ + p);
    assert("https://"@ + domain_or_github(supplier) + "/"@ + user + "/"@ + repo_dot_git(repo)
        =~= "https://"@ + domain_or_github(supplier) + "/"@ + p);
}

} // verus!
