//! User configuration: the defaults it gives the CLI flags, and where it
//! lives.
use vstd::prelude::*;

use crate::package::{join_path, opt_string_view, path_join};
use crate::text::{chars_eq, chars_of, string_of};

verus! {

broadcast use vstd::string::group_string_axioms;

/// The superuser provider a config file names when it names none.
pub fn default_superuser() -> (r: String)
    ensures
        r@ == "auto"@,
{
    "auto".to_string()
}

/// User configuration loaded from `~/.config/gitpkg/config.toml`.
///
/// Every field mirrors a CLI flag and acts as its default. An explicit CLI
/// flag always overrides the config value.
#[derive(Debug)]
pub struct Config {
    pub system: bool,
    pub ssh: bool,
    pub remove_deps: bool,
    pub verbose: bool,
    pub submodules: bool,
    /// Superuser provider: "sudo", "pkexec", "doas", or "auto".
    pub superuser: String,
    /// JAVA_HOME used for gradle builds. Defaults to the ambient JDK when unset.
    pub java_home: Option<String>,
    /// Username per supplier domain, used when migrating packages, e.g.
    /// `("codeberg.org", "el1lovescomputers")`.
    pub forge_usernames: Vec<(String, String)>,
}

impl Default for Config {
    /// Every flag off, the provider `auto` (the first one found), no
    /// JAVA_HOME, no usernames: the settings when there is no config file.
    fn default() -> (r: Config)
        ensures
            !r.system && !r.ssh && !r.remove_deps && !r.verbose && !r.submodules,
            r.superuser@ == "auto"@,
            r.java_home is None,
            r.forge_usernames@.len() == 0,
    {
        Config {
            system: false,
            ssh: false,
            remove_deps: false,
            verbose: false,
            submodules: false,
            superuser: default_superuser(),
            java_home: None,
            forge_usernames: Vec::new(),
        }
    }
}

/// The username configured for `supplier`: the first mapping for it.
pub open spec fn username_for(m: Seq<(String, String)>, supplier: Seq<char>) -> Option<Seq<char>>
    decreases m.len(),
{
    if m.len() == 0 {
        None
    } else if m[0].0@ == supplier {
        Some(m[0].1@)
    } else {
        username_for(m.drop_first(), supplier)
    }
}

impl Config {
    /// The configuration a parsed config file gives: its values as they
    /// are, except that an empty `java_home` counts as unset.
    pub fn from_file(
        system: bool,
        ssh: bool,
        remove_deps: bool,
        verbose: bool,
        submodules: bool,
        superuser: String,
        java_home: Option<String>,
        forge_usernames: Vec<(String, String)>,
    ) -> (r: Config)
        ensures
            r.system == system,
            r.ssh == ssh,
            r.remove_deps == remove_deps,
            r.verbose == verbose,
            r.submodules == submodules,
            r.superuser == superuser,
            opt_string_view(r.java_home) == match java_home {
                Some(j) => if j@.len() > 0 {
                    Some(j@)
                } else {
                    None
                },
                None => None,
            },
            r.forge_usernames == forge_usernames,
    {
        let java_home = match java_home {
            Some(j) => if j.as_str().is_empty() {
                None
            } else {
                Some(j)
            },
            None => None,
        };
        Config { system, ssh, remove_deps, verbose, submodules, superuser, java_home, forge_usernames }
    }

    /// The username configured for a supplier domain.
    pub fn forge_username(&self, supplier: &str) -> (r: Option<String>)
        ensures
            opt_string_view(r) == username_for(self.forge_usernames@, supplier@),
    {
        let sv = chars_of(supplier);
        let mut i: usize = 0;
        proof {
            assert(self.forge_usernames@.skip(0) =~= self.forge_usernames@);
        }
        while i < self.forge_usernames.len()
            invariant
                i <= self.forge_usernames@.len(),
                sv@ == supplier@,
                username_for(self.forge_usernames@, supplier@) == username_for(
                    self.forge_usernames@.skip(i as int),
                    supplier@,
                ),
            decreases self.forge_usernames@.len() - i,
        {
            proof {
                assert(self.forge_usernames@.skip(i as int).drop_first() =~= self.forge_usernames@.skip(
                    i + 1,
                ));
                assert(self.forge_usernames@.skip(i as int)[0] == self.forge_usernames@[i as int]);
            }
            let k = chars_of(self.forge_usernames[i].0.as_str());
            if chars_eq(k.as_slice(), sv.as_slice()) {
                return Some(self.forge_usernames[i].1.clone());
            }
            i = i + 1;
        }
        proof {
            assert(self.forge_usernames@.skip(i as int).len() == 0);
        }
        None
    }
}

/// `$XDG_CONFIG_HOME/gitpkg/config.toml` when that variable is set and not
/// empty, otherwise `<home>/.config/gitpkg/config.toml`.
pub open spec fn config_file_path(xdg: Option<&str>, home: Option<&str>) -> Option<Seq<char>> {
    if xdg is Some && xdg->0@.len() > 0 {
        Some(path_join(path_join(xdg->0@, "gitpkg"@), "config.toml"@))
    } else {
        match home {
            Some(h) => Some(path_join(path_join(path_join(h@, ".config"@), "gitpkg"@), "config.toml"@)),
            None => None,
        }
    }
}

/// Path to the config file, given the values of `XDG_CONFIG_HOME` and
/// `HOME`.
pub fn config_path(xdg: Option<&str>, home: Option<&str>) -> (r: Option<String>)
    ensures
        opt_string_view(r) == config_file_path(xdg, home),
{
    let gitpkg = chars_of("gitpkg");
    let file = chars_of("config.toml");
    if let Some(x) = xdg {
        if !x.is_empty() {
            let xv = chars_of(x);
            let a = join_path(xv.as_slice(), gitpkg.as_slice());
            let b = join_path(a.as_slice(), file.as_slice());
            return Some(string_of(b.as_slice()));
        }
    }
    match home {
        Some(h) => {
            let hv = chars_of(h);
            let cfg = chars_of(".config");
            let a = join_path(hv.as_slice(), cfg.as_slice());
            let b = join_path(a.as_slice(), gitpkg.as_slice());
            let c = join_path(b.as_slice(), file.as_slice());
            Some(string_of(c.as_slice()))
        },
        None => None,
    }
}


/// The settings a run works with: each flag given on the command line, or
/// else the configured default.
#[derive(Debug)]
pub struct Settings {
    pub verbose: bool,
    pub system_wide: bool,
    pub ssh: bool,
    pub remove_deps: bool,
    pub submodules: bool,
    pub superuser: String,
    pub java_home: Option<String>,
}

/// Combine the command line with the configuration: a switch is on when
/// either turns it on, and a value given on the command line wins over the
/// configured one.
pub fn effective_settings(
    cli_verbose: bool,
    cli_system: bool,
    cli_ssh: bool,
    cli_remove_deps: bool,
    cli_submodules: bool,
    cli_superuser: Option<&str>,
    cli_java_home: Option<&str>,
    cfg: &Config,
) -> (r: Settings)
    ensures
        r.verbose == (cli_verbose || cfg.verbose),
        r.system_wide == (cli_system || cfg.system),
        r.ssh == (cli_ssh || cfg.ssh),
        r.remove_deps == (cli_remove_deps || cfg.remove_deps),
        r.submodules == (cli_submodules || cfg.submodules),
        r.superuser@ == match cli_superuser {
            Some(s) => s@,
            None => cfg.superuser@,
        },
        opt_string_view(r.java_home) == match cli_java_home {
            Some(j) => Some(j@),
            None => opt_string_view(cfg.java_home),
        },
{
    let superuser = match cli_superuser {
        Some(s) => s.to_string(),
        None => cfg.superuser.clone(),
    };
    let java_home = match cli_java_home {
        Some(j) => Some(j.to_string()),
        None => match &cfg.java_home {
            Some(j) => Some(j.clone()),
            None => None,
        },
    };
    Settings {
        verbose: cli_verbose || cfg.verbose,
        system_wide: cli_system || cfg.system,
        ssh: cli_ssh || cfg.ssh,
        remove_deps: cli_remove_deps || cfg.remove_deps,
        submodules: cli_submodules || cfg.submodules,
        superuser,
        java_home,
    }
}

} // verus!
