//! Where the configuration file is looked for, and what is known of it between reloads.
//!
//! The environment and the file system are read by the caller; this module decides
//! from what was read.

use vstd::prelude::*;

use crate::config::error::ConfigError;
use crate::config::{copy_opt, opt_view, Config};
use crate::text::{copy_str, push_char, push_str};

verus! {

// ---------------------------------------------------------------------------
// Discovery
// ---------------------------------------------------------------------------

/// `base` joined with the relative path `name`, as `PathBuf::join` joins them: a
/// separator goes between the two unless `base` is empty or already ends in one.
pub open spec fn join_path(base: Seq<char>, name: Seq<char>) -> Seq<char> {
    if base.len() == 0 || base.last() == '/' {
        base + name
    } else {
        base + seq!['/'] + name
    }
}

/// The configuration file inside a configuration directory.
pub open spec fn config_path_in_spec(config_home: Seq<char>) -> Seq<char> {
    join_path(join_path(config_home, "nova"@), "config.toml"@)
}

/// Which file the configuration is read from: the explicit one, else the one under the
/// XDG configuration directory, else the one under `~/.config`.
pub open spec fn discovered_path(
    nova_config: Option<Seq<char>>,
    xdg_config_home: Option<Seq<char>>,
    home: Option<Seq<char>>,
) -> Option<Seq<char>> {
    match nova_config {
        Some(p) => Some(p),
        None => match xdg_config_home {
            Some(x) => Some(config_path_in_spec(x)),
            None => match home {
                Some(h) => Some(config_path_in_spec(join_path(h, ".config"@))),
                None => None,
            },
        },
    }
}

/// Joins the relative path `name` onto `base`.
pub fn join_path_str(base: &str, name: &str) -> (r: String)
    ensures
        r@ == join_path(base@, name@),
{
    let mut r = copy_str(base);
    let n = base.unicode_len();
    if n > 0 && base.get_char(n - 1) != '/' {
        push_char(&mut r, '/');
    }
    push_str(&mut r, name);
    proof {
        if base@.len() == 0 || base@.last() == '/' {
            assert(r@ =~= base@ + name@);
        } else {
            assert(r@ =~= base@ + seq!['/'] + name@);
        }
    }
    r
}

/// The configuration file inside the configuration directory `config_home`.
pub fn config_path_in(config_home: &str) -> (r: String)
    ensures
        r@ == config_path_in_spec(config_home@),
{
    let dir = join_path_str(config_home, "nova");
    join_path_str(dir.as_str(), "config.toml")
}

/// The configuration file named by the values of `NOVA_CONFIG`, `XDG_CONFIG_HOME`
/// and `HOME`, each `None` where the variable is unset.
pub fn discover_config_from_env(
    nova_config: Option<&str>,
    xdg_config_home: Option<&str>,
    home: Option<&str>,
) -> (r: Option<String>)
    ensures
        opt_view(r) == discovered_path(
            match nova_config {
                Some(s) => Some(s@),
                None => None,
            },
            match xdg_config_home {
                Some(s) => Some(s@),
                None => None,
            },
            match home {
                Some(s) => Some(s@),
                None => None,
            },
        ),
{
    match nova_config {
        Some(p) => Some(copy_str(p)),
        None => match xdg_config_home {
            Some(x) => Some(config_path_in(x)),
            None => match home {
                Some(h) => {
                    let dot_config = join_path_str(h, ".config");
                    Some(config_path_in(dot_config.as_str()))
                },
                None => None,
            },
        },
    }
}

// ---------------------------------------------------------------------------
// Snapshots
// ---------------------------------------------------------------------------

/// Where the configuration comes from: a file, or none (the defaults).
#[derive(Clone, Debug, PartialEq, Eq)]
pub struct ConfigSource {
    pub path: Option<String>,
}

/// What tells one version of the configuration file from another: its modification
/// time, in nanoseconds from the Unix epoch, and its length.
#[derive(Clone, Copy, Debug, PartialEq, Eq)]
pub struct ConfigFingerprint {
    pub modified_ns: i128,
    pub len: u64,
}

/// The configuration file as it stood at one moment: its path, and its fingerprint
/// when it existed.
#[derive(Clone, Debug, PartialEq, Eq)]
pub struct ConfigSnapshot {
    pub path: Option<String>,
    pub fingerprint: Option<ConfigFingerprint>,
}

/// A configuration together with the snapshot it was read at.
#[derive(Clone, Debug, PartialEq, Eq)]
pub struct LoadedConfig {
    pub snapshot: ConfigSnapshot,
    pub config: Config,
}

impl ConfigSource {
    /// The source reading `path`, or none.
    pub fn from_path(path: Option<String>) -> (r: ConfigSource)
        ensures
            r.path == path,
    {
        ConfigSource { path }
    }

    /// The snapshot of this source, given what probing its file gave: the file's
    /// fingerprint, `None` where it does not exist, or the error that probing met.
    /// A source without a file has the empty snapshot, whatever the probe.
    pub fn snapshot(&self, probe: Result<Option<ConfigFingerprint>, ConfigError>) -> (r: Result<
        ConfigSnapshot,
        ConfigError,
    >)
        ensures
            self.path is None ==> (r matches Ok(s) && s.path is None && s.fingerprint is None),
            self.path is Some ==> match probe {
                Ok(f) => (r matches Ok(s) && opt_view(s.path) == opt_view(self.path)
                    && s.fingerprint == f),
                Err(e) => r == Err::<ConfigSnapshot, ConfigError>(e),
            },
    {
        match &self.path {
            None => Ok(ConfigSnapshot { path: None, fingerprint: None }),
            Some(_) => match probe {
                Ok(fingerprint) => Ok(ConfigSnapshot { path: copy_opt(&self.path), fingerprint }),
                Err(e) => Err(e),
            },
        }
    }
}

/// Whether two snapshots are of the same file in the same state.
pub open spec fn same_snapshot(a: ConfigSnapshot, b: ConfigSnapshot) -> bool {
    opt_view(a.path) == opt_view(b.path) && a.fingerprint == b.fingerprint
}

impl ConfigSnapshot {
    /// The file a configuration is read from at this snapshot: its path when the file
    /// existed; otherwise `None`, and the defaults apply.
    pub fn read_path(&self) -> (r: Option<String>)
        ensures
            self.path is Some && self.fingerprint is Some ==> opt_view(r) == opt_view(self.path),
            !(self.path is Some && self.fingerprint is Some) ==> r is None,
    {
        match (&self.path, &self.fingerprint) {
            (Some(p), Some(_)) => Some(copy_str(p.as_str())),
            _ => None,
        }
    }

    /// Whether this snapshot and `other` are of the same file in the same state.
    pub fn same_as(&self, other: &ConfigSnapshot) -> (r: bool)
        ensures
            r == same_snapshot(*self, *other),
    {
        let same_path = match (&self.path, &other.path) {
            (Some(a), Some(b)) => crate::text::str_eq(a.as_str(), b.as_str()),
            (None, None) => true,
            _ => false,
        };
        let same_fingerprint = match (&self.fingerprint, &other.fingerprint) {
            (Some(a), Some(b)) => a.modified_ns == b.modified_ns && a.len == b.len,
            (None, None) => true,
            _ => false,
        };
        same_path && same_fingerprint
    }
}

} // verus!
