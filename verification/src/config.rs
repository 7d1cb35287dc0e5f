//! Where the configuration lives: the `~/.bugs` directory (or the one
//! `BUGS_HOME` names) and the `config.json` in it. Defaults apply when no
//! file exists.
use vstd::prelude::*;
use crate::chromium::{join_path, joined};
use crate::envvars::{env_lookup, lookup};

verus! {

/// The configuration directory the environment designates: `BUGS_HOME`,
/// else `.bugs` under the home directory (`HOME`, else `USERPROFILE`).
pub open spec fn config_home_of(env: Seq<(String, String)>) -> Option<Seq<char>> {
    match env_lookup(env, "BUGS_HOME"@) {
        Some(h) => Some(h),
        None => match env_lookup(env, "HOME"@) {
            Some(h) => Some(joined(h, ".bugs"@)),
            None => match env_lookup(env, "USERPROFILE"@) {
                Some(h) => Some(joined(h, ".bugs"@)),
                None => None,
            },
        },
    }
}

/// Finds the configuration directory.
pub fn config_home(env: &Vec<(String, String)>) -> (r: Option<String>)
    ensures
        match r {
            Some(h) => config_home_of(env@) == Some(h@),
            None => config_home_of(env@) is None,
        },
{
    if let Some(h) = lookup(env, "BUGS_HOME") {
        return Some(h);
    }
    let home = match lookup(env, "HOME") {
        Some(h) => Some(h),
        None => lookup(env, "USERPROFILE"),
    };
    match home {
        Some(h) => Some(join_path(h.as_str(), ".bugs")),
        None => None,
    }
}

/// Loads the configuration from a directory.
pub struct ConfigLoader {
    /// The configuration directory (`~/.bugs/` by default).
    pub home: String,
}

impl ConfigLoader {
    /// The loader of the directory the environment designates, or of the
    /// working directory when there is none.
    pub fn from_env(env: &Vec<(String, String)>) -> (r: Self)
        ensures
            r.home@ == (match config_home_of(env@) {
                Some(h) => h,
                None => "."@,
            }),
    {
        let home = match config_home(env) {
            Some(h) => h,
            None => ".".to_owned(),
        };
        ConfigLoader { home }
    }

    /// The configuration file read over the defaults.
    pub fn config_path(&self) -> (r: String)
        ensures
            r@ == joined(self.home@, "config.json"@),
    {
        join_path(self.home.as_str(), "config.json")
    }
}

} // verus!
