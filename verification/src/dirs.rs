//! Well-known directory resolution: which path a directory purpose maps to,
//! relative to the user or to the system, following the XDG conventions.
//!
//! The lookup itself is a pure rule from the environment's values to a path;
//! reading the environment (the home directory, the user id, the XDG
//! override variables) is the caller's part, handed in as a [`DirContext`].

use vstd::prelude::*;
use vstd::string::StringExecFns;

verus! {

/// Whose directory is asked for.
#[derive(Clone, Copy, Debug, PartialEq, Eq, Structural)]
pub enum DirRel {
    /// User-specific dir.
    User,
    /// System-wide dir.
    System,
}

/// The purpose of the directory.
#[derive(Clone, Copy, Debug, PartialEq, Eq, Structural)]
pub enum DirType {
    /// Home directory.
    Home,
    /// Session information directory.
    Runtime,
    /// Resources directory.
    Share,
    /// Temporary application data directory.
    Cache,
    /// Permanent application data directory.
    State,
    /// Application configuration directory.
    Config,
    /// Executable files directory.
    Bin,
    /// Library files directory.
    Lib,
}

/// The parts of the environment the lookup reads: the user's home directory,
/// the user id as text, and the XDG override variables, each `None` when
/// unset.
pub struct DirContext {
    pub home: Option<String>,
    pub uid: String,
    pub runtime_dir: Option<String>,
    pub data_home: Option<String>,
    pub cache_home: Option<String>,
    pub state_home: Option<String>,
    pub config_home: Option<String>,
}

/// `home` followed by `tail`, when a home directory is known.
pub open spec fn spec_under_home(home: Option<String>, tail: Seq<char>) -> Option<Seq<char>> {
    match home {
        Some(h) => Some(h@ + tail),
        None => None,
    }
}

/// The directory that `ty` relative to `rel` resolves to in the environment
/// `env`: the XDG override where one applies and is set, else the
/// conventional fallback.
pub open spec fn spec_dir(rel: DirRel, ty: DirType, env: DirContext) -> Option<Seq<char>> {
    match (ty, rel) {
        (DirType::Home, DirRel::User) => match env.home {
            Some(h) => Some(h@),
            None => None,
        },
        (DirType::Home, DirRel::System) => Some("/var/lib"@),
        (DirType::Runtime, DirRel::User) => match env.runtime_dir {
            Some(x) => Some(x@),
            None => Some("/run/user/"@ + env.uid@),
        },
        (DirType::Runtime, DirRel::System) => Some("/run"@),
        (DirType::Share, DirRel::User) => match env.data_home {
            Some(x) => Some(x@),
            None => spec_under_home(env.home, "/.local/share"@),
        },
        (DirType::Share, DirRel::System) => Some("/usr/share"@),
        (DirType::Cache, DirRel::User) => match env.cache_home {
            Some(x) => Some(x@),
            None => spec_under_home(env.home, "/.cache"@),
        },
        (DirType::Cache, DirRel::System) => Some("/tmp"@),
        (DirType::State, DirRel::User) => match env.state_home {
            Some(x) => Some(x@),
            None => spec_under_home(env.home, "/.local/state"@),
        },
        (DirType::State, DirRel::System) => None,
        (DirType::Bin, DirRel::User) => spec_under_home(env.home, "/.local/bin"@),
        (DirType::Bin, DirRel::System) => Some("/usr/bin"@),
        (DirType::Lib, DirRel::User) => None,
        (DirType::Lib, DirRel::System) => Some("/usr/bin"@),
        (DirType::Config, DirRel::User) => match env.config_home {
            Some(x) => Some(x@),
            None => spec_under_home(env.home, "/.config"@),
        },
        (DirType::Config, DirRel::System) => Some("/etc"@),
    }
}

/// A set override wins; else the fallback under the home directory.
fn override_or_home(over: &Option<String>, home: &Option<String>, tail: &str) -> (r: Option<
    String,
>)
    ensures
        r.deep_view() == (match *over {
            Some(x) => Some(x@),
            None => spec_under_home(*home, tail@),
        }),
{
    match over {
        Some(x) => Some(x.clone()),
        None => match home {
            Some(h) => {
                let mut path = h.clone();
                path.append(tail);
                Some(path)
            },
            None => None,
        },
    }
}

impl DirRel {
    /// The directory for purpose `ty` relative to `self` in the environment
    /// `env`, or `None` where the combination names no directory.
    pub fn dir(self, ty: DirType, env: &DirContext) -> (r: Option<String>)
        ensures
            r.deep_view() == spec_dir(self, ty, *env),
    {
        match (ty, self) {
            (DirType::Home, DirRel::User) => match &env.home {
                Some(h) => Some(h.clone()),
                None => None,
            },
            (DirType::Home, DirRel::System) => Some("/var/lib".to_owned()),
            (DirType::Runtime, DirRel::User) => match &env.runtime_dir {
                Some(x) => Some(x.clone()),
                None => {
                    let mut path = "/run/user/".to_owned();
                    path.append(self_uid(env));
                    Some(path)
                },
            },
            (DirType::Runtime, DirRel::System) => Some("/run".to_owned()),
            (DirType::Share, DirRel::User) => override_or_home(
                &env.data_home,
                &env.home,
                "/.local/share",
            ),
            (DirType::Share, DirRel::System) => Some("/usr/share".to_owned()),
            (DirType::Cache, DirRel::User) => override_or_home(
                &env.cache_home,
                &env.home,
                "/.cache",
            ),
            (DirType::Cache, DirRel::System) => Some("/tmp".to_owned()),
            (DirType::State, DirRel::User) => override_or_home(
                &env.state_home,
                &env.home,
                "/.local/state",
            ),
            (DirType::State, DirRel::System) => None,
            (DirType::Bin, DirRel::User) => override_or_home(&None, &env.home, "/.local/bin"),
            (DirType::Bin, DirRel::System) => Some("/usr/bin".to_owned()),
            (DirType::Lib, DirRel::User) => None,
            (DirType::Lib, DirRel::System) => Some("/usr/bin".to_owned()),
            (DirType::Config, DirRel::User) => override_or_home(
                &env.config_home,
                &env.home,
                "/.config",
            ),
            (DirType::Config, DirRel::System) => Some("/etc".to_owned()),
        }
    }
}

/// The user id text out of the context.
fn self_uid(env: &DirContext) -> (r: &str)
    ensures
        r@ == env.uid@,
{
    env.uid.as_str()
}

impl DirType {
    /// The directory for this purpose relative to `rel` in the environment
    /// `env`: the same lookup as [`DirRel::dir`].
    pub fn dir(self, rel: DirRel, env: &DirContext) -> (r: Option<String>)
        ensures
            r.deep_view() == spec_dir(rel, self, *env),
    {
        rel.dir(self, env)
    }
}

} // verus!
