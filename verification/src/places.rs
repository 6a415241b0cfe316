//! Where a machine keeps its state and configuration, and what it calls
//! itself.
//!
//! The functions decide between the hints that the environment gives;
//! looking the hints up is the caller's part.
use crate::text::{trim, trimmed};
use crate::trust::held;
use vstd::prelude::*;
use vstd::string::*;

verus! {

/// The choice of a directory or file.
#[derive(Debug, PartialEq, Eq)]
pub enum Place {
    /// The path that the operator named.
    Named(String),
    /// The standard path below the home directory.
    Home(&'static str),
    /// A path below the current directory.
    Here(&'static str),
}

/// The state directory below the home directory.
pub const STATE_BELOW_HOME: &'static str = ".local/state/kvmshare";

/// The state directory of a machine without a home directory.
pub const STATE_HERE: &'static str = ".kvmshare-state";

/// The server config below the home directory.
pub const CONFIG_BELOW_HOME: &'static str = ".config/kvmshare/kvmshare-server.toml";

/// The server config in the current directory.
pub const CONFIG_HERE: &'static str = "kvmshare-server.toml";

/// A hint that is there and says something.
pub open spec fn given(hint: Option<Seq<char>>) -> bool {
    hint is Some && hint->0.len() > 0
}

/// Where per-machine state lives: the override where it is given, else
/// below the home directory where there is one (`home` says whether the
/// home directory is known and not empty), else beside the process.
pub fn state_dir(over: &Option<String>, home: bool) -> (r: Place)
    ensures
        given(held(*over)) ==> (r matches Place::Named(p) && p@ == over->0@),
        !given(held(*over)) && home ==> r == Place::Home(STATE_BELOW_HOME),
        !given(held(*over)) && !home ==> r == Place::Here(STATE_HERE),
{
    if let Some(p) = over {
        if !p.as_str().is_empty() {
            return Place::Named(p.clone());
        }
    }
    if home {
        Place::Home(STATE_BELOW_HOME)
    } else {
        Place::Here(STATE_HERE)
    }
}

/// Where a server looks for its config: the override where it is given,
/// else the file below the home directory where it exists (`home` says
/// whether it does), else the current directory.
pub fn default_config_path(over: &Option<String>, home: bool) -> (r: Place)
    ensures
        given(held(*over)) ==> (r matches Place::Named(p) && p@ == over->0@),
        !given(held(*over)) && home ==> r == Place::Home(CONFIG_BELOW_HOME),
        !given(held(*over)) && !home ==> r == Place::Here(CONFIG_HERE),
{
    if let Some(p) = over {
        if !p.as_str().is_empty() {
            return Place::Named(p.clone());
        }
    }
    if home {
        Place::Home(CONFIG_BELOW_HOME)
    } else {
        Place::Here(CONFIG_HERE)
    }
}

/// The host name that the hints give: the environment's, then the
/// kernel's without the white space around it, then the platform's, then
/// a neutral placeholder.
pub open spec fn host(
    env: Option<Seq<char>>,
    kernel: Option<Seq<char>>,
    platform: Seq<char>,
) -> Seq<char> {
    if given(env) {
        env->0
    } else if kernel is Some && trimmed(kernel->0).len() > 0 {
        trimmed(kernel->0)
    } else if platform.len() > 0 {
        platform
    } else {
        "client"@
    }
}

/// The machine's host name, used as the default client name and as the
/// name of a server's own screen in a fresh layout.
pub fn hostname(env: &Option<String>, kernel: &Option<String>, platform: &str) -> (r: String)
    ensures
        r@ == host(held(*env), held(*kernel), platform@),
{
    if let Some(h) = env {
        if !h.as_str().is_empty() {
            return h.clone();
        }
    }
    if let Some(h) = kernel {
        let h: String = trim(h.as_str());
        if !h.as_str().is_empty() {
            return h;
        }
    }
    if platform.is_empty() {
        "client".to_owned()
    } else {
        platform.to_owned()
    }
}

/// A machine always has a name: whatever the hints say, it is not empty.
pub proof fn a_machine_has_a_name(
    env: Option<Seq<char>>,
    kernel: Option<Seq<char>>,
    platform: Seq<char>,
)
    ensures
        host(env, kernel, platform).len() > 0,
{
    reveal_strlit("client");
}

} // verus!
