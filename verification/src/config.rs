//! The server config: the virtual desktop layout and the network policy.
//!
//! The first screen is always the server's own (id 0). The remaining
//! screens are clients, matched by the name that a client sends in its
//! greeting. Positions are relative to the server's screen: a client to
//! the left has a negative `x`.
use vstd::prelude::*;
use vstd::string::*;

use crate::server::policy::{copy_list, Policy};
use crate::text::{debug_text, quoted, same, trim, trimmed};

pub mod geometry;
pub mod ids;
pub mod laws;
pub mod start;
pub mod watch;

verus! {

/// Default listen and connect port, where a config or address omits one.
pub const DEFAULT_PORT: u16 = 24800;

/// Default screen width of an entry that omits it.
pub const DEFAULT_SCREEN_W: u32 = 1920;

/// Default screen height of an entry that omits it.
pub const DEFAULT_SCREEN_H: u32 = 1080;

/// What a `[network]` switch is when the file omits it: secure.
pub fn default_true() -> (r: bool)
    ensures
        r,
{
    true
}

/// The port of a config that omits it.
pub fn default_port() -> (r: u16)
    ensures
        r == DEFAULT_PORT,
{
    DEFAULT_PORT
}

/// The width of a screen that omits it.
pub fn default_width() -> (r: u32)
    ensures
        r == DEFAULT_SCREEN_W,
{
    DEFAULT_SCREEN_W
}

/// The height of a screen that omits it.
pub fn default_height() -> (r: u32)
    ensures
        r == DEFAULT_SCREEN_H,
{
    DEFAULT_SCREEN_H
}

/// The `[network]` section: who may connect to this server.
#[derive(Debug)]
pub struct NetworkConfig {
    /// Only accept clients whose exact name appears in the layout, plus
    /// trusted machine ids.
    pub allowlist: bool,
    /// Only accept connections from the local network.
    pub local_only: bool,
    /// Machine ids allowed to connect even when their name is not in the
    /// layout yet.
    pub trusted_ids: Vec<String>,
    /// Machine ids that may never connect. Both lists may name the same
    /// id; revoke wins.
    pub revoked_ids: Vec<String>,
}

impl Default for NetworkConfig {
    fn default() -> (r: Self)
        ensures
            r.allowlist,
            r.local_only,
            r.trusted_ids@ == Seq::<String>::empty(),
            r.revoked_ids@ == Seq::<String>::empty(),
    {
        NetworkConfig {
            allowlist: true,
            local_only: true,
            trusted_ids: Vec::new(),
            revoked_ids: Vec::new(),
        }
    }
}

/// One screen of the config.
#[derive(Debug, PartialEq, Eq)]
pub struct ScreenConfig {
    pub name: String,
    pub width: u32,
    pub height: u32,
    pub x: i32,
    pub y: i32,
}

impl Clone for ScreenConfig {
    fn clone(&self) -> (r: Self)
        ensures
            r == *self,
    {
        ScreenConfig {
            name: self.name.clone(),
            width: self.width,
            height: self.height,
            x: self.x,
            y: self.y,
        }
    }
}

/// The server config. It describes one machine's role as a server.
#[derive(Debug)]
pub struct Config {
    pub port: u16,
    pub screens: Vec<ScreenConfig>,
    pub network: NetworkConfig,
}

impl Clone for NetworkConfig {
    fn clone(&self) -> (r: Self)
        ensures
            r.allowlist == self.allowlist,
            r.local_only == self.local_only,
            r.trusted_ids@ == self.trusted_ids@,
            r.revoked_ids@ == self.revoked_ids@,
    {
        NetworkConfig {
            allowlist: self.allowlist,
            local_only: self.local_only,
            trusted_ids: copy_list(&self.trusted_ids),
            revoked_ids: copy_list(&self.revoked_ids),
        }
    }
}

impl Clone for Config {
    fn clone(&self) -> (r: Self)
        ensures
            r.port == self.port,
            r.screens@ == self.screens@,
            r.network.allowlist == self.network.allowlist,
            r.network.local_only == self.network.local_only,
            r.network.trusted_ids@ == self.network.trusted_ids@,
            r.network.revoked_ids@ == self.network.revoked_ids@,
    {
        let mut screens: Vec<ScreenConfig> = Vec::new();
        let mut i: usize = 0;
        while i < self.screens.len()
            invariant
                i <= self.screens@.len(),
                screens@ == self.screens@.take(i as int),
            decreases self.screens@.len() - i,
        {
            screens.push(self.screens[i].clone());
            i += 1;
            assert(screens@ =~= self.screens@.take(i as int));
        }
        assert(screens@ =~= self.screens@);
        Config { port: self.port, screens, network: self.network.clone() }
    }
}

/// What makes a config unusable.
#[derive(Debug, PartialEq, Eq)]
pub enum Flaw {
    /// No screen is listed.
    NoScreens,
    /// A screen has a blank name.
    BlankName,
    /// Two screens share this name.
    Duplicate(String),
}

/// The name of screen `i` holds nothing but white space.
pub open spec fn blank(s: Seq<ScreenConfig>, i: int) -> bool {
    trimmed(s[i].name@).len() == 0
}

/// The name of screen `i` is that of an earlier one.
pub open spec fn repeated(s: Seq<ScreenConfig>, i: int) -> bool {
    exists|j: int| 0 <= j < i && (#[trigger] s[j]).name@ == s[i].name@
}

/// Screen `i` must not be listed as it is.
pub open spec fn flawed(s: Seq<ScreenConfig>, i: int) -> bool {
    blank(s, i) || repeated(s, i)
}

/// Screen `i` is the first one that must not be listed as it is.
pub open spec fn first_flaw(s: Seq<ScreenConfig>, i: int) -> bool {
    &&& 0 <= i < s.len()
    &&& flawed(s, i)
    &&& forall|j: int| 0 <= j < i ==> !#[trigger] flawed(s, j)
}

/// The screens are usable: there is at least one, no name is blank, and
/// no two are the same.
pub open spec fn sound(s: Seq<ScreenConfig>) -> bool {
    s.len() > 0 && forall|i: int| 0 <= i < s.len() ==> !#[trigger] flawed(s, i)
}

/// The complaint about screen `i`, with its name in quotes.
pub open spec fn complaint(s: Seq<ScreenConfig>, i: int, quoted_name: Seq<char>) -> Seq<char> {
    if blank(s, i) {
        "screen names must not be empty"@
    } else {
        "duplicate screen name "@ + quoted_name
    }
}

impl Flaw {
    /// The flaw in words; `quoted_name` is the duplicate's name in quotes.
    pub fn message_quoting(&self, quoted_name: &str) -> (r: String)
        ensures
            r@ == (match *self {
                Flaw::NoScreens => "config must list at least one screen (the server's own)"@,
                Flaw::BlankName => "screen names must not be empty"@,
                Flaw::Duplicate(_) => "duplicate screen name "@ + quoted_name@,
            }),
    {
        match self {
            Flaw::NoScreens => "config must list at least one screen (the server's own)".to_owned(),
            Flaw::BlankName => "screen names must not be empty".to_owned(),
            Flaw::Duplicate(_) => {
                let mut r: String = "duplicate screen name ".to_owned();
                r.append(quoted_name);
                r
            },
        }
    }
}

impl Config {
    /// The first thing that makes the config unusable, if any.
    pub fn flaw(&self) -> (r: Option<Flaw>)
        ensures
            match r {
                None => sound(self.screens@),
                Some(Flaw::NoScreens) => self.screens@.len() == 0,
                Some(Flaw::BlankName) => exists|i: int| #[trigger]
                    first_flaw(self.screens@, i) && blank(self.screens@, i),
                Some(Flaw::Duplicate(name)) => exists|i: int| #[trigger]
                    first_flaw(self.screens@, i) && !blank(self.screens@, i)
                        && self.screens@[i].name@ == name@,
            },
    {
        let ghost s = self.screens@;
        if self.screens.len() == 0 {
            return Some(Flaw::NoScreens);
        }
        let mut i: usize = 0;
        while i < self.screens.len()
            invariant
                i <= s.len(),
                s == self.screens@,
                forall|k: int| 0 <= k < i ==> !#[trigger] flawed(s, k),
            decreases s.len() - i,
        {
            if trim(self.screens[i].name.as_str()).as_str().is_empty() {
                assert(first_flaw(s, i as int));
                return Some(Flaw::BlankName);
            }
            let mut j: usize = 0;
            while j < i
                invariant
                    j <= i < s.len(),
                    s == self.screens@,
                    !blank(s, i as int),
                    forall|k: int| 0 <= k < i ==> !#[trigger] flawed(s, k),
                    forall|k: int| 0 <= k < j ==> (#[trigger] s[k]).name@ != s[i as int].name@,
                decreases i - j,
            {
                if same(self.screens[j].name.as_str(), self.screens[i].name.as_str()) {
                    assert(s[j as int].name@ == s[i as int].name@);
                    assert(repeated(s, i as int));
                    assert(first_flaw(s, i as int));
                    return Some(Flaw::Duplicate(self.screens[i].name.clone()));
                }
                j += 1;
            }
            assert(!flawed(s, i as int));
            i += 1;
        }
        None
    }

    /// Check a config. The first screen is the server's own; it must
    /// exist, and names must be unique and not blank.
    pub fn validate(&self) -> (r: Result<(), String>)
        ensures
            match r {
                Ok(()) => sound(self.screens@),
                Err(e) => {
                    ||| self.screens@.len() == 0 && e@
                        == "config must list at least one screen (the server's own)"@
                    ||| exists|i: int| #[trigger]
                        first_flaw(self.screens@, i) && e@ == complaint(
                            self.screens@,
                            i,
                            debug_text(self.screens@[i].name@),
                        )
                },
            },
    {
        match self.flaw() {
            None => Ok(()),
            Some(flaw) => {
                let q: String = match &flaw {
                    Flaw::Duplicate(name) => quoted(name.as_str()),
                    _ => String::new(),
                };
                Err(flaw.message_quoting(q.as_str()))
            },
        }
    }

    /// The connection policy that this config describes, in the form the
    /// running server consumes. Startup and reload both go through here.
    pub fn network_policy(&self) -> (p: Policy)
        ensures
            p.allowlist == self.network.allowlist,
            p.local_only == self.network.local_only,
            p.trusted_ids@ == self.network.trusted_ids@,
            p.revoked_ids@ == self.network.revoked_ids@,
    {
        Policy {
            allowlist: self.network.allowlist,
            local_only: self.network.local_only,
            trusted_ids: copy_list(&self.network.trusted_ids),
            revoked_ids: copy_list(&self.network.revoked_ids),
        }
    }

    /// A default config that describes this machine only: the server's own
    /// screen under the host name and with the display's size where the
    /// platform reports one, and no invented clients.
    pub fn for_this_machine(display: Option<(u32, u32)>, host: String) -> (r: Self)
        ensures
            r.port == DEFAULT_PORT,
            r.screens@ == seq![
                ScreenConfig {
                    name: host,
                    width: display_size(display).0,
                    height: display_size(display).1,
                    x: 0,
                    y: 0,
                },
            ],
            r.network.allowlist,
            r.network.local_only,
            r.network.trusted_ids@.len() == 0,
            r.network.revoked_ids@.len() == 0,
    {
        let (w, h): (u32, u32) = match display {
            Some((w, h)) => (at_least_one(w), at_least_one(h)),
            None => (DEFAULT_SCREEN_W, DEFAULT_SCREEN_H),
        };
        let mut screens: Vec<ScreenConfig> = Vec::new();
        screens.push(ScreenConfig { name: host, width: w, height: h, x: 0, y: 0 });
        assert(screens@ =~= seq![
            ScreenConfig { name: host, width: w, height: h, x: 0, y: 0 },
        ]);
        Config { port: DEFAULT_PORT, screens, network: NetworkConfig::default() }
    }

    /// The port to listen on: the command line's, where it gives one, else
    /// the config's.
    pub fn listen_port(&self, asked: u16) -> (r: u16)
        ensures
            r == (if asked != 0 {
                asked
            } else {
                self.port
            }),
    {
        if asked != 0 {
            asked
        } else {
            self.port
        }
    }
}

/// A size of at least one pixel.
pub open spec fn positive(v: u32) -> u32 {
    if v == 0 {
        1
    } else {
        v
    }
}

/// The size of this machine's screen, given what the platform reports.
pub open spec fn display_size(display: Option<(u32, u32)>) -> (u32, u32) {
    match display {
        Some((w, h)) => (positive(w), positive(h)),
        None => (DEFAULT_SCREEN_W, DEFAULT_SCREEN_H),
    }
}

pub(crate) fn at_least_one(v: u32) -> (r: u32)
    ensures
        r == positive(v),
{
    if v == 0 {
        1
    } else {
        v
    }
}

// ---------------------------------------------------------------------
// Laws
// ---------------------------------------------------------------------

/// In a sound config no two screens share a name.
pub proof fn sound_names_are_unique(s: Seq<ScreenConfig>, i: int, j: int)
    requires
        sound(s),
        0 <= i < s.len(),
        0 <= j < s.len(),
        s[i].name@ == s[j].name@,
    ensures
        i == j,
{
    assert(!flawed(s, i) && !flawed(s, j));
    if i < j {
        assert(repeated(s, j));
    } else if j < i {
        assert(repeated(s, i));
    }
}

/// The default config of a machine with a name is sound.
pub proof fn default_config_is_sound(s: ScreenConfig)
    requires
        trimmed(s.name@).len() > 0,
    ensures
        sound(seq![s]),
{
    let all = seq![s];
    assert forall|i: int| 0 <= i < all.len() implies !#[trigger] flawed(all, i) by {
        assert(all[i] == s);
    }
}

} // verus!
