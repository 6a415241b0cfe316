//! Starting a server from its config.
use vstd::prelude::*;

use crate::actions::{safe_bindings, ActionEngine, BindSection, Chords, Mods};
use crate::config::geometry::placed;
use crate::config::Config;
use crate::layout::{find_screen, lookup_is_complete, Layout};
use crate::protocol::Screen;
use crate::session::{adopted, bounded_layout, Session};
use crate::snap::{snap_room, snap_rounds, SNAP_ROUNDS};

verus! {

/// The layout of a config: its screens, snapped.
pub open spec fn configured(cfg: Config) -> Seq<Screen> {
    snap_rounds(placed(cfg.screens@), SNAP_ROUNDS as nat)
}

/// A session can be built from the config: there is a server screen, and
/// no coordinate leaves the supported range.
pub open spec fn startable(cfg: Config) -> bool {
    &&& cfg.screens@.len() > 0
    &&& snap_room(placed(cfg.screens@))
    &&& bounded_layout(configured(cfg))
}

impl Config {
    /// Can a session be built from the config?
    pub fn is_startable(&self) -> (r: bool)
        ensures
            r == startable(*self),
    {
        if self.screens.len() == 0 || !self.plane().has_snap_room() {
            return false;
        }
        self.to_layout().is_bounded()
    }
}

/// The session and the shortcuts of a server that starts from a config.
/// The shortcuts take effect here, not only at the first reload, so that
/// startup and reload agree.
pub fn session_from_config(cfg: &Config, shortcuts: BindSection) -> (r: (Session, ActionEngine))
    requires
        startable(*cfg),
    ensures
        r.0.wf(),
        find_screen(configured(*cfg), 0) is Some,
        r.0@ == adopted(configured(*cfg), find_screen(configured(*cfg), 0)->0.rect),
        r.1@ == (Chords {
            enabled: shortcuts.enabled,
            bindings: safe_bindings(shortcuts.bindings@),
            mods: Mods::empty(),
            pending: None,
            fired: Seq::empty(),
            owned: Seq::empty(),
            last_seen: None,
        }),
{
    let layout: Layout = cfg.to_layout();
    proof {
        let s = layout@;
        assert(placed(cfg.screens@)[0].id == 0);
        assert(s[0].id == placed(cfg.screens@)[0].id);
        lookup_is_complete(s, 0);
    }
    let session: Session = Session::new(layout, 0);
    (session, ActionEngine::new(shortcuts))
}

} // verus!
