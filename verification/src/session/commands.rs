//! Carrying out the user's shortcuts.
use vstd::prelude::*;
use vstd::string::*;

use crate::actions::UserAction;
use crate::layout::{
    find_screen, first_where, is_first, lemma_first_where, lookup_is_complete, search_is_complete,
};
use crate::protocol::{Message, Rect, Screen};
use crate::session::{
    away_beacon, homecoming, lemma_found_is_bounded, local_event, Action, Session, State,
};
use crate::text::same;
use crate::Mode;

verus! {

impl State {
    /// The screen that has control.
    pub open spec fn here(self) -> u8 {
        match self.cursor.mode {
            Mode::Local => 0,
            Mode::Remote(id) => id,
        }
    }

    /// Control sent to the middle of screen `id`. Where the layout has no
    /// such screen, where it may not be entered, or where it has control
    /// already, nothing happens.
    pub open spec fn summoned(self, id: u8) -> (State, Seq<Action>) {
        match find_screen(self.layout, id) {
            Some(e) if self.open_to(id) && self.here() != id => if id == 0 {
                (homecoming(self).0, seq![homecoming(self).1])
            } else {
                let (x, y) = e.rect.inner_middle();
                (
                    self.entered(id, x, y),
                    seq![Action::SwitchTo { to: id, x: x as i32, y: y as i32 }],
                )
            },
            _ => (self, Seq::empty()),
        }
    }

    /// The other screens in layout order, from the one after the current
    /// screen round to the one before it.
    pub open spec fn round_from_here(self) -> Seq<Screen> {
        let p = |e: Screen| e.id == self.here();
        if exists|k: int| is_first(self.layout, p, k) {
            let k = choose|k: int| is_first(self.layout, p, k);
            self.layout.skip(k + 1) + self.layout.take(k)
        } else {
            self.layout
        }
    }

    /// The next screen in layout order that may be entered.
    pub open spec fn next_screen(self) -> Option<Screen> {
        first_where(
            self.round_from_here(),
            |e: Screen| e.id != self.here() && self.open_to(e.id),
        )
    }
}

/// A user's command carried out: a switch to a screen by its name, or to
/// the next one that may be entered, the edge walls locked or unlocked, or
/// control brought home.
pub open spec fn obeyed(st: State, action: UserAction) -> (State, Seq<Action>) {
    match action {
        UserAction::SwitchToScreen { to } => match first_where(
            st.layout,
            |e: Screen| e.name@ == to@,
        ) {
            Some(e) => st.summoned(e.id),
            None => (st, Seq::empty()),
        },
        UserAction::SwitchNext => match st.next_screen() {
            Some(e) => st.summoned(e.id),
            None => (st, Seq::empty()),
        },
        UserAction::ToggleLock => (State { locked: !st.locked, ..st }, Seq::empty()),
        UserAction::GoHome => (homecoming(st).0, seq![homecoming(st).1]),
    }
}

impl Session {
    /// [`State::summoned`].
    fn summon(&mut self, id: u8) -> (r: Vec<Action>)
        requires
            old(self).wf(),
            find_screen(old(self)@.layout, 0) is Some,
        ensures
            final(self).wf(),
            final(self)@ == old(self)@.summoned(id).0,
            r@ == old(self)@.summoned(id).1,
    {
        let mut actions: Vec<Action> = Vec::new();
        let here: u8 = self.current_screen();
        let rect: Rect = match self.layout.find(id) {
            Some(s) => s.rect,
            None => {
                return actions;
            },
        };
        if !self.may_enter(id) || here == id {
            return actions;
        }
        if id == 0 {
            actions.push(self.force_local());
        } else {
            proof {
                lemma_found_is_bounded(self@.layout, id);
            }
            let (x, y): (i32, i32) = rect.local_center();
            self.enter_screen(id, x, y);
            actions.push(Action::SwitchTo { to: id, x, y });
        }
        actions
    }

    /// [`State::here`].
    fn current_screen(&self) -> (r: u8)
        ensures
            r == self@.here(),
    {
        match self.cursor.mode {
            Mode::Local => 0,
            Mode::Remote(id) => id,
        }
    }

    /// The id of the first screen with this name.
    fn id_of_name(&self, name: &str) -> (r: Option<u8>)
        ensures
            r == (match first_where(self@.layout, |e: Screen| e.name@ == name@) {
                Some(e) => Some(e.id),
                None => None,
            }),
    {
        let ghost s = self@.layout;
        let ghost p = |e: Screen| e.name@ == name@;
        let mut i: usize = 0;
        while i < self.layout.screens.len()
            invariant
                i <= self.layout.screens@.len(),
                s == self.layout.screens@,
                p == (|e: Screen| e.name@ == name@),
                forall|j: int| 0 <= j < i ==> !p(#[trigger] s[j]),
            decreases self.layout.screens@.len() - i,
        {
            if same(self.layout.screens[i].name.as_str(), name) {
                proof {
                    assert(is_first(s, p, i as int));
                    lemma_first_where(s, p, i as int);
                }
                return Some(self.layout.screens[i].id);
            }
            i += 1;
        }
        proof {
            search_is_complete(s, p);
        }
        None
    }

    /// The index of the screen that has control.
    fn index_here(&self) -> (r: Option<usize>)
        ensures
            match r {
                Some(k) => is_first(
                    self@.layout,
                    |e: Screen| e.id == self@.here(),
                    k as int,
                ) && self@.round_from_here() == self@.layout.skip(k + 1) + self@.layout.take(
                    k as int,
                ),
                None => self@.round_from_here() == self@.layout,
            },
    {
        let here: u8 = self.current_screen();
        let ghost s = self@.layout;
        let ghost p = |e: Screen| e.id == self@.here();
        let mut i: usize = 0;
        while i < self.layout.screens.len()
            invariant
                i <= self.layout.screens@.len(),
                s == self.layout.screens@,
                here == self@.here(),
                p == (|e: Screen| e.id == self@.here()),
                forall|j: int| 0 <= j < i ==> !p(#[trigger] s[j]),
            decreases self.layout.screens@.len() - i,
        {
            if self.layout.screens[i].id == here {
                proof {
                    assert(is_first(s, p, i as int));
                    let c = choose|k: int| is_first(s, p, k);
                    assert(is_first(s, p, c));
                    assert(c == i) by {
                        if c < i {
                            assert(!p(s[c]));
                        } else if i < c {
                            assert(!p(s[i as int]));
                        }
                    }
                }
                return Some(i);
            }
            i += 1;
        }
        proof {
            if exists|k: int| is_first(s, p, k) {
                let k = choose|k: int| is_first(s, p, k);
                assert(p(s[k]));
            }
        }
        None
    }

    /// The id of [`State::next_screen`].
    fn next_id(&self) -> (r: Option<u8>)
        ensures
            r == (match self@.next_screen() {
                Some(e) => Some(e.id),
                None => None,
            }),
    {
        let here: u8 = self.current_screen();
        let n: usize = self.layout.screens.len();
        let ghost s = self@.layout;
        let ghost round = self@.round_from_here();
        let ghost p = |e: Screen| e.id != self@.here() && self@.open_to(e.id);
        // Where the round starts, and how many screens it has.
        let (start, len): (usize, usize) = match self.index_here() {
            Some(k) => (k + 1, n - 1),
            None => (0, n),
        };
        let mut i: usize = 0;
        while i < len
            invariant
                i <= len,
                len <= n,
                start <= n,
                n == s.len(),
                s == self@.layout,
                here == self@.here(),
                round == self@.round_from_here(),
                round.len() == len,
                start > 0 ==> len == n - 1 && round == s.skip(start as int) + s.take(start - 1),
                start == 0 ==> len == n && round == s,
                p == (|e: Screen| e.id != self@.here() && self@.open_to(e.id)),
                forall|j: int| 0 <= j < i ==> !p(#[trigger] round[j]),
            decreases len - i,
        {
            let left: usize = n - start;
            let at: usize = if i < left {
                start + i
            } else {
                i - left
            };
            assert(round[i as int] == s[at as int]);
            let id: u8 = self.layout.screens[at].id;
            if id != here && self.may_enter(id) {
                proof {
                    assert(p(round[i as int]));
                    assert(is_first(round, p, i as int));
                    lemma_first_where(round, p, i as int);
                }
                return Some(id);
            }
            assert(!p(round[i as int]));
            i += 1;
        }
        proof {
            search_is_complete(round, p);
        }
        None
    }

    /// Carry out a command that a shortcut fired. Returns everything the
    /// caller must do. See [`obeyed`].
    pub fn on_user_action(&mut self, action: &UserAction) -> (r: Vec<Action>)
        requires
            old(self).wf(),
            find_screen(old(self)@.layout, 0) is Some,
        ensures
            final(self).wf(),
            final(self)@ == obeyed(old(self)@, *action).0,
            r@ == obeyed(old(self)@, *action).1,
    {
        match action {
            UserAction::SwitchToScreen { to } => match self.id_of_name(to.as_str()) {
                Some(id) => self.summon(id),
                None => Vec::new(),
            },
            UserAction::SwitchNext => match self.next_id() {
                Some(id) => self.summon(id),
                None => Vec::new(),
            },
            UserAction::ToggleLock => {
                self.locked = !self.locked;
                Vec::new()
            },
            UserAction::GoHome => {
                let mut actions: Vec<Action> = Vec::new();
                actions.push(self.force_local());
                actions
            },
        }
    }
}

// ---------------------------------------------------------------------
// Laws
// ---------------------------------------------------------------------

/// A switch by name goes where it says: to the named screen, when it may
/// be entered and does not have control already.
pub proof fn switching_by_name_arrives(st: State, to: String, e: Screen)
    requires
        first_where(st.layout, |s: Screen| s.name@ == to@) == Some(e),
        find_screen(st.layout, e.id) is Some,
        st.open_to(e.id),
    ensures
        obeyed(st, UserAction::SwitchToScreen { to }).0.here() == e.id,
{
}

/// Cycling goes on to another screen whenever there is one that may be
/// entered.
pub proof fn cycling_moves_on(st: State, k: int)
    requires
        0 <= k < st.layout.len(),
        st.layout[k].id != st.here(),
        st.open_to(st.layout[k].id),
    ensures
        obeyed(st, UserAction::SwitchNext).0.here() != st.here(),
        st.open_to(obeyed(st, UserAction::SwitchNext).0.here()),
{
    let round = st.round_from_here();
    let p = |e: Screen| e.id != st.here() && st.open_to(e.id);
    let here = |e: Screen| e.id == st.here();
    let e = st.layout[k];
    assert(exists|j: int| 0 <= j < round.len() && p(#[trigger] round[j])) by {
        if exists|f: int| is_first(st.layout, here, f) {
            let f = choose|f: int| is_first(st.layout, here, f);
            if k > f {
                assert(round[k - f - 1] == e);
            } else {
                assert(k != f);
                assert(round[st.layout.len() - f - 1 + k] == e);
            }
        } else {
            assert(round[k] == e);
        }
    }
    search_is_complete(round, p);
    let t = st.next_screen()->0;
    let j = choose|j: int| 0 <= j < round.len() && round[j] == t;
    assert(st.layout.contains(t)) by {
        if exists|f: int| is_first(st.layout, here, f) {
            let f = choose|f: int| is_first(st.layout, here, f);
            if j < st.layout.len() - f - 1 {
                assert(st.layout[f + 1 + j] == t);
            } else {
                assert(st.layout[j - (st.layout.len() - f - 1)] == t);
            }
        } else {
            assert(st.layout[j] == t);
        }
    }
    lookup_is_complete(st.layout, t.id);
    let m = choose|m: int| 0 <= m < st.layout.len() && st.layout[m] == t;
    assert(st.layout[m].id == t.id);
}

/// Locked walls hold: no motion and no position report moves control to
/// another screen. Only the escape key brings it home.
pub proof fn locked_walls_hold(st: State, msg: Message, id: u8, x: int, y: int, now: u64)
    requires
        st.locked,
    ensures
        msg !is Escape ==> local_event(st, msg, now).0.cursor.mode == st.cursor.mode,
        away_beacon(st, id, x, y, now).0.cursor.mode == st.cursor.mode,
        away_beacon(st, id, x, y, now).1 == Seq::<Action>::empty(),
{
}

/// Locking the walls twice unlocks them.
pub proof fn locking_twice_unlocks(st: State)
    ensures
        obeyed(obeyed(st, UserAction::ToggleLock).0, UserAction::ToggleLock).0 == st,
{
}

} // verus!
