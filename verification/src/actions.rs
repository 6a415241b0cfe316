//! The action engine: user-facing commands bound to keystrokes.
//!
//! Every key arrives as a canonical USB HID usage id, so a chord matcher
//! that sees HID usages works identically on every platform pair. Nothing
//! here touches the OS: the engine only *decides*.
use vstd::prelude::*;
use vstd::string::*;

use crate::clock::{age, elapsed, Clock};
use crate::protocol::KeyKind;
use crate::text::same;

pub mod chord_laws;
pub mod hid;
pub mod laws;

verus! {

/// A user-facing command the engine can fire.
#[derive(Debug, PartialEq, Eq)]
pub enum UserAction {
    /// Switch the cursor to the screen named `to`.
    SwitchToScreen { to: String },
    /// Cycle through the reachable screens in layout order.
    SwitchNext,
    /// Toggle the desktop edge walls: locked = crossings disabled.
    ToggleLock,
    /// Return control to the server immediately.
    GoHome,
}

impl Clone for UserAction {
    fn clone(&self) -> (r: Self)
        ensures
            r == *self,
    {
        match self {
            UserAction::SwitchToScreen { to } => UserAction::SwitchToScreen { to: to.clone() },
            UserAction::SwitchNext => UserAction::SwitchNext,
            UserAction::ToggleLock => UserAction::ToggleLock,
            UserAction::GoHome => UserAction::GoHome,
        }
    }
}

/// Modifier bits for a chord.
#[derive(Debug, Clone, Copy, PartialEq, Eq, Structural)]
pub struct Mods {
    pub ctrl: bool,
    pub alt: bool,
    pub shift: bool,
    pub meta: bool,
}

/// The smallest HID usage a binding may name. Everything below it is
/// error/undefined space in the USB HID usage tables.
pub const MIN_BINDABLE_KEY: u32 = 0x04;

/// How long (ns) a half-typed chord lingers before being dropped.
pub const CHORD_LINGER: u64 = 5_000_000_000;

impl Mods {
    /// No modifier held.
    pub open spec fn empty() -> Mods {
        Mods { ctrl: false, alt: false, shift: false, meta: false }
    }

    /// No modifier held.
    pub fn none() -> (r: Mods)
        ensures
            r == Mods::empty(),
    {
        Mods { ctrl: false, alt: false, shift: false, meta: false }
    }

    /// At least one modifier is held.
    pub open spec fn some_held(self) -> bool {
        self.ctrl || self.alt || self.shift || self.meta
    }

    /// The set after the key went down or up.
    pub open spec fn with_key(self, key: u32, down: bool) -> Mods {
        if key == hid::CTRL_L || key == hid::CTRL_R {
            Mods { ctrl: down, ..self }
        } else if key == hid::SHIFT_L || key == hid::SHIFT_R {
            Mods { shift: down, ..self }
        } else if key == hid::ALT_L || key == hid::ALT_R {
            Mods { alt: down, ..self }
        } else if key == hid::META_L || key == hid::META_R {
            Mods { meta: down, ..self }
        } else {
            self
        }
    }

    /// Update the mod set from one key transition. `down` distinguishes
    /// press from release.
    pub fn apply_key(&mut self, key: u32, down: bool)
        ensures
            *final(self) == old(self).with_key(key, down),
    {
        if key == hid::CTRL_L || key == hid::CTRL_R {
            self.ctrl = down;
        } else if key == hid::SHIFT_L || key == hid::SHIFT_R {
            self.shift = down;
        } else if key == hid::ALT_L || key == hid::ALT_R {
            self.alt = down;
        } else if key == hid::META_L || key == hid::META_R {
            self.meta = down;
        }
    }

    /// Is any modifier in this set held?
    pub fn any(&self) -> (r: bool)
        ensures
            r == self.some_held(),
    {
        self.ctrl || self.alt || self.shift || self.meta
    }
}

impl Mods {
    /// The modifiers as a mask: bit 0 ctrl, bit 1 alt, bit 2 shift, bit 3
    /// meta.
    pub open spec fn mask_of(self) -> int {
        (if self.ctrl { 1int } else { 0 }) + (if self.alt { 2int } else { 0 }) + (if self.shift {
            4int
        } else {
            0
        }) + (if self.meta { 8int } else { 0 })
    }

    /// [`Mods::mask_of`] as a value.
    pub fn mask(&self) -> (r: u8)
        ensures
            r == self.mask_of(),
    {
        let c: u8 = if self.ctrl { 1 } else { 0 };
        let a: u8 = if self.alt { 2 } else { 0 };
        let s: u8 = if self.shift { 4 } else { 0 };
        let m: u8 = if self.meta { 8 } else { 0 };
        c + a + s + m
    }
}

impl Default for Mods {
    fn default() -> (r: Self)
        ensures
            r == Mods::empty(),
    {
        Mods::none()
    }
}

/// One keystroke-to-action mapping.
#[derive(Debug, PartialEq, Eq)]
pub struct Binding {
    pub mods: Mods,
    /// Canonical HID usage id of the non-modifier key.
    pub key: u32,
    /// `switch` (needs `screen`) | `cycle` | `lock` | `home`
    pub action: String,
    /// Target screen name for `switch` (ignored otherwise).
    pub screen: String,
}

/// A key whose bare press no mainstream application acts on: Scroll Lock,
/// Pause and F13 to F24.
pub open spec fn harmless_bare(key: u32) -> bool {
    key == hid::SCROLL_LOCK || key == hid::PAUSE || 0x68 <= key <= 0x73
}

impl Binding {
    /// Swallowing the chord is safe: it names a real key that is no
    /// modifier, and carries a modifier or is harmless without one.
    pub open spec fn bindable(self) -> bool {
        &&& self.key >= MIN_BINDABLE_KEY
        &&& !hid::modifier(self.key)
        &&& self.mods.some_held() || harmless_bare(self.key)
    }

    /// Would swallowing this chord be safe? A binding must name a real
    /// key, and either carry at least one modifier **or** name a key
    /// whose bare press carries no application meaning.
    pub fn is_bindable(&self) -> (r: bool)
        ensures
            r == self.bindable(),
    {
        self.key >= MIN_BINDABLE_KEY && !hid::is_modifier(self.key) && (self.mods.any()
            || Self::bare_safe(self.key))
    }

    /// Keys whose **bare** press no mainstream application acts on.
    fn bare_safe(key: u32) -> (r: bool)
        ensures
            r == harmless_bare(key),
    {
        key == hid::SCROLL_LOCK || key == hid::PAUSE || (0x68 <= key && key <= 0x73)
    }
}

impl Clone for Binding {
    fn clone(&self) -> (r: Self)
        ensures
            r == *self,
    {
        Binding {
            mods: self.mods,
            key: self.key,
            action: self.action.clone(),
            screen: self.screen.clone(),
        }
    }
}

/// The shortcuts section of the configuration.
#[derive(Debug, PartialEq, Eq)]
pub struct BindSection {
    /// Master switch. Off = engine fully inert (every key forwards).
    pub enabled: bool,
    pub bindings: Vec<Binding>,
}

impl Clone for BindSection {
    fn clone(&self) -> (r: Self)
        ensures
            r.enabled == self.enabled,
            r.bindings@ == self.bindings@,
    {
        let mut bindings: Vec<Binding> = Vec::new();
        let mut i: usize = 0;
        while i < self.bindings.len()
            invariant
                i <= self.bindings@.len(),
                bindings@ == self.bindings@.take(i as int),
            decreases self.bindings@.len() - i,
        {
            bindings.push(self.bindings[i].clone());
            i += 1;
            assert(bindings@ =~= self.bindings@.take(i as int));
        }
        assert(bindings@ =~= self.bindings@);
        BindSection { enabled: self.enabled, bindings }
    }
}

/// The bindings that are safe to swallow, in order.
pub open spec fn safe_bindings(bs: Seq<Binding>) -> Seq<Binding> {
    bs.filter(|b: Binding| b.bindable())
}

impl BindSection {
    /// Drop every binding a user must never have meant. See
    /// [`Binding::is_bindable`] for the exact rule.
    pub fn sanitized(self) -> (r: Self)
        ensures
            r.enabled == self.enabled,
            r.bindings@ == safe_bindings(self.bindings@),
    {
        let mut bindings: Vec<Binding> = Vec::new();
        let mut i: usize = 0;
        proof {
            reveal(Seq::filter);
            assert(self.bindings@.take(0) =~= Seq::<Binding>::empty());
        }
        while i < self.bindings.len()
            invariant
                i <= self.bindings@.len(),
                bindings@ == safe_bindings(self.bindings@.take(i as int)),
            decreases self.bindings@.len() - i,
        {
            proof {
                reveal(Seq::filter);
                let next = self.bindings@.take(i + 1);
                assert(next.drop_last() =~= self.bindings@.take(i as int));
                assert(next.last() == self.bindings@[i as int]);
            }
            if self.bindings[i].is_bindable() {
                bindings.push(self.bindings[i].clone());
            }
            i += 1;
        }
        assert(self.bindings@.take(i as int) =~= self.bindings@);
        BindSection { enabled: self.enabled, bindings }
    }
}

impl BindSection {
    /// The chords that a capture must intercept, each as the mask of its
    /// modifiers and its key, in the order of the bindings.
    pub fn bound_chords(&self) -> (r: Vec<(u8, u32)>)
        ensures
            r@.len() == self.bindings@.len(),
            forall|i: int|
                0 <= i < r@.len() ==> (#[trigger] r@[i]).0 == self.bindings@[i].mods.mask_of()
                    && r@[i].1 == self.bindings@[i].key,
    {
        let mut out: Vec<(u8, u32)> = Vec::new();
        let mut i: usize = 0;
        while i < self.bindings.len()
            invariant
                i <= self.bindings@.len(),
                out@.len() == i,
                forall|k: int|
                    0 <= k < i ==> (#[trigger] out@[k]).0 == self.bindings@[k].mods.mask_of()
                        && out@[k].1 == self.bindings@[k].key,
            decreases self.bindings@.len() - i,
        {
            out.push((self.bindings[i].mods.mask(), self.bindings[i].key));
            i += 1;
        }
        out
    }
}

impl Default for BindSection {
    /// Scroll Lock alone cycles to the next screen, Pause alone toggles
    /// the wall lock.
    fn default() -> (r: Self)
        ensures
            r.enabled,
            r.bindings@.len() == 2,
            r.bindings@[0].mods == Mods::empty(),
            r.bindings@[0].key == hid::SCROLL_LOCK,
            r.bindings@[0].action@ == "cycle"@,
            r.bindings@[0].screen@ == Seq::<char>::empty(),
            r.bindings@[1].mods == Mods::empty(),
            r.bindings@[1].key == hid::PAUSE,
            r.bindings@[1].action@ == "lock"@,
            r.bindings@[1].screen@ == Seq::<char>::empty(),
    {
        let mut bindings: Vec<Binding> = Vec::new();
        bindings.push(
            Binding {
                mods: Mods::none(),
                key: hid::SCROLL_LOCK,
                action: "cycle".to_owned(),
                screen: String::new(),
            },
        );
        bindings.push(
            Binding {
                mods: Mods::none(),
                key: hid::PAUSE,
                action: "lock".to_owned(),
                screen: String::new(),
            },
        );
        BindSection { enabled: true, bindings }
    }
}

/// What becomes of a local key.
#[derive(Debug, PartialEq, Eq)]
pub enum KeyFate {
    /// It is nobody's shortcut: it goes where keys go.
    Forward,
    /// It is the engine's, and goes nowhere.
    Consume,
    /// It completes a chord: this command is carried out, and the key goes
    /// nowhere.
    Fire(UserAction),
}

// ---------------------------------------------------------------------
// The model of the engine
// ---------------------------------------------------------------------

/// A chord in progress: the pending non-modifier key, the modifiers held
/// with it, and when it went down.
#[derive(Debug, Clone, Copy, PartialEq, Eq, Structural)]
pub struct PendingChord {
    pub key: u32,
    pub mods: Mods,
    pub at: u64,
}

/// What the engine knows.
pub struct Chords {
    pub enabled: bool,
    pub bindings: Seq<Binding>,
    /// The modifiers held, from the key stream itself.
    pub mods: Mods,
    pub pending: Option<PendingChord>,
    /// Keys whose press fired a chord, each once: their releases are
    /// consumed too.
    pub fired: Seq<u32>,
    /// Keys consumed as chord starts: their releases are the engine's.
    pub owned: Seq<u32>,
    /// The last chord-shaped key press, bound or not.
    pub last_seen: Option<(Mods, u32)>,
}

/// Index `k` holds the first binding of the chord.
pub open spec fn binds(bs: Seq<Binding>, key: u32, mods: Mods, k: int) -> bool {
    &&& 0 <= k < bs.len()
    &&& bs[k].key == key && bs[k].mods == mods
    &&& forall|j: int| 0 <= j < k ==> !((#[trigger] bs[j]).key == key && bs[j].mods == mods)
}

/// The chord is bound.
pub open spec fn bound(bs: Seq<Binding>, key: u32, mods: Mods) -> bool {
    exists|k: int| 0 <= k < bs.len() && (#[trigger] bs[k]).key == key && bs[k].mods == mods
}

/// The key is part of some chord.
pub open spec fn chord_key(bs: Seq<Binding>, key: u32) -> bool {
    exists|k: int| 0 <= k < bs.len() && (#[trigger] bs[k]).key == key
}

/// What a binding does when it fires. An unknown action does nothing, nor
/// does a switch without a target, nor a return home from home.
pub open spec fn outcome(b: Binding, at_home: bool) -> Option<UserAction> {
    if b.action@ == "switch"@ && b.screen@.len() > 0 {
        Some(UserAction::SwitchToScreen { to: b.screen })
    } else if b.action@ == "cycle"@ {
        Some(UserAction::SwitchNext)
    } else if b.action@ == "lock"@ {
        Some(UserAction::ToggleLock)
    } else if b.action@ == "home"@ && !at_home {
        Some(UserAction::GoHome)
    } else {
        None
    }
}

/// The keys with `key` among them: one that is there already is not added
/// again.
pub open spec fn with_one(keys: Seq<u32>, key: u32) -> Seq<u32> {
    if keys.contains(key) {
        keys
    } else {
        keys.push(key)
    }
}

/// The keys less the first occurrence of `key`.
pub open spec fn less_one(keys: Seq<u32>, key: u32) -> Seq<u32> {
    if keys.contains(key) {
        keys.remove(keys.index_of_first(key)->0)
    } else {
        keys
    }
}

impl Chords {
    /// A half-typed chord that outlived its window is dropped.
    pub open spec fn ticked(self, now: u64) -> Chords {
        Chords {
            pending: match self.pending {
                Some(p) if age(now, p.at) > CHORD_LINGER => None,
                p => p,
            },
            ..self
        }
    }

    /// The chord that a press makes: with the tracked modifiers, or the
    /// caller's hint when none is tracked.
    pub open spec fn effective(self, hint: Mods) -> Mods {
        if self.mods.some_held() {
            self.mods
        } else {
            hint
        }
    }

    /// The key went down at `now`.
    pub open spec fn pressed(self, key: u32, hint: Mods, now: u64) -> Chords {
        let s = self.ticked(now);
        let eff = self.effective(hint);
        if !self.enabled {
            self
        } else if hid::modifier(key) {
            let mods = self.mods.with_key(key, true);
            Chords {
                mods,
                pending: match s.pending {
                    Some(p) => Some(PendingChord { mods, ..p }),
                    None => None,
                },
                ..s
            }
        } else if bound(self.bindings, key, eff) {
            Chords {
                pending: None,
                last_seen: Some((eff, key)),
                fired: with_one(self.fired, key),
                ..s
            }
        } else if chord_key(self.bindings, key) {
            Chords {
                pending: Some(PendingChord { key, mods: eff, at: now }),
                last_seen: Some((eff, key)),
                owned: self.owned.push(key),
                ..s
            }
        } else {
            Chords { pending: None, last_seen: Some((eff, key)), ..s }
        }
    }

    /// What the press fires.
    pub open spec fn fires(self, key: u32, hint: Mods, at_home: bool) -> Option<UserAction> {
        let eff = self.effective(hint);
        if self.enabled && !hid::modifier(key) && bound(self.bindings, key, eff) {
            outcome(self.bindings[choose|k: int| binds(self.bindings, key, eff, k)], at_home)
        } else {
            None
        }
    }

    /// A press of `key` belongs to the engine, whether it fires or not.
    pub open spec fn takes(self, key: u32) -> bool {
        self.enabled && !hid::modifier(key) && chord_key(self.bindings, key)
    }

    /// The release of `key` belongs to the engine.
    pub open spec fn claims(self, key: u32) -> bool {
        !hid::modifier(key) && (self.fired.contains(key) || self.owned.contains(key) || (
        self.pending matches Some(p) && p.key == key))
    }

    /// What becomes of a local key. A key that the engine consumed is
    /// consumed for as long as it is down: its repeats and its release are
    /// not forwarded either.
    pub open spec fn fate(self, kind: KeyKind, key: u32, at_home: bool) -> KeyFate {
        match kind {
            KeyKind::Down => match self.fires(key, Mods::empty(), at_home) {
                Some(action) => KeyFate::Fire(action),
                None => if self.takes(key) {
                    KeyFate::Consume
                } else {
                    KeyFate::Forward
                },
            },
            KeyKind::Up | KeyKind::Repeat => if self.claims(key) {
                KeyFate::Consume
            } else {
                KeyFate::Forward
            },
        }
    }

    /// The engine after a local key.
    pub open spec fn keyed(self, kind: KeyKind, key: u32, now: u64) -> Chords {
        match kind {
            KeyKind::Down => self.pressed(key, Mods::empty(), now),
            KeyKind::Up => self.released(key),
            KeyKind::Repeat => self,
        }
    }

    /// The key went up.
    pub open spec fn released(self, key: u32) -> Chords {
        if hid::modifier(key) {
            Chords { mods: self.mods.with_key(key, false), ..self }
        } else if self.fired.contains(key) {
            Chords { fired: less_one(self.fired, key), ..self }
        } else {
            Chords { owned: less_one(self.owned, key), ..self }
        }
    }
}

/// Is the key among `keys`?
fn holds(keys: &Vec<u32>, key: u32) -> (r: bool)
    ensures
        r == keys@.contains(key),
{
    let mut i: usize = 0;
    while i < keys.len()
        invariant
            i <= keys@.len(),
            forall|j: int| 0 <= j < i ==> keys@[j] != key,
        decreases keys@.len() - i,
    {
        if keys[i] == key {
            assert(keys@[i as int] == key);
            return true;
        }
        i += 1;
    }
    false
}

/// Remove the first occurrence of the key, if there is one.
fn drop_one(keys: &mut Vec<u32>, key: u32) -> (r: bool)
    ensures
        r == old(keys)@.contains(key),
        final(keys)@ == less_one(old(keys)@, key),
{
    let ghost before = keys@;
    let mut i: usize = 0;
    while i < keys.len()
        invariant
            i <= keys@.len(),
            keys@ == before,
            before == old(keys)@,
            forall|j: int| 0 <= j < i ==> before[j] != key,
        decreases keys@.len() - i,
    {
        if keys[i] == key {
            proof {
                assert(before[i as int] == key);
                before.index_of_first_ensures(key);
                assert(before.index_of_first(key)->0 == i);
            }
            keys.remove(i);
            return true;
        }
        i += 1;
    }
    false
}

/// The engine: owns bindings and the chord-in-progress state.
#[derive(Debug)]
pub struct ActionEngine {
    cfg: BindSection,
    mods: Mods,
    pending: Option<PendingChord>,
    fired: Vec<u32>,
    owned: Vec<u32>,
    last_seen: Option<(Mods, u32)>,
    clock: Clock,
}

impl View for ActionEngine {
    type V = Chords;

    closed spec fn view(&self) -> Chords {
        Chords {
            enabled: self.cfg.enabled,
            bindings: self.cfg.bindings@,
            mods: self.mods,
            pending: self.pending,
            fired: self.fired@,
            owned: self.owned@,
            last_seen: self.last_seen,
        }
    }
}

impl ActionEngine {
    /// An idle engine with the safe bindings of `cfg`.
    pub fn new(cfg: BindSection) -> (r: Self)
        ensures
            r@ == (Chords {
                enabled: cfg.enabled,
                bindings: safe_bindings(cfg.bindings@),
                mods: Mods::empty(),
                pending: None,
                fired: Seq::empty(),
                owned: Seq::empty(),
                last_seen: None,
            }),
    {
        Self::new_sanitized(cfg.sanitized())
    }

    /// The constructor after sanitization.
    pub(crate) fn new_sanitized(cfg: BindSection) -> (r: Self)
        ensures
            r@ == (Chords {
                enabled: cfg.enabled,
                bindings: cfg.bindings@,
                mods: Mods::empty(),
                pending: None,
                fired: Seq::empty(),
                owned: Seq::empty(),
                last_seen: None,
            }),
    {
        ActionEngine {
            cfg,
            mods: Mods::none(),
            pending: None,
            fired: Vec::new(),
            owned: Vec::new(),
            last_seen: None,
            clock: Clock::start(),
        }
    }

    /// The section in force.
    pub fn config(&self) -> (r: &BindSection)
        ensures
            r.enabled == self@.enabled,
            r.bindings@ == self@.bindings,
    {
        &self.cfg
    }

    /// Adopt a new config section (hot reload). Drops any half-typed
    /// chord: the old prefix may mean nothing under the new bindings.
    /// Incoming bindings pass the same safety gate as startup. Releases
    /// of consumed presses stay the engine's.
    pub fn set_config(&mut self, cfg: BindSection)
        ensures
            final(self)@ == (Chords {
                enabled: cfg.enabled,
                bindings: safe_bindings(cfg.bindings@),
                pending: None,
                ..old(self)@
            }),
    {
        self.pending = None;
        self.cfg = cfg.sanitized();
    }

    /// A local key went **down**, `now` nanoseconds on the engine's
    /// clock. Returns `Some(action)` when a chord completes: chords fire
    /// on **press**. Keys that start one of the engine's chords are
    /// consumed; everything else passes through untouched.
    ///
    /// Modifier state is tracked from the key stream; `mods` is only a
    /// hint for backends that deliver a chord as one event with no
    /// modifier history.
    pub fn key_down_at(&mut self, key: u32, mods: Mods, at_home: bool, now: u64) -> (r: Option<
        UserAction,
    >)
        ensures
            final(self)@ == old(self)@.pressed(key, mods, now),
            r == old(self)@.fires(key, mods, at_home),
    {
        if !self.cfg.enabled {
            return None;
        }
        let ghost s0 = self@;
        self.tick_at(now);
        if hid::is_modifier(key) {
            self.mods.apply_key(key, true);
            match self.pending {
                Some(p) => {
                    self.pending = Some(PendingChord { key: p.key, mods: self.mods, at: p.at });
                },
                None => {},
            }
            return None;
        }
        // A second non-modifier key while one is pending: ambiguous.
        self.pending = None;
        let effective: Mods = if self.mods.any() {
            self.mods
        } else {
            mods
        };
        self.last_seen = Some((effective, key));
        match self.find_binding(key, effective) {
            Some(k) => {
                proof {
                    let bs = s0.bindings;
                    let c = choose|c: int| binds(bs, key, effective, c);
                    assert(binds(bs, key, effective, k as int));
                    assert(binds(bs, key, effective, c));
                    assert(c == k) by {
                        if c < k {
                            assert(bs[c].key == key && bs[c].mods == effective);
                        } else if k < c {
                            assert(bs[k as int].key == key && bs[k as int].mods == effective);
                        }
                    }
                    assert(bs[k as int].key == key);
                }
                if !holds(&self.fired, key) {
                    self.fired.push(key);
                }
                return Self::fire(&self.cfg.bindings[k], at_home);
            },
            None => {},
        }
        if self.starts_chord(key) {
            self.pending = Some(PendingChord { key, mods: effective, at: now });
            self.owned.push(key);
        }
        None
    }

    /// A local key went **down** right now. See
    /// [`ActionEngine::key_down_at`]; the time is the engine clock's.
    pub fn key_down(&mut self, key: u32, mods: Mods, at_home: bool) -> (r: Option<UserAction>)
        ensures
            exists|now: u64| final(self)@ == #[trigger] old(self)@.pressed(key, mods, now),
            r == old(self)@.fires(key, mods, at_home),
    {
        let now: u64 = self.clock.now();
        self.key_down_at(key, mods, at_home, now)
    }

    /// A local key went **up**. Returns the key when it belonged to the
    /// engine (a fired chord or a pending one): the caller must not
    /// forward that release, or the client would see a key stuck down.
    /// Several consumed keys may be held at once; each owns its release.
    pub fn key_up(&mut self, key: u32) -> (r: Option<u32>)
        ensures
            final(self)@ == old(self)@.released(key),
            r == if old(self)@.claims(key) {
                Some(key)
            } else {
                None
            },
    {
        if hid::is_modifier(key) {
            self.mods.apply_key(key, false);
            return None;
        }
        if drop_one(&mut self.fired, key) {
            return Some(key);
        }
        if drop_one(&mut self.owned, key) {
            return Some(key);
        }
        match self.pending {
            Some(p) => if p.key == key {
                return Some(key);
            },
            None => {},
        }
        None
    }

    /// Is the release of this key the engine's?
    fn owns(&self, key: u32) -> (r: bool)
        ensures
            r == self@.claims(key),
    {
        let pending: bool = match self.pending {
            Some(p) => p.key == key,
            None => false,
        };
        !hid::is_modifier(key) && (holds(&self.fired, key) || holds(&self.owned, key) || pending)
    }

    /// One local key of any kind, `now` nanoseconds on the engine's clock:
    /// what becomes of it. See [`Chords::fate`].
    pub fn on_key_at(&mut self, kind: KeyKind, key: u32, at_home: bool, now: u64) -> (r: KeyFate)
        ensures
            final(self)@ == old(self)@.keyed(kind, key, now),
            r == old(self)@.fate(kind, key, at_home),
    {
        match kind {
            KeyKind::Down => {
                let mine: bool = self.consumes(key);
                match self.key_down_at(key, Mods::none(), at_home, now) {
                    Some(action) => KeyFate::Fire(action),
                    None => if mine {
                        KeyFate::Consume
                    } else {
                        KeyFate::Forward
                    },
                }
            },
            KeyKind::Up => match self.key_up(key) {
                Some(_) => KeyFate::Consume,
                None => KeyFate::Forward,
            },
            KeyKind::Repeat => if self.owns(key) {
                KeyFate::Consume
            } else {
                KeyFate::Forward
            },
        }
    }

    /// The last chord-shaped key press (mods + HID key), bound or not.
    pub fn last_seen(&self) -> (r: Option<(Mods, u32)>)
        ensures
            r == self@.last_seen,
    {
        self.last_seen
    }

    /// Would this (mods, key) pair fire a binding right now? A disabled
    /// engine fires none.
    pub fn is_bound(&self, mods: Mods, key: u32) -> (r: bool)
        ensures
            r == (self@.enabled && bound(self@.bindings, key, mods)),
    {
        if !self.cfg.enabled {
            return false;
        }
        match self.find_binding(key, mods) {
            Some(k) => {
                assert(self@.bindings[k as int].key == key);
                true
            },
            None => false,
        }
    }

    /// Expire a half-typed chord that outlived its window, `now`
    /// nanoseconds on the engine's clock.
    pub fn tick_at(&mut self, now: u64)
        ensures
            final(self)@ == old(self)@.ticked(now),
    {
        match self.pending {
            Some(p) => if elapsed(now, p.at) > CHORD_LINGER {
                self.pending = None;
            },
            None => {},
        }
    }

    /// Expire a half-typed chord that outlived its window.
    pub fn tick(&mut self)
        ensures
            exists|now: u64| final(self)@ == #[trigger] old(self)@.ticked(now),
    {
        let now: u64 = self.clock.now();
        self.tick_at(now);
    }

    /// The index of the first binding of the chord.
    fn find_binding(&self, key: u32, mods: Mods) -> (r: Option<usize>)
        ensures
            match r {
                Some(k) => binds(self@.bindings, key, mods, k as int),
                None => !bound(self@.bindings, key, mods),
            },
    {
        let mut i: usize = 0;
        while i < self.cfg.bindings.len()
            invariant
                i <= self.cfg.bindings@.len(),
                forall|j: int|
                    0 <= j < i ==> !((#[trigger] self.cfg.bindings@[j]).key == key
                        && self.cfg.bindings@[j].mods == mods),
            decreases self.cfg.bindings@.len() - i,
        {
            if self.cfg.bindings[i].key == key && self.cfg.bindings[i].mods == mods {
                return Some(i);
            }
            i += 1;
        }
        None
    }

    /// Is a press of this key the engine's? The caller must not forward
    /// such a press.
    pub fn consumes(&self, key: u32) -> (r: bool)
        ensures
            r == self@.takes(key),
    {
        self.cfg.enabled && !hid::is_modifier(key) && self.starts_chord(key)
    }

    /// Is the key part of some chord?
    fn starts_chord(&self, key: u32) -> (r: bool)
        ensures
            r == chord_key(self@.bindings, key),
    {
        let mut i: usize = 0;
        while i < self.cfg.bindings.len()
            invariant
                i <= self.cfg.bindings@.len(),
                forall|j: int| 0 <= j < i ==> (#[trigger] self.cfg.bindings@[j]).key != key,
            decreases self.cfg.bindings@.len() - i,
        {
            if self.cfg.bindings[i].key == key {
                assert(self@.bindings[i as int].key == key);
                return true;
            }
            i += 1;
        }
        false
    }

    /// What the binding does when it fires.
    fn fire(spec: &Binding, at_home: bool) -> (r: Option<UserAction>)
        ensures
            r == outcome(*spec, at_home),
    {
        let action: &str = spec.action.as_str();
        if same(action, "switch") && !spec.screen.as_str().is_empty() {
            Some(UserAction::SwitchToScreen { to: spec.screen.clone() })
        } else if same(action, "cycle") {
            Some(UserAction::SwitchNext)
        } else if same(action, "lock") {
            Some(UserAction::ToggleLock)
        } else if same(action, "home") && !at_home {
            Some(UserAction::GoHome)
        } else {
            None
        }
    }
}

} // verus!
