//! What holds of every action engine.
use vstd::prelude::*;

use crate::actions::{
    bound, chord_key, hid, less_one, safe_bindings, with_one, Binding, Chords, Mods,
};
use crate::protocol::KeyKind;

verus! {

/// Something that happens to an engine.
pub enum KeyEvent {
    /// A key goes down, with the caller's modifier hint, at a time.
    Down(u32, Mods, u64),
    /// A key goes up.
    Up(u32),
    /// Another section is adopted: its master switch and its bindings.
    Reload(bool, Seq<Binding>),
}

/// The engine after an event.
pub open spec fn step(s: Chords, e: KeyEvent) -> Chords {
    match e {
        KeyEvent::Down(key, hint, now) => s.pressed(key, hint, now),
        KeyEvent::Up(key) => s.released(key),
        KeyEvent::Reload(enabled, bs) => Chords {
            enabled,
            bindings: safe_bindings(bs),
            pending: None,
            ..s
        },
    }
}

/// The engine after a run of events.
pub open spec fn run(s: Chords, es: Seq<KeyEvent>) -> Chords
    decreases es.len(),
{
    if es.len() == 0 {
        s
    } else {
        step(run(s, es.drop_last()), es.last())
    }
}

/// The key is not released in the run.
pub open spec fn held_through(es: Seq<KeyEvent>, key: u32) -> bool {
    forall|i: int| 0 <= i < es.len() ==> #[trigger] es[i] != KeyEvent::Up(key)
}

/// Sanitizing is final: every binding that is kept is safe, and
/// sanitizing again changes nothing.
pub proof fn sanitizing_is_final(bs: Seq<Binding>)
    ensures
        forall|i: int|
            0 <= i < safe_bindings(bs).len() ==> (#[trigger] safe_bindings(bs)[i]).bindable(),
        safe_bindings(safe_bindings(bs)) == safe_bindings(bs),
{
    broadcast use vstd::seq_lib::group_filter_ensures;

    let p = |b: Binding| b.bindable();
    let once = safe_bindings(bs);
    assert forall|i: int| 0 <= i < once.len() implies (#[trigger] once[i]).bindable() by {
        assert(once.contains(once[i]));
        assert(p(once[i]));
    }
    lemma_filter_keeps_all(once, p);
}

proof fn lemma_filter_keeps_all(s: Seq<Binding>, p: spec_fn(Binding) -> bool)
    requires
        forall|i: int| 0 <= i < s.len() ==> p(#[trigger] s[i]),
    ensures
        s.filter(p) == s,
    decreases s.len(),
{
    reveal(Seq::filter);
    if s.len() > 0 {
        lemma_filter_keeps_all(s.drop_last(), p);
        assert(s.drop_last().push(s.last()) =~= s);
    }
}

/// A safe binding is never dropped, and an unsafe one never survives.
pub proof fn gate_is_exact(bs: Seq<Binding>, b: Binding)
    ensures
        safe_bindings(bs).contains(b) <==> bs.contains(b) && b.bindable(),
{
    lemma_filter_contains(bs, |x: Binding| x.bindable(), b);
}

proof fn lemma_filter_contains(s: Seq<Binding>, p: spec_fn(Binding) -> bool, b: Binding)
    ensures
        s.filter(p).contains(b) <==> s.contains(b) && p(b),
    decreases s.len(),
{
    reveal(Seq::filter);
    if s.len() > 0 {
        let before = s.drop_last();
        lemma_filter_contains(before, p, b);
        assert(s =~= before.push(s.last()));
        assert(s.contains(b) <==> before.contains(b) || s.last() == b) by {
            if before.contains(b) {
                let i = choose|i: int| 0 <= i < before.len() && before[i] == b;
                assert(s[i] == b);
            }
            if s.last() == b {
                assert(s[s.len() - 1] == b);
            }
        }
        let f = before.filter(p);
        assert(f.push(s.last()).contains(b) <==> f.contains(b) || s.last() == b) by {
            let g = f.push(s.last());
            if f.contains(b) {
                let i = choose|i: int| 0 <= i < f.len() && f[i] == b;
                assert(g[i] == b);
            }
            if s.last() == b {
                assert(g[f.len() as int] == b);
            }
        }
    }
}

/// Every binding in force is safe: an engine that starts with safe
/// bindings has only safe bindings, whatever is reloaded.
pub proof fn bindings_in_force_are_safe(s: Chords, es: Seq<KeyEvent>)
    requires
        forall|i: int| 0 <= i < s.bindings.len() ==> (#[trigger] s.bindings[i]).bindable(),
    ensures
        forall|i: int|
            0 <= i < run(s, es).bindings.len() ==> (#[trigger] run(s, es).bindings[i]).bindable(),
    decreases es.len(),
{
    if es.len() > 0 {
        bindings_in_force_are_safe(s, es.drop_last());
        if let KeyEvent::Reload(_, bs) = es.last() {
            sanitizing_is_final(bs);
        }
    }
}

/// A bare press of a workhorse key (a letter, Tab, Enter) never fires: it
/// takes a modifier, or a key no application acts on.
pub proof fn bare_workhorse_keys_never_fire(s: Chords, key: u32, at_home: bool)
    requires
        forall|i: int| 0 <= i < s.bindings.len() ==> (#[trigger] s.bindings[i]).bindable(),
        !s.mods.some_held(),
        !crate::actions::harmless_bare(key),
    ensures
        s.fires(key, Mods::empty(), at_home) is None,
{
    assert(!bound(s.bindings, key, Mods::empty())) by {
        if bound(s.bindings, key, Mods::empty()) {
            let k = choose|k: int|
                0 <= k < s.bindings.len() && (#[trigger] s.bindings[k]).key == key
                    && s.bindings[k].mods == Mods::empty();
            assert(s.bindings[k].bindable());
        }
    }
}

/// A disabled engine is inert: a press neither fires nor changes it.
pub proof fn disabled_engine_is_inert(s: Chords, key: u32, hint: Mods, at_home: bool, now: u64)
    requires
        !s.enabled,
    ensures
        s.pressed(key, hint, now) == s,
        s.fires(key, hint, at_home) is None,
{
}

/// Modifiers always pass through: their presses fire nothing and their
/// releases are never the engine's.
pub proof fn modifiers_pass_through(s: Chords, key: u32, hint: Mods, at_home: bool)
    requires
        hid::modifier(key),
    ensures
        s.fires(key, hint, at_home) is None,
        !s.claims(key),
{
}

/// An unbound key passes through: its press fires nothing and leaves the
/// engine no claim on it that it did not have.
pub proof fn unbound_keys_pass_through(s: Chords, key: u32, hint: Mods, at_home: bool, now: u64)
    requires
        !chord_key(s.bindings, key),
        !s.claims(key),
    ensures
        s.fires(key, hint, at_home) is None,
        !s.pressed(key, hint, now).claims(key),
{
    assert(!bound(s.bindings, key, s.effective(hint)));
}

/// A press and its release go together: of a key on which the engine has
/// no claim, it takes the press exactly where it then claims the release.
pub proof fn press_and_release_go_together(s: Chords, key: u32, hint: Mods, now: u64)
    requires
        !s.claims(key),
    ensures
        s.pressed(key, hint, now).claims(key) == s.takes(key),
{
    let t = s.pressed(key, hint, now);
    let eff = s.effective(hint);
    if s.takes(key) && !bound(s.bindings, key, eff) {
        assert(t.owned.last() == key);
    }
    if bound(s.bindings, key, eff) {
        let k = choose|k: int|
            0 <= k < s.bindings.len() && (#[trigger] s.bindings[k]).key == key && s.bindings[k].mods
                == eff;
        assert(s.bindings[k].key == key);
        lemma_with_one_keeps(s.fired, key, key);
    }
}

proof fn lemma_with_one_keeps(keys: Seq<u32>, key: u32, other: u32)
    ensures
        with_one(keys, key).contains(key),
        keys.contains(other) ==> with_one(keys, key).contains(other),
{
    let t = with_one(keys, key);
    if !keys.contains(key) {
        assert(t[keys.len() as int] == key);
    }
    if keys.contains(other) {
        let i = choose|i: int| 0 <= i < keys.len() && keys[i] == other;
        assert(t[i] == other);
    }
}

proof fn lemma_less_one_keeps(keys: Seq<u32>, key: u32, other: u32)
    requires
        key != other,
        keys.contains(other),
    ensures
        less_one(keys, key).contains(other),
{
    let i = choose|i: int| 0 <= i < keys.len() && keys[i] == other;
    if keys.contains(key) {
        keys.index_of_first_ensures(key);
        let f = keys.index_of_first(key)->0;
        let t = less_one(keys, key);
        if i < f {
            assert(t[i] == other);
        } else {
            assert(t[i - 1] == other);
        }
    }
}

proof fn lemma_held_key_stays(s: Chords, e: KeyEvent, key: u32)
    requires
        e != KeyEvent::Up(key),
    ensures
        s.owned.contains(key) ==> step(s, e).owned.contains(key),
        s.fired.contains(key) ==> step(s, e).fired.contains(key),
{
    match e {
        KeyEvent::Down(k, hint, now) => {
            lemma_with_one_keeps(s.fired, k, key);
            if s.owned.contains(key) {
                let i = choose|i: int| 0 <= i < s.owned.len() && s.owned[i] == key;
                assert(s.pressed(k, hint, now).owned[i] == key);
            }
        },
        KeyEvent::Up(k) => {
            if s.owned.contains(key) {
                lemma_less_one_keeps(s.owned, k, key);
            }
            if s.fired.contains(key) {
                lemma_less_one_keeps(s.fired, k, key);
            }
        },
        KeyEvent::Reload(_, _) => {},
    }
}

/// A key that the engine holds, as the start of a chord or because its
/// press fired one, stays the engine's until it is released: whatever else
/// is typed, fired or reloaded, its release is consumed.
pub proof fn held_key_owns_its_release(s: Chords, es: Seq<KeyEvent>, key: u32)
    requires
        s.owned.contains(key) || s.fired.contains(key),
        !hid::modifier(key),
        held_through(es, key),
    ensures
        run(s, es).claims(key),
        run(s, es).owned.contains(key) || run(s, es).fired.contains(key),
    decreases es.len(),
{
    if es.len() > 0 {
        let before = es.drop_last();
        assert forall|i: int| 0 <= i < before.len() implies #[trigger] before[i] != KeyEvent::Up(
            key,
        ) by {
            assert(before[i] == es[i]);
        }
        held_key_owns_its_release(s, before, key);
        assert(es[es.len() - 1] == es.last());
        lemma_held_key_stays(run(s, before), es.last(), key);
    }
}

/// A consumed press owns its release: once the press of a chord's key has
/// been taken, fired or not, its release is consumed too, whatever other
/// keys do, whatever they fire, and whatever is reloaded in between.
pub proof fn consumed_press_owns_its_release(
    s: Chords,
    key: u32,
    hint: Mods,
    now: u64,
    es: Seq<KeyEvent>,
)
    requires
        s.takes(key),
        held_through(es, key),
    ensures
        run(s.pressed(key, hint, now), es).claims(key),
{
    let t = s.pressed(key, hint, now);
    if bound(s.bindings, key, s.effective(hint)) {
        lemma_with_one_keeps(s.fired, key, key);
    } else {
        assert(t.owned[s.owned.len() as int] == key);
    }
    held_key_owns_its_release(t, es, key);
}

/// A consumed key is never forwarded: after its press has been taken, none
/// of its repeats goes anywhere, and its release does not either, whatever
/// other keys do and whatever is reloaded in between.
pub proof fn consumed_key_is_never_forwarded(
    s: Chords,
    key: u32,
    now: u64,
    es: Seq<KeyEvent>,
    at_home: bool,
)
    requires
        s.takes(key),
        held_through(es, key),
    ensures
        s.fate(KeyKind::Down, key, at_home) !is Forward,
        run(s.keyed(KeyKind::Down, key, now), es).fate(KeyKind::Repeat, key, at_home) is Consume,
        run(s.keyed(KeyKind::Down, key, now), es).fate(KeyKind::Up, key, at_home) is Consume,
{
    consumed_press_owns_its_release(s, key, Mods::empty(), now, es);
}

/// A key that no chord has, and that the engine does not hold, always goes
/// on, press, repeats and release.
pub proof fn other_keys_are_forwarded(s: Chords, key: u32, kind: KeyKind, at_home: bool)
    requires
        !chord_key(s.bindings, key) || hid::modifier(key) || !s.enabled,
        !s.claims(key),
    ensures
        s.fate(kind, key, at_home) is Forward,
{
    if !chord_key(s.bindings, key) {
        assert(!bound(s.bindings, key, s.effective(Mods::empty())));
    }
}

/// A chord's press and release leave no claim behind: of a key on which
/// the engine had no claim, one press that fires and one release give the
/// engine no claim on it again.
pub proof fn fired_key_is_let_go(s: Chords, key: u32, hint: Mods, now: u64)
    requires
        !s.claims(key),
        s.takes(key),
        bound(s.bindings, key, s.effective(hint)),
    ensures
        !s.pressed(key, hint, now).released(key).claims(key),
{
    let t = s.pressed(key, hint, now);
    assert(t.fired[s.fired.len() as int] == key);
    t.fired.index_of_first_ensures(key);
    assert(t.fired.index_of_first(key)->0 == s.fired.len()) by {
        let f = t.fired.index_of_first(key)->0;
        if f < s.fired.len() {
            assert(s.fired[f] == key);
        }
    }
    assert(less_one(t.fired, key) =~= s.fired);
}

/// Asking whether a chord is bound agrees with pressing it: the press of a
/// chord that is not bound fires nothing.
pub proof fn unbound_chords_never_fire(s: Chords, key: u32, hint: Mods, at_home: bool)
    requires
        !(s.enabled && bound(s.bindings, key, s.effective(hint))),
    ensures
        s.fires(key, hint, at_home) is None,
{
}

} // verus!
