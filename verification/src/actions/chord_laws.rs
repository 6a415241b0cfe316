//! Which keys make which chord, and which chord does what.
use vstd::prelude::*;

use crate::actions::{
    binds, bound, chord_key, hid, less_one, outcome, Binding, Chords, KeyFate, Mods, PendingChord,
    UserAction,
};
use crate::protocol::KeyKind;

verus! {

/// The two keys of each modifier set its flag when pressed and clear it
/// when released, and leave the three others alone. Every other key leaves
/// all four alone.
pub proof fn modifier_keys_set_their_own_flag(m: Mods, key: u32, down: bool)
    ensures
        ({
            let t = m.with_key(key, down);
            &&& key == 0xE0 || key == 0xE4 ==> t.ctrl == down
            &&& key == 0xE1 || key == 0xE5 ==> t.shift == down
            &&& key == 0xE2 || key == 0xE6 ==> t.alt == down
            &&& key == 0xE3 || key == 0xE7 ==> t.meta == down
            &&& key != 0xE0 && key != 0xE4 ==> t.ctrl == m.ctrl
            &&& key != 0xE1 && key != 0xE5 ==> t.shift == m.shift
            &&& key != 0xE2 && key != 0xE6 ==> t.alt == m.alt
            &&& key != 0xE3 && key != 0xE7 ==> t.meta == m.meta
        }),
        hid::modifier(key) <==> 0xE0 <= key <= 0xE7,
{
}

/// The mask tells the four modifiers apart: control is its lowest bit, then
/// alt, shift and meta.
pub proof fn the_mask_names_the_modifiers(m: Mods)
    ensures
        0 <= m.mask_of() < 16,
        m.mask_of() % 2 == 1 <==> m.ctrl,
        m.mask_of() / 2 % 2 == 1 <==> m.alt,
        m.mask_of() / 4 % 2 == 1 <==> m.shift,
        m.mask_of() / 8 % 2 == 1 <==> m.meta,
        m.some_held() <==> m.mask_of() != 0,
{
}

/// A binding is safe to swallow exactly when it names a real key that is no
/// modifier, together with a modifier or else Scroll Lock, Pause or one of
/// F13 to F24.
pub proof fn what_may_be_bound(b: Binding)
    ensures
        b.bindable() <==> b.key >= 4 && !(0xE0 <= b.key <= 0xE7) && (b.mods.ctrl || b.mods.alt
            || b.mods.shift || b.mods.meta || b.key == 0x47 || b.key == 0x48 || 0x68 <= b.key
            <= 0x73),
{
}

/// What a binding asks for is what its action says: `switch` goes to the
/// screen it names, `cycle` to the next one, `lock` toggles the walls, and
/// `home` returns home from elsewhere. Nothing else does anything.
pub proof fn each_action_word_has_its_command(b: Binding, at_home: bool)
    ensures
        b.action@ == "switch"@ && b.screen@.len() > 0 ==> outcome(b, at_home) == Some(
            UserAction::SwitchToScreen { to: b.screen },
        ),
        b.action@ == "switch"@ && b.screen@.len() == 0 ==> outcome(b, at_home) is None,
        b.action@ == "cycle"@ ==> outcome(b, at_home) == Some(UserAction::SwitchNext),
        b.action@ == "lock"@ ==> outcome(b, at_home) == Some(UserAction::ToggleLock),
        b.action@ == "home"@ && !at_home ==> outcome(b, at_home) == Some(UserAction::GoHome),
        b.action@ == "home"@ && at_home ==> outcome(b, at_home) is None,
        b.action@ != "switch"@ && b.action@ != "cycle"@ && b.action@ != "lock"@ && b.action@
            != "home"@ ==> outcome(b, at_home) is None,
{
    reveal_strlit("switch");
    reveal_strlit("cycle");
    reveal_strlit("lock");
    reveal_strlit("home");
    assert("switch"@[0] == 's' && "cycle"@[0] == 'c' && "lock"@[0] == 'l' && "home"@[0] == 'h');
}

/// Index `k` holds the first binding of this key with exactly these
/// modifiers.
pub open spec fn first_match(bs: Seq<Binding>, key: u32, m: Mods, k: int) -> bool {
    &&& 0 <= k < bs.len()
    &&& bs[k].key == key
    &&& bs[k].mods.ctrl == m.ctrl && bs[k].mods.alt == m.alt
    &&& bs[k].mods.shift == m.shift && bs[k].mods.meta == m.meta
    &&& forall|j: int|
        0 <= j < k ==> (#[trigger] bs[j]).key != key || bs[j].mods.ctrl != m.ctrl || bs[j].mods.alt
            != m.alt || bs[j].mods.shift != m.shift || bs[j].mods.meta != m.meta
}

/// Some binding is of this key with exactly these modifiers.
pub open spec fn matched(bs: Seq<Binding>, key: u32, m: Mods) -> bool {
    exists|k: int|
        0 <= k < bs.len() && (#[trigger] bs[k]).key == key && bs[k].mods.ctrl == m.ctrl
            && bs[k].mods.alt == m.alt && bs[k].mods.shift == m.shift && bs[k].mods.meta == m.meta
}

/// The modifiers that a press is read with: those that are held, or where
/// none is, the caller's hint.
pub open spec fn read_with(s: Chords, hint: Mods) -> Mods {
    if s.mods.ctrl || s.mods.alt || s.mods.shift || s.mods.meta {
        s.mods
    } else {
        hint
    }
}

/// A press fires the first binding of its key with exactly the modifiers
/// held. A disabled engine fires nothing, and a modifier key neither.
pub proof fn a_press_fires_the_matching_binding(s: Chords, key: u32, hint: Mods, at_home: bool)
    ensures
        forall|k: int|
            s.enabled && !(0xE0 <= key <= 0xE7) && #[trigger] first_match(
                s.bindings,
                key,
                read_with(s, hint),
                k,
            ) ==> s.fires(key, hint, at_home) == outcome(s.bindings[k], at_home),
        !s.enabled || 0xE0 <= key <= 0xE7 || !matched(s.bindings, key, read_with(s, hint))
            ==> s.fires(key, hint, at_home) is None,
        bound(s.bindings, key, hint) <==> matched(s.bindings, key, hint),
        chord_key(s.bindings, key) <==> exists|k: int|
            0 <= k < s.bindings.len() && (#[trigger] s.bindings[k]).key == key,
{
    let m = s.effective(hint);
    let bs = s.bindings;
    assert(m == read_with(s, hint));
    assert forall|k: int|
        s.enabled && !(0xE0 <= key <= 0xE7) && #[trigger] first_match(
            bs,
            key,
            m,
            k,
        ) implies s.fires(key, hint, at_home) == outcome(bs[k], at_home) by {
        assert(bs[k].mods == m);
        assert forall|j: int| 0 <= j < k implies !((#[trigger] bs[j]).key == key && bs[j].mods
            == m) by {}
        assert(binds(bs, key, m, k));
        let c = choose|c: int| binds(bs, key, m, c);
        assert(binds(bs, key, m, c));
        if c < k {
            assert(!(bs[c].key == key && bs[c].mods == m));
        } else if k < c {
            assert(!(bs[k].key == key && bs[k].mods == m));
        }
        assert(bound(bs, key, m));
    }
    if bound(bs, key, m) {
        let k = choose|k: int| 0 <= k < bs.len() && (#[trigger] bs[k]).key == key && bs[k].mods == m;
        assert(bs[k].mods.ctrl == m.ctrl);
        assert(matched(bs, key, m));
    }
    if bound(bs, key, hint) {
        let k = choose|k: int|
            0 <= k < bs.len() && (#[trigger] bs[k]).key == key && bs[k].mods == hint;
        assert(bs[k].mods.ctrl == hint.ctrl);
    }
    if matched(bs, key, hint) {
        let k = choose|k: int|
            0 <= k < bs.len() && (#[trigger] bs[k]).key == key && bs[k].mods.ctrl == hint.ctrl
                && bs[k].mods.alt == hint.alt && bs[k].mods.shift == hint.shift && bs[k].mods.meta
                == hint.meta;
        assert(bs[k].mods == hint);
    }
}

/// A modifier and a key make their chord: with every modifier up, pressing
/// a modifier key and then a bound key fires the binding of that key with
/// that one modifier, and no other.
pub proof fn a_modifier_then_a_key_fires_their_chord(
    s: Chords,
    modifier: u32,
    key: u32,
    k: int,
    hint: Mods,
    now: u64,
    at_home: bool,
)
    requires
        s.enabled,
        !s.mods.ctrl && !s.mods.alt && !s.mods.shift && !s.mods.meta,
        0xE0 <= modifier <= 0xE7,
        !(0xE0 <= key <= 0xE7),
        0 <= k < s.bindings.len(),
        s.bindings[k].key == key,
        forall|j: int| 0 <= j < s.bindings.len() && j != k ==> (#[trigger] s.bindings[j]).key != key,
    ensures
        ({
            let m = s.bindings[k].mods;
            let with_one_modifier = s.pressed(modifier, hint, now);
            let only = (m.ctrl <==> (modifier == 0xE0 || modifier == 0xE4)) && (m.shift <==> (
            modifier == 0xE1 || modifier == 0xE5)) && (m.alt <==> (modifier == 0xE2 || modifier
                == 0xE6)) && (m.meta <==> (modifier == 0xE3 || modifier == 0xE7));
            &&& only ==> with_one_modifier.fires(key, Mods::empty(), at_home) == outcome(
                s.bindings[k],
                at_home,
            )
            &&& !only ==> with_one_modifier.fires(key, Mods::empty(), at_home) is None
            &&& with_one_modifier.released(modifier).fires(key, Mods::empty(), at_home) == s.fires(
                key,
                Mods::empty(),
                at_home,
            )
        }),
{
    let t = s.pressed(modifier, hint, now);
    let none = Mods::empty();
    a_press_fires_the_matching_binding(t, key, none, at_home);
    let m = read_with(t, none);
    assert(t.bindings == s.bindings);
    if matched(t.bindings, key, m) {
        assert(first_match(t.bindings, key, m, k));
    }
    let u = t.released(modifier);
    a_press_fires_the_matching_binding(u, key, none, at_home);
    a_press_fires_the_matching_binding(s, key, none, at_home);
    if matched(s.bindings, key, none) {
        assert(first_match(s.bindings, key, none, k));
        assert(first_match(u.bindings, key, none, k));
    }
}

/// A chord in progress is dropped after five seconds, and only then; an
/// expiry touches nothing else.
pub proof fn a_half_typed_chord_lingers_five_seconds(s: Chords, now: u64)
    ensures
        s.ticked(now).pending is Some <==> s.pending is Some && now <= s.pending->0.at
            + 5_000_000_000,
        s.ticked(now).pending is Some ==> s.ticked(now).pending == s.pending,
        s.ticked(now) == (Chords { pending: s.ticked(now).pending, ..s }),
{
}

/// How often a key occurs.
pub open spec fn times(keys: Seq<u32>, key: u32) -> nat {
    keys.to_multiset().count(key)
}

proof fn lemma_times(keys: Seq<u32>, key: u32, other: u32)
    ensures
        times(keys.push(key), other) == times(keys, other) + if key == other {
            1nat
        } else {
            0nat
        },
        keys.contains(key) <==> times(keys, key) > 0,
        keys.contains(key) ==> times(less_one(keys, key), other) + (if key == other {
            1nat
        } else {
            0nat
        }) == times(keys, other),
{
    broadcast use vstd::seq_lib::group_to_multiset_ensures;

    if keys.contains(key) {
        keys.index_of_first_ensures(key);
        let f = keys.index_of_first(key)->0;
        assert(keys[f] == key);
        assert(keys.remove(f).to_multiset() =~= keys.to_multiset().remove(key));
    }
}

/// What a press does to the engine. A modifier is tracked, also for the
/// chord in progress. The press of a chord's key belongs to the engine:
/// one that fires is remembered once, one that fires nothing starts a
/// chord. Any other press ends a chord in progress.
pub proof fn what_a_press_leaves(s: Chords, key: u32, hint: Mods, now: u64, other: u32)
    ensures
        ({
            let t = s.pressed(key, hint, now);
            let m = read_with(s, hint);
            let is_modifier = 0xE0 <= key <= 0xE7;
            let lingers = s.pending is Some && now <= s.pending->0.at + 5_000_000_000;
            let same = if other == key {
                1nat
            } else {
                0nat
            };
            &&& t.enabled == s.enabled && t.bindings == s.bindings
            &&& !s.enabled ==> t == s
            &&& s.enabled && is_modifier ==> {
                &&& t.mods == s.mods.with_key(key, true)
                &&& t.fired == s.fired && t.owned == s.owned && t.last_seen == s.last_seen
                &&& t.pending is Some <==> lingers
                &&& lingers ==> t.pending == Some(
                    PendingChord { key: s.pending->0.key, mods: t.mods, at: s.pending->0.at },
                )
            }
            &&& s.enabled && !is_modifier ==> {
                let fires = matched(s.bindings, key, m);
                let starts = !fires && chord_key(s.bindings, key);
                &&& t.mods == s.mods
                &&& t.last_seen == Some((m, key))
                &&& t.pending == if starts {
                    Some(PendingChord { key, mods: m, at: now })
                } else {
                    None
                }
                &&& times(t.fired, other) == if fires && times(s.fired, key) == 0 {
                    times(s.fired, other) + same
                } else {
                    times(s.fired, other)
                }
                &&& times(t.owned, other) == if starts {
                    times(s.owned, other) + same
                } else {
                    times(s.owned, other)
                }
            }
        }),
{
    a_press_fires_the_matching_binding(s, key, read_with(s, hint), true);
    lemma_times(s.fired, key, other);
    lemma_times(s.owned, key, other);
    assert(hid::modifier(key) <==> 0xE0 <= key <= 0xE7);
    assert(s.effective(hint) == read_with(s, hint));
}

/// What a release does to the engine: a modifier's is tracked; another
/// key's takes back one claim on it, a fired one first, and touches no
/// other key.
pub proof fn what_a_release_leaves(s: Chords, key: u32, other: u32)
    ensures
        ({
            let t = s.released(key);
            let is_modifier = 0xE0 <= key <= 0xE7;
            &&& t.enabled == s.enabled && t.bindings == s.bindings
            &&& t.pending == s.pending && t.last_seen == s.last_seen
            &&& is_modifier ==> t.mods == s.mods.with_key(key, false) && t.fired == s.fired
                && t.owned == s.owned
            &&& !is_modifier ==> t.mods == s.mods
            &&& !is_modifier && other != key ==> times(t.fired, other) == times(s.fired, other)
                && times(t.owned, other) == times(s.owned, other)
            &&& !is_modifier && times(s.fired, key) > 0 ==> times(t.fired, key) + 1 == times(
                s.fired,
                key,
            ) && t.owned == s.owned
            &&& !is_modifier && times(s.fired, key) == 0 ==> t.fired == s.fired && times(
                t.owned,
                key,
            ) + (if times(s.owned, key) > 0 {
                1nat
            } else {
                0nat
            }) == times(s.owned, key)
        }),
{
    lemma_times(s.fired, key, other);
    lemma_times(s.owned, key, other);
    lemma_times(s.fired, key, key);
    lemma_times(s.owned, key, key);
    assert(hid::modifier(key) <==> 0xE0 <= key <= 0xE7);
}

/// What becomes of a key: a press that fires is carried out, another press
/// of a chord's key is swallowed, and so are the repeats and the release of
/// a key that the engine holds. Everything else goes on.
pub proof fn where_a_key_goes(s: Chords, key: u32, at_home: bool, now: u64)
    ensures
        ({
            let fires = s.fires(key, Mods::empty(), at_home);
            let is_modifier = 0xE0 <= key <= 0xE7;
            let mine = s.enabled && !is_modifier && exists|k: int|
                0 <= k < s.bindings.len() && (#[trigger] s.bindings[k]).key == key;
            let held = !is_modifier && (s.fired.contains(key) || s.owned.contains(key) || (
            s.pending is Some && s.pending->0.key == key));
            let down = s.fate(KeyKind::Down, key, at_home);
            &&& fires is Some ==> down == KeyFate::Fire(fires->0)
            &&& fires is None && mine ==> down is Consume
            &&& fires is None && !mine ==> down is Forward
            &&& s.fate(KeyKind::Up, key, at_home) is Consume <==> held
            &&& s.fate(KeyKind::Up, key, at_home) is Forward <==> !held
            &&& s.fate(KeyKind::Repeat, key, at_home) is Consume <==> held
            &&& s.fate(KeyKind::Repeat, key, at_home) is Forward <==> !held
            &&& s.takes(key) <==> mine
            &&& s.claims(key) <==> held
            &&& s.keyed(KeyKind::Down, key, now) == s.pressed(key, Mods::empty(), now)
            &&& s.keyed(KeyKind::Up, key, now) == s.released(key)
            &&& s.keyed(KeyKind::Repeat, key, now) == s
        }),
{
    assert(hid::modifier(key) <==> 0xE0 <= key <= 0xE7);
}

} // verus!
