use kvmshare::actions::hid;
use kvmshare::actions::{ActionEngine, BindSection, Binding, KeyFate, Mods, UserAction};
use kvmshare::protocol::KeyKind;

fn engine() -> ActionEngine {
    ActionEngine::new(BindSection::default())
}

#[test]
fn scroll_lock_tap_fires_once_on_press() {
    let mut e = engine();
    let fired = e.key_down(hid::SCROLL_LOCK, Mods::none(), true);
    assert!(fired.is_some(), "the chord fires on press");
    // The release is consumed (belongs to the engine), no second fire.
    assert_eq!(e.key_up(hid::SCROLL_LOCK), Some(hid::SCROLL_LOCK));
    // Repeatable: press again, fires again.
    assert!(e.key_down(hid::SCROLL_LOCK, Mods::none(), true).is_some());
    assert_eq!(e.key_up(hid::SCROLL_LOCK), Some(hid::SCROLL_LOCK));
}

#[test]
fn unbound_keys_pass_through() {
    let mut e = engine();
    assert!(e.key_down(0x04, Mods::none(), true).is_none()); // 'a'
    assert!(e.key_up(0x04).is_none());
}

#[test]
fn chord_key_down_is_consumed_and_never_leaks() {
    let mut e = engine();
    // Scroll Lock down fires the chord (cycle) and is consumed.
    assert!(e.key_down(hid::SCROLL_LOCK, Mods::none(), false).is_some());
    // Release belongs to the engine — the caller must not forward it.
    assert!(e.key_up(hid::SCROLL_LOCK).is_some());
}

#[test]
fn second_non_modifier_key_abandons_the_chord() {
    let mut e = engine();
    e.key_down(hid::SCROLL_LOCK, Mods::none(), true);
    // 'a' arrives mid-chord: the chord is abandoned, 'a' passes through.
    assert!(e.key_down(0x04, Mods::none(), true).is_none());
    assert!(e.key_up(0x04).is_none());
    // Scroll Lock's release still belongs to the engine (its press was
    // consumed), so it can never leak to the client as a stuck key.
    assert_eq!(e.key_up(hid::SCROLL_LOCK), Some(hid::SCROLL_LOCK));
}

#[test]
fn modifier_press_passes_through() {
    let mut e = engine();
    assert!(e.key_down(hid::SHIFT_L, Mods::none(), true).is_none());
    assert!(e.key_up(hid::SHIFT_L).is_none());
}

#[test]
fn disabled_engine_is_inert() {
    let mut e = engine();
    let mut cfg = BindSection::default();
    cfg.enabled = false;
    e.set_config(cfg);
    assert!(e.key_down(hid::SCROLL_LOCK, Mods::none(), true).is_none());
    assert!(e.key_up(hid::SCROLL_LOCK).is_none());
}

#[test]
fn custom_switch_binding_fires_with_its_target() {
    let mut e = ActionEngine::new(BindSection {
        enabled: true,
        bindings: vec![Binding {
            mods: Mods { ctrl: true, ..Mods::none() },
            key: 0x04, // 'a'
            action: "switch".into(),
            screen: "hp".into(),
        }],
    });
    let fired = e.key_down(0x04, Mods { ctrl: true, ..Mods::none() }, true);
    assert_eq!(fired, Some(UserAction::SwitchToScreen { to: "hp".into() }));
}

#[test]
fn wrong_mods_do_not_fire() {
    let mut e = ActionEngine::new(BindSection {
        enabled: true,
        bindings: vec![Binding { mods: Mods { ctrl: true, ..Mods::none() }, key: 0x04, action: "lock".into(), screen: String::new() }],
    });
    // Not a binding under these mods — but the key IS a chord key, so
    // the press is consumed and its release must be consumed too.
    assert!(e.key_down(0x04, Mods::none(), true).is_none());
    assert_eq!(e.key_up(0x04), Some(0x04));
}

#[test]
fn go_home_only_means_something_away() {
    let mut e = ActionEngine::new(BindSection {
        enabled: true,
        bindings: vec![Binding { mods: Mods::none(), key: hid::PAUSE, action: "home".into(), screen: String::new() }],
    });
    // At home: the binding consumes but resolves to nothing.
    assert!(e.key_down(hid::PAUSE, Mods::none(), true).is_none());
    assert!(e.key_up(hid::PAUSE).is_some());
    // Away: it fires.
    assert!(e.key_down(hid::PAUSE, Mods::none(), false).is_some());
    assert!(e.key_up(hid::PAUSE).is_some());
}

#[test]
fn config_reload_drops_pending_chords() {
    let mut e = engine();
    e.key_down(hid::SCROLL_LOCK, Mods::none(), true);
    e.set_config(BindSection { enabled: false, bindings: vec![] });
    // The press was consumed under the old config, so the release is
    // still the engine's — a config flip mid-chord can never strand a
    // key in the client's down state.
    assert_eq!(e.key_up(hid::SCROLL_LOCK), Some(hid::SCROLL_LOCK));
}

#[test]
fn default_chords_survive_sanitization() {
    // Scroll Lock and Pause are bare but app-meaningless: the defaults
    // must never be silently dropped by the safety gate.
    let d = BindSection::default();
    assert_eq!(d.clone().sanitized().bindings.len(), d.bindings.len());
    for b in &d.bindings {
        assert!(b.is_bindable(), "default binding {} must be bindable", b.key);
    }
}

#[test]
fn bare_tab_is_dropped_by_sanitization() {
    // A bare Tab binding would eat Tab system-wide. The engine refuses
    // it.
    let cfg = BindSection {
        enabled: true,
        bindings: vec![Binding {
            mods: Mods::none(),
            key: 0x2b, // Tab
            action: "cycle".into(),
            screen: String::new(),
        }],
    };
    let mut e = ActionEngine::new(cfg);
    // The surviving config binds nothing: Tab passes through untouched.
    assert!(e.key_down(0x2b, Mods::none(), true).is_none());
    assert!(e.key_up(0x2b).is_none());
}

#[test]
fn bare_workhorse_keys_are_dropped_bare_modifier_keys_never_bind() {
    // Letters/digits/Enter without modifiers: dropped. A modifier usage
    // (0xE0) as the chord key: never a chord at all — also dropped.
    for key in [0x04, 0x1e, 0x28, 0x2c, 0xe0] {
        let cfg = BindSection {
            enabled: true,
            bindings: vec![Binding { mods: Mods::none(), key, action: "cycle".into(), screen: String::new() }],
        };
        assert!(
            ActionEngine::new(cfg).key_down(key, Mods::none(), true).is_none(),
            "bare key 0x{key:02x} must not swallow presses"
        );
    }
}

#[test]
fn hot_reload_applies_the_same_safety_gate() {
    let mut e = engine();
    // Start sane.
    e.set_config(BindSection {
        enabled: true,
        bindings: vec![Binding { mods: Mods { ctrl: true, ..Mods::none() }, key: 0x2b, action: "cycle".into(), screen: String::new() }],
    });
    assert!(e.key_down(0x2b, Mods { ctrl: true, ..Mods::none() }, true).is_some());
    // A mid-session edit that arms bare Tab must not take effect.
    e.set_config(BindSection {
        enabled: true,
        bindings: vec![Binding { mods: Mods::none(), key: 0x2b, action: "cycle".into(), screen: String::new() }],
    });
    assert!(e.key_down(0x2b, Mods::none(), true).is_none(), "hot reload must sanitize too");
}

#[test]
fn modified_chords_always_bind() {
    // The rule's positive case: any real key with a modifier is fine,
    // including workhorse keys the bare form would break.
    for key in [0x04, 0x2b, 0x2c, 0x28] {
        let cfg = BindSection {
            enabled: true,
            bindings: vec![Binding { mods: Mods { meta: true, ..Mods::none() }, key, action: "cycle".into(), screen: String::new() }],
        };
        let mut e = ActionEngine::new(cfg);
        e.key_down(hid::META_L, Mods::none(), true);
        assert!(e.key_down(key, Mods::none(), true).is_some(), "modified key 0x{key:02x} must bind");
    }
}

#[test]
fn chords_are_published_with_their_masks() {
    let all = Mods { ctrl: true, alt: true, shift: true, meta: true };
    let shift = Mods { shift: true, ..Mods::none() };
    let binding = |mods: Mods, key: u32| Binding {
        mods,
        key,
        action: "lock".into(),
        screen: String::new(),
    };
    let s = BindSection { enabled: true, bindings: vec![binding(all, 0x2b), binding(shift, 0x04)] };
    assert_eq!(s.bound_chords(), vec![(0b1111, 0x2b), (0b0100, 0x04)]);
    assert_eq!(
        BindSection::default().bound_chords(),
        vec![(0, hid::SCROLL_LOCK), (0, hid::PAUSE)]
    );
}

#[test]
fn presses_of_chord_keys_are_consumed() {
    let mut e = engine();
    assert!(e.consumes(hid::SCROLL_LOCK));
    assert!(!e.consumes(0x04));
    assert!(!e.consumes(hid::CTRL_L));
    // With a modifier held the chord does not match, but its key is taken
    // all the same, and so is its release.
    assert_eq!(e.key_down(hid::CTRL_L, Mods::none(), true), None);
    assert!(e.consumes(hid::PAUSE));
    assert_eq!(e.key_down(hid::PAUSE, Mods::none(), true), None);
    assert_eq!(e.key_up(hid::PAUSE), Some(hid::PAUSE));
    e.set_config(BindSection { enabled: false, ..BindSection::default() });
    assert!(!e.consumes(hid::SCROLL_LOCK));
}

#[test]
fn every_consumed_press_owns_its_release() {
    // Two chords fire while the first key is still down: each release is
    // the engine's, in either order.
    for order in [[hid::SCROLL_LOCK, hid::PAUSE], [hid::PAUSE, hid::SCROLL_LOCK]] {
        let mut e = engine();
        assert_eq!(
            e.key_down(hid::SCROLL_LOCK, Mods::none(), true),
            Some(UserAction::SwitchNext)
        );
        assert_eq!(e.key_down(hid::PAUSE, Mods::none(), true), Some(UserAction::ToggleLock));
        for key in order {
            assert_eq!(e.key_up(key), Some(key));
        }
        for key in order {
            assert_eq!(e.key_up(key), None, "a release is claimed once");
        }
    }
}

#[test]
fn consumed_presses_own_their_releases_through_a_reload() {
    let mut e = engine();
    e.key_down(hid::SCROLL_LOCK, Mods::none(), true);
    e.key_down(hid::PAUSE, Mods::none(), true);
    let mut cfg = BindSection::default();
    cfg.enabled = false;
    cfg.bindings.clear();
    e.set_config(cfg);
    assert_eq!(e.key_up(hid::SCROLL_LOCK), Some(hid::SCROLL_LOCK));
    assert_eq!(e.key_up(hid::PAUSE), Some(hid::PAUSE));
    assert_eq!(e.key_up(hid::PAUSE), None);
}

#[test]
fn a_disabled_engine_binds_nothing() {
    let mut e = engine();
    assert!(e.is_bound(Mods::none(), hid::SCROLL_LOCK));
    assert!(!e.is_bound(Mods { ctrl: true, ..Mods::none() }, hid::SCROLL_LOCK));
    let mut cfg = BindSection::default();
    cfg.enabled = false;
    e.set_config(cfg);
    assert!(!e.is_bound(Mods::none(), hid::SCROLL_LOCK));
}

#[test]
fn a_consumed_key_is_never_forwarded() {
    let mut e = engine();
    let fired = KeyFate::Fire(UserAction::SwitchNext);
    assert_eq!(e.on_key_at(KeyKind::Repeat, hid::SCROLL_LOCK, true, 0), KeyFate::Forward);
    assert_eq!(e.on_key_at(KeyKind::Down, hid::SCROLL_LOCK, true, 1), fired);
    assert_eq!(e.on_key_at(KeyKind::Repeat, hid::SCROLL_LOCK, true, 2), KeyFate::Consume);
    assert_eq!(e.on_key_at(KeyKind::Up, hid::SCROLL_LOCK, true, 3), KeyFate::Consume);
    assert_eq!(e.on_key_at(KeyKind::Repeat, hid::SCROLL_LOCK, true, 4), KeyFate::Forward);
    // With a modifier the chord is not bound, but the key is a chord's.
    assert_eq!(e.on_key_at(KeyKind::Down, hid::CTRL_L, true, 5), KeyFate::Forward);
    assert_eq!(e.on_key_at(KeyKind::Down, hid::PAUSE, true, 6), KeyFate::Consume);
    assert_eq!(e.on_key_at(KeyKind::Up, hid::PAUSE, true, 7), KeyFate::Consume);
    // Any other key goes on.
    for kind in [KeyKind::Down, KeyKind::Repeat, KeyKind::Up] {
        assert_eq!(e.on_key_at(kind, 0x04, true, 8), KeyFate::Forward);
    }
}
