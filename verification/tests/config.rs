//! The server config.
use kvmshare::actions::BindSection;
use kvmshare::config::ids::set_id;
use kvmshare::config::start::session_from_config;
use kvmshare::config::watch::{Stamp, Watch};
use kvmshare::config::{
    default_height, default_port, default_true, default_width, Config, Flaw, NetworkConfig,
    ScreenConfig,
};
use kvmshare::protocol::Rect;
use kvmshare::Mode;

fn v(items: &[&str]) -> Vec<String> {
    items.iter().map(|s| s.to_string()).collect()
}

fn screen(name: &str, width: u32, height: u32, x: i32, y: i32) -> ScreenConfig {
    ScreenConfig { name: name.into(), width, height, x, y }
}

fn config(screens: Vec<ScreenConfig>) -> Config {
    Config { port: 24800, screens, network: NetworkConfig::default() }
}

fn strings(t: &toml::Table, key: &str) -> Vec<String> {
    match t.get(key) {
        Some(list) => {
            list.as_array().unwrap().iter().map(|s| s.as_str().unwrap().to_string()).collect()
        }
        None => Vec::new(),
    }
}

/// Reads a config file, with the defaults of what it omits.
fn load(text: &str) -> Result<Config, String> {
    let t: toml::Table = text.parse().unwrap();
    let number = |s: &toml::Value, key: &str| s.get(key).map(|n| n.as_integer().unwrap());
    let screens = match t.get("screens") {
        Some(list) => list
            .as_array()
            .unwrap()
            .iter()
            .map(|s| ScreenConfig {
                name: s.get("name").unwrap().as_str().unwrap().to_string(),
                width: number(s, "width").map_or(default_width(), |n| n as u32),
                height: number(s, "height").map_or(default_height(), |n| n as u32),
                x: number(s, "x").map_or(0, |n| n as i32),
                y: number(s, "y").map_or(0, |n| n as i32),
            })
            .collect(),
        None => Vec::new(),
    };
    let network = match t.get("network") {
        Some(n) => {
            let n = n.as_table().unwrap();
            let switch = |key: &str| n.get(key).map_or(default_true(), |b| b.as_bool().unwrap());
            NetworkConfig {
                allowlist: switch("allowlist"),
                local_only: switch("local_only"),
                trusted_ids: strings(n, "trusted_ids"),
                revoked_ids: strings(n, "revoked_ids"),
            }
        }
        None => NetworkConfig::default(),
    };
    let port = t.get("port").map_or(default_port(), |p| p.as_integer().unwrap() as u16);
    let cfg = Config { port, screens, network };
    cfg.validate()?;
    Ok(cfg)
}

#[test]
fn add_is_idempotent_across_forms() {
    let list = v(&["70b97d38631dda4b8f6ef627d753022d"]);
    let again = set_id(&list, "70b97d38", true);
    assert_eq!(again.len(), 1, "adding the short form of an existing entry must not duplicate it");
}

#[test]
fn remove_drops_every_form() {
    let list = v(&["70b97d38", "aaaaaaaa11111111"]);
    let gone = set_id(&list, "70b97d38631dda4b8f6ef627d753022d", false);
    assert_eq!(gone, v(&["aaaaaaaa11111111"]), "removing by full id must drop the short entry");
}

#[test]
fn unrelated_entries_are_untouched() {
    let list = v(&["ab", "aaaaaaaa11111111"]);
    // A 2-char entry can never match anything (the matcher's guard)
    // but set_id is surgical: it only touches entries matching the
    // id it was given, never unrelated list content.
    let out = set_id(&list, "bbbbbbbb22222222", true);
    assert_eq!(out, v(&["ab", "aaaaaaaa11111111", "bbbbbbbb22222222"]));
}

#[test]
fn mod_config_round_trips_to_layout() {
    let text = r#"
        port = 24800
        [[screens]]
        name = "pc"
        width = 1920
        height = 1080
        x = 0
        y = 0
        [[screens]]
        name = "hp"
        width = 1920
        height = 1080
        x = -1920
        y = 0
    "#;
    let cfg = load(text).unwrap();
    assert_eq!(cfg.port, 24800);
    assert_eq!(cfg.screens.len(), 2);
    let layout = cfg.to_layout();
    assert_eq!(layout.screens[0].id, 0);
    assert_eq!(layout.screens[0].name, "pc");
    assert_eq!(layout.screens[1].id, 1);
    assert_eq!(layout.screens[1].name, "hp");
    assert_eq!(layout.screens[1].rect.x, -1920);
    // Network policy defaults to secure.
    assert!(cfg.network.allowlist);
    assert!(cfg.network.local_only);
    assert!(cfg.network.trusted_ids.is_empty());
}

#[test]
fn mod_config_parses_network_section() {
    let text = r#"
        port = 24800
        [[screens]]
        name = "pc"
        [network]
        allowlist = false
        local_only = false
        trusted_ids = ["machine-1", "machine-2"]
    "#;
    let cfg = load(text).unwrap();
    assert!(!cfg.network.allowlist);
    assert!(!cfg.network.local_only);
    assert_eq!(cfg.network.trusted_ids, vec!["machine-1".to_string(), "machine-2".to_string()]);
    assert!(cfg.network.revoked_ids.is_empty());
}

/// `revoked_ids` reaches the policy exactly as written — the list the
/// server enforces.
#[test]
fn config_parses_revoked_ids_and_maps_them_to_the_policy() {
    let text = r#"
        port = 24800
        [[screens]]
        name = "pc"
        [network]
        trusted_ids = ["machine-1"]
        revoked_ids = ["machine-bad", "70b97d38"]
    "#;
    let cfg = load(text).unwrap();
    assert_eq!(cfg.network.revoked_ids, vec!["machine-bad".to_string(), "70b97d38".to_string()]);

    let policy = cfg.network_policy();
    assert!(policy.is_revoked("machine-bad"));
    // Short form, prefix match: the full id of the same machine too.
    assert!(policy.is_revoked("70b97d38631dda4b8f6ef627d753022d"));
    assert!(!policy.is_revoked("machine-1"));
    // And the other way round: a shorter form of a revoked id.
    assert!(policy.is_revoked("machine"));
    assert!(policy.is_revoked("70b97"));
    assert!(!policy.is_revoked("70b"), "too short to name a machine");
    // Both lists coexist; trust is unaffected by revocation.
    assert!(policy.is_trusted("machine-1"));
}

#[test]
fn mod_old_config_without_network_section_stays_valid() {
    let text = r#"
        port = 24800
        [[screens]]
        name = "pc"
    "#;
    let cfg = load(text).unwrap();
    assert!(cfg.network.allowlist);
    assert!(cfg.network.local_only);
    assert!(cfg.network.revoked_ids.is_empty(), "an old config has nothing revoked");
}

#[test]
fn mod_config_rejects_duplicate_names() {
    let text = r#"
        port = 24800
        [[screens]]
        name = "pc"
        [[screens]]
        name = "pc"
    "#;
    let err = load(text).unwrap_err();
    assert!(err.contains("duplicate screen name"), "got: {err}");
    assert_eq!(err, "duplicate screen name \"pc\"");
}

#[test]
fn unusable_configs_say_why() {
    let err = load("port = 1").unwrap_err();
    assert_eq!(err, "config must list at least one screen (the server's own)");
    let blank = config(vec![screen("pc", 1, 1, 0, 0), screen(" \t", 1, 1, 0, 0)]);
    assert_eq!(blank.flaw(), Some(Flaw::BlankName));
    assert_eq!(blank.validate().unwrap_err(), "screen names must not be empty");
    // The first flaw counts.
    let both = config(vec![screen("pc", 1, 1, 0, 0), screen("pc", 1, 1, 0, 0), screen("", 1, 1, 0, 0)]);
    assert_eq!(both.flaw(), Some(Flaw::Duplicate("pc".into())));
    assert_eq!(Flaw::Duplicate("pc".into()).message_quoting("'pc'"), "duplicate screen name 'pc'");
}

fn four_screens() -> Config {
    config(vec![
        screen("HP", 1920, 1080, 0, 0),
        screen("pc", 3840, 1080, 1920, 0),
        screen("left", 1920, 1080, -1920, 0),
        screen("below", 1920, 1080, 0, 1080),
    ])
}

// A stale local screen size leaves a wall the cursor can never reach. The
// correction resizes the local screen to reality and shifts neighbors
// placed against the old edges so they stay adjacent.
fn check_neighbors_stay_adjacent() {
    let mut cfg = four_screens();
    assert!(cfg.correct_local_screen_to(1024, 768), "a stale size must be corrected");
    // Local screen now matches reality.
    assert_eq!((cfg.screens[0].width, cfg.screens[0].height), (1024, 768));
    // The right neighbor was adjacent to the old right edge (1920);
    // it follows the corrected edge (1024) — still adjacent, gap
    // preserved.
    assert_eq!(cfg.screens[1].x, 1024);
    // The left neighbor anchors to the unchanged left edge: unmoved.
    assert_eq!(cfg.screens[2].x, -1920);
    // The screen below the old bottom edge (1080) follows the new
    // bottom edge (768).
    assert_eq!(cfg.screens[3].y, 768);

    // A second pass is a no-op: the config is already correct.
    assert!(!cfg.correct_local_screen_to(1024, 768), "a correct config must not change");
    assert_eq!(cfg.screens[1].x, 1024);
}

#[test]
fn geometry_correct_local_screen_resizes_and_keeps_neighbors_adjacent() {
    check_neighbors_stay_adjacent();
}

#[test]
fn config_correct_local_screen_resizes_and_keeps_neighbors_adjacent() {
    check_neighbors_stay_adjacent();
}

// The correction must never move a screen that sits inside the old
// local rect (an overlapping config) — only screens placed against
// the old edges follow them.
fn check_overlapping_screens_are_left_alone() {
    let mut cfg =
        config(vec![screen("HP", 1920, 1080, 0, 0), screen("overlap", 800, 600, 1500, 200)]);
    assert!(cfg.correct_local_screen_to(1024, 768));
    assert_eq!(cfg.screens[1].x, 1500, "an overlapping screen must not shift");
    assert_eq!(cfg.screens[1].y, 200);
}

#[test]
fn geometry_correct_local_screen_leaves_overlapping_screens_alone() {
    check_overlapping_screens_are_left_alone();
}

#[test]
fn config_correct_local_screen_leaves_overlapping_screens_alone() {
    check_overlapping_screens_are_left_alone();
}

#[test]
fn a_platform_without_a_display_corrects_nothing() {
    let mut cfg = four_screens();
    assert!(!cfg.correct_local_screen(None));
    assert_eq!(cfg.screens[0].width, 1920);
    assert!(cfg.correct_local_screen(Some((0, 600))));
    assert_eq!((cfg.screens[0].width, cfg.screens[0].height), (1, 600));
}

#[test]
fn corrections_know_their_room() {
    let mut cfg = config(vec![screen("pc", 100, 100, 0, 0), screen("far", 1, 1, i32::MAX - 10, 0)]);
    assert!(cfg.has_correction_room(110, 100));
    assert!(!cfg.has_correction_room(111, 100));
    assert!(cfg.correct_local_screen_to(110, 100));
    assert_eq!(cfg.screens[1].x, i32::MAX);
    assert!(config(vec![]).has_correction_room(1, 1));
    assert!(!config(vec![]).correct_local_screen_to(1, 1));
}

#[test]
fn reported_sizes_are_recorded() {
    let mut cfg = four_screens();
    assert!(cfg.record_reported_size("left", 2560, 0));
    assert_eq!((cfg.screens[2].width, cfg.screens[2].height), (2560, 1));
    assert_eq!(cfg.screens[2].x, -1920, "positions are the user's");
    assert!(!cfg.record_reported_size("left", 2560, 1), "already correct");
    assert!(!cfg.record_reported_size("nobody", 1, 1));
}

#[test]
fn default_config_describes_this_machine_only() {
    let cfg = Config::for_this_machine(Some((2560, 1440)), "pc".into());
    assert_eq!(cfg.port, 24800);
    assert_eq!(cfg.screens, vec![screen("pc", 2560, 1440, 0, 0)]);
    assert!(cfg.network.allowlist && cfg.network.local_only);
    assert!(cfg.validate().is_ok());
    let cfg = Config::for_this_machine(None, "pc".into());
    assert_eq!(cfg.screens, vec![screen("pc", 1920, 1080, 0, 0)]);
    assert_eq!(cfg.listen_port(0), 24800);
    assert_eq!(cfg.listen_port(9000), 9000);
}

#[test]
fn near_adjacent_screens_snap_into_contact() {
    // 10 px off and 7 px too low: within the slack.
    let cfg = config(vec![screen("pc", 1920, 1080, 0, 0), screen("hp", 1920, 1080, -1930, 7)]);
    let l = cfg.to_layout();
    assert_eq!(l.screens[1].rect, Rect { x: -1920, y: 0, w: 1920, h: 1080 });
    // Normalizing again changes nothing.
    assert_eq!(l.normalized(), l);
    // A deliberate gap stays.
    let cfg = config(vec![screen("pc", 1920, 1080, 0, 0), screen("hp", 1920, 1080, -2200, 0)]);
    assert_eq!(cfg.to_layout().screens[1].rect.x, -2200);
}

#[test]
fn a_session_starts_from_its_config() {
    let cfg = four_screens();
    assert!(cfg.is_startable());
    let (session, engine) = session_from_config(&cfg, BindSection::default());
    assert_eq!(session.mode(), Mode::Local);
    assert_eq!(session.cursor_pos(), (960, 540));
    assert_eq!(session.assign_screen_id("below"), Some(3));
    assert_eq!(engine.config().bindings.len(), BindSection::default().bindings.len());
    assert!(!config(vec![]).is_startable());
    assert!(config(vec![screen("pc", u32::MAX / 2, 1, 0, 0)]).is_startable());
    assert!(!config(vec![screen("pc", u32::MAX / 2, 1, 1, 0)]).is_startable());
}

#[test]
fn a_watch_reads_only_real_changes() {
    let first = Stamp { modified: 10, len: 3 };
    let second = Stamp { modified: 11, len: 3 };
    let mut w = Watch::new(Some(first));
    assert!(!w.is_due(Some(first)), "startup is no change");
    assert!(!w.is_due(None), "a missing file keeps the version in use");
    assert!(w.is_due(Some(second)));
    w.on_read(second, false);
    assert!(w.is_due(Some(second)), "a torn file is tried again");
    w.on_read(second, true);
    assert!(!w.is_due(Some(second)));
    assert!(Watch::new(None).is_due(Some(first)));
}

#[test]
fn configs_can_be_copied() {
    let text = r#"
        port = 24800
        [[screens]]
        name = "pc"
        [network]
        revoked_ids = ["machine-bad"]
    "#;
    let cfg = load(text).unwrap();
    let copy = cfg.clone();
    assert_eq!(copy.port, cfg.port);
    assert_eq!(copy.screens, cfg.screens);
    assert_eq!(copy.network.allowlist, cfg.network.allowlist);
    assert_eq!(copy.network.revoked_ids, vec!["machine-bad".to_string()]);
}
