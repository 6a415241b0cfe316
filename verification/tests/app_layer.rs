//! The pieces around the session: arguments, state files, ids, locks.
use kvmshare::args::{
    merge_args, parse_client_args, parse_server_args, split_args_file, version_banner,
    with_default_port, ArgError, Flag, Parsed, BUILD_ID,
};
use kvmshare::client_state::{
    write_client_state, write_client_state_connected, write_client_state_refused,
    write_client_state_stopped,
};
use kvmshare::guard::{acquire_in, lock_files, unknown_role, Probe, ROLE_CLIENT, ROLE_SERVER};
use kvmshare::log::{init, level, level_from_env_or_default, unknown_level, write_line, Level, Logger};
use kvmshare::machine_id::{hex, id_from, machine_id, Identity};
use kvmshare::places::{default_config_path, hostname, state_dir, Place};
use kvmshare::protocol::{Command, ScreenInfo};
use kvmshare::server::orders::{read_order, read_orders, Order};
use kvmshare::server::roster::Roster;
use kvmshare::server::ServerEvent;
use kvmshare::text::{is_white, lowered};
use kvmshare::trust::{policy_from_revoked_list, revoked_policy, revoked_policy_from_env};

fn v(items: &[&str]) -> Vec<String> {
    items.iter().map(|s| s.to_string()).collect()
}

#[test]
fn client_addr_normalization() {
    assert_eq!(with_default_port("pc", 24800), "pc:24800");
    assert_eq!(with_default_port("pc:1234", 24800), "pc:1234");
    assert_eq!(with_default_port("192.168.1.69", 24800), "192.168.1.69:24800");
}

#[test]
fn build_id_is_stamped() {
    // `--version` and an install check both read it.
    assert_eq!(BUILD_ID.len(), 16);
    assert!(BUILD_ID.bytes().all(|b| b.is_ascii_hexdigit()));
}

#[test]
fn banner_names_the_build() {
    assert_eq!(
        version_banner("kvmshare-server"),
        format!("kvmshare-server 0.1.0 (build {BUILD_ID})")
    );
}

#[test]
fn merged_argv_prefers_file_then_cli_order() {
    let merged = merge_args("192.168.1.72:24800\n\n--name\nhp\n", Vec::new());
    assert_eq!(merged, vec!["192.168.1.72:24800", "--name", "hp"]);
    // Carriage returns go, and the command line's own tokens follow.
    let merged = merge_args("a b\r\n\r\n--name\r\r\nhp", v(&["--log-level", "debug"]));
    assert_eq!(merged, vec!["a b", "--name", "hp", "--log-level", "debug"]);
}

#[test]
fn args_file_flags_are_taken_out() {
    let (rest, file) = split_args_file(&v(&["x", "--args-file", "one", "y"])).unwrap();
    assert_eq!((rest, file), (v(&["x", "y"]), Some("one".to_string())));
    // The last one counts.
    let (rest, file) = split_args_file(&v(&["--args-file", "one", "--args-file=two"])).unwrap();
    assert_eq!((rest, file), (v(&[]), Some("two".to_string())));
    let (rest, file) = split_args_file(&v(&["x"])).unwrap();
    assert_eq!((rest, file), (v(&["x"]), None));
    let e = split_args_file(&v(&["x", "--args-file"])).unwrap_err();
    assert_eq!(e, ArgError::Missing(Flag::ArgsFile));
}

#[test]
fn level_parsing() {
    assert_eq!(Level::parse("info").unwrap(), Level::Info);
    assert_eq!(Level::parse("DEBUG").unwrap(), Level::Debug);
    assert_eq!(Level::parse(" warning ").unwrap(), Level::Warn);
    assert!(Level::parse("verbose").is_err());
}

#[test]
fn ordering() {
    assert!(Level::Error < Level::Warn);
    assert!(Level::Warn < Level::Info);
    assert!(Level::Info < Level::Debug);
}

#[test]
fn unknown_levels_are_quoted() {
    assert_eq!(
        Level::parse(" Very\t\"Loud\" ").unwrap_err(),
        "unknown log level \"very\\t\\\"loud\\\"\" (use error, warn, info or debug)"
    );
    assert_eq!(unknown_level("x"), "unknown log level x (use error, warn, info or debug)");
}

#[test]
fn log_lines() {
    let mut log = Logger::new();
    assert_eq!(level(&log), Level::Info);
    assert_eq!(write_line(&log, Level::Debug, 0, "hidden"), None);
    // 1 day, 2 hours, 3 minutes, 4 seconds.
    let secs = 86400 + 2 * 3600 + 3 * 60 + 4;
    assert_eq!(
        write_line(&log, Level::Warn, secs, "hello").unwrap(),
        "02:03:04 WARN kvmshare: hello"
    );
    assert!(init(&mut log, "loud", &None).is_err());
    assert_eq!(level(&log), Level::Info, "a bad name changes nothing");
    init(&mut log, "debug", &Some("kvmshare-client".into())).unwrap();
    assert_eq!(
        write_line(&log, Level::Debug, 0, "x").unwrap(),
        "00:00:00 DEBUG kvmshare-client: x"
    );
    // Later levels win, the component is set once.
    init(&mut log, "error", &Some("other".into())).unwrap();
    assert_eq!(write_line(&log, Level::Info, 0, "x"), None);
    assert_eq!(
        write_line(&log, Level::Error, 86399, "x").unwrap(),
        "23:59:59 ERROR kvmshare-client: x"
    );
    assert_eq!(level_from_env_or_default(&None), "info");
    assert_eq!(level_from_env_or_default(&Some("warn".into())), "warn");
}

#[test]
fn transient_disconnect_has_no_stopped_marker() {
    let body = write_client_state("disconnected", "192.168.1.72:24800");
    assert!(body.contains("status=disconnected"));
    assert!(!body.contains("stopped=1"), "transient drops must not read as a requested stop");
}

#[test]
fn requested_disconnect_sets_stopped_marker() {
    let body = write_client_state_stopped("192.168.1.72:24800");
    assert!(body.contains("status=disconnected"));
    assert!(body.contains("stopped=1"), "a server-requested stop must be distinguishable");
    assert_eq!(body, "status=disconnected\nserver=192.168.1.72:24800\nstopped=1\n");
}

#[test]
fn connected_state_carries_the_server_id() {
    let body = write_client_state_connected("192.168.1.72:24800", "70b97d38631dda4b8f6ef627d753022d");
    assert!(body.contains("status=connected"));
    assert!(body.contains("server_id=70b97d38631dda4b8f6ef627d753022d"));
}

#[test]
fn transient_states_write_no_id_line() {
    let body = write_client_state("connecting", "192.168.1.72:24800");
    assert!(!body.contains("server_id="), "a state that does not know the id must not claim one");
    assert!(!write_client_state_connected("pc", "").contains("server_id="));
}

#[test]
fn refused_state_carries_a_single_line_reason() {
    let body = write_client_state_refused("192.168.1.72:24800", "revoked: line one\nline two");
    assert!(body.contains("status=refused"));
    assert!(body.contains("reason=revoked: line one line two"));
    assert_eq!(body.lines().count(), 3, "reason must stay on one line");
}

#[test]
fn empty_or_unset_list_revokes_nothing() {
    for raw in ["", "   ", ",", " , "] {
        let p = policy_from_revoked_list(raw);
        assert!(p.revoked_ids.is_empty(), "{raw:?} should revoke nothing");
        assert!(!p.is_revoked("70b97d38631dda4b8f6ef627d753022d"));
    }
    assert!(revoked_policy_from_env(&None).revoked_ids.is_empty());
}

#[test]
fn list_is_trimmed_and_prefix_matched() {
    let p = policy_from_revoked_list(" 70b97d38 , aabbccdd11223344 ,, ");
    assert_eq!(p.revoked_ids, vec!["70b97d38".to_string(), "aabbccdd11223344".to_string()]);
    // Short form refuses the full id (the same machine).
    assert!(p.is_revoked("70b97d38631dda4b8f6ef627d753022d"));
    // A different machine is untouched.
    assert!(!p.is_revoked("98980a4d000000000000000000000000"));
}

#[test]
fn state_dir_file_is_used_when_env_is_empty() {
    let file = Some("70b97d38\n".to_string());
    for env in [None, Some(" ".to_string())] {
        let p = revoked_policy(&env, &file);
        assert!(p.is_revoked("70b97d38631dda4b8f6ef627d753022d"));
    }
    // The variable wins when both exist.
    let p = revoked_policy(&Some("aabbccdd".into()), &file);
    assert!(!p.is_revoked("70b97d38631dda4b8f6ef627d753022d"));
    assert!(p.is_revoked("aabbccdd11223344"));
    assert!(revoked_policy(&None, &None).revoked_ids.is_empty());
}

/// The role locks of a machine, taken in a scratch table instead of a
/// directory.
fn acquire(held: &mut Vec<String>, role: &str) -> Result<(), String> {
    let files = lock_files(role)?;
    let own = Probe { path: &files.own, locked: held.contains(&files.own) };
    let other = Probe { path: &files.other, locked: held.contains(&files.other) };
    acquire_in(role, own, other)?;
    held.push(files.own);
    Ok(())
}

#[test]
fn role_locks_are_exclusive() {
    let mut held = Vec::new();
    // First server takes the lock.
    acquire(&mut held, ROLE_SERVER).expect("first server should lock");
    // A second server on the same machine must be refused.
    assert_eq!(
        acquire(&mut held, ROLE_SERVER).unwrap_err(),
        "another kvmshare server is already running on this machine (server.lock is locked)"
    );
    // A client is refused while the server runs.
    assert_eq!(
        acquire(&mut held, ROLE_CLIENT).unwrap_err(),
        "a kvmshare server is already running on this machine — a machine runs as a server or a client, not both (server.lock is locked)"
    );
    // Dropping releases everything: the client can then start.
    held.clear();
    acquire(&mut held, ROLE_CLIENT).expect("client should lock after server stops");
    assert!(acquire(&mut held, ROLE_SERVER).is_err());
    assert!(acquire(&mut held, ROLE_CLIENT).is_err());
}

#[test]
fn unknown_roles_have_no_locks() {
    assert_eq!(lock_files("gui").unwrap_err(), "unknown role \"gui\"");
    let free = || Probe { path: "x", locked: false };
    assert_eq!(acquire_in("gui", free(), free()).unwrap_err(), "unknown role \"gui\"");
    assert_eq!(unknown_role("'x'"), "unknown role 'x'");
}

#[test]
fn machine_ids_are_kept() {
    assert_eq!(machine_id(&Some(" abc \n".into()), 1, 2), Identity::Kept("abc".into()));
}

#[test]
fn fresh_machine_ids_are_random() {
    let fresh = |file: Option<String>| match machine_id(&file, 1, 2) {
        Identity::Fresh(id) => id,
        Identity::Kept(id) => panic!("kept {id}"),
    };
    let a = fresh(None);
    let b = fresh(Some(" \n".into()));
    for id in [&a, &b] {
        assert_eq!(id.len(), 32);
        assert!(id.bytes().all(|c| c.is_ascii_hexdigit() && !c.is_ascii_uppercase()));
        // Neither the untouched buffer nor the fallback.
        assert_ne!(**id, "0".repeat(32));
        assert_ne!(**id, id_from(None, 1, 2));
    }
    assert_ne!(a, b);
}

#[test]
fn ids_are_hex() {
    assert_eq!(hex(&vec![0, 0x0f, 0xa5, 0xff]), "000fa5ff");
    assert_eq!(id_from(Some(vec![0x12, 0x34]), 1, 2), "1234");
    // Without a random number source: time, then process, low byte first.
    assert_eq!(id_from(None, 0x0102_0304_0506_0708, 0xabcd), "0807060504030201cdab000000000000");
}

#[test]
fn places_prefer_the_operators_word() {
    assert_eq!(state_dir(&Some("/tmp/s".into()), true), Place::Named("/tmp/s".into()));
    assert_eq!(state_dir(&Some("".into()), true), Place::Home(".local/state/kvmshare"));
    assert_eq!(state_dir(&None, false), Place::Here(".kvmshare-state"));
    assert_eq!(default_config_path(&Some("c".into()), false), Place::Named("c".into()));
    assert_eq!(default_config_path(&None, true), Place::Home(".config/kvmshare/kvmshare-server.toml"));
    assert_eq!(default_config_path(&None, false), Place::Here("kvmshare-server.toml"));
}

#[test]
fn a_machine_always_has_a_name() {
    let s = |t: &str| Some(t.to_string());
    assert_eq!(hostname(&s("env"), &s("kernel"), "os"), "env");
    assert_eq!(hostname(&s(""), &s("kernel\n"), "os"), "kernel");
    assert_eq!(hostname(&None, &s(" \n"), "os"), "os");
    assert_eq!(hostname(&None, &None, ""), "client");
}

#[test]
fn orders_are_read_line_by_line() {
    let out = read_orders("disconnect hp\n\n  reconnect my mac \r\nrestart pc\nexplode hp\nrestart\n");
    assert_eq!(
        out,
        vec![
            Order::Run { name: "hp".into(), command: Command::Disconnect },
            Order::Run { name: "my mac".into(), command: Command::Reconnect },
            Order::Run { name: "pc".into(), command: Command::Restart },
            Order::Unknown("explode".into()),
        ]
    );
    // The name is everything behind the first space.
    assert_eq!(
        read_order("restart  pc"),
        Some(Order::Run { name: " pc".into(), command: Command::Restart })
    );
    assert_eq!(read_order("restart"), None);
}

#[test]
fn the_roster_follows_the_events() {
    let info = ScreenInfo { width: 1, height: 1, logical_w: 1, logical_h: 1 };
    let connected = |name: &str, id: &str| ServerEvent::ClientConnected {
        name: name.into(),
        id: id.into(),
        addr: "a".into(),
        since_ms: 7,
        info,
    };
    let mut r = Roster::new();
    r.on_event(&connected("hp", "one"));
    r.on_event(&connected("mac", "two"));
    r.on_event(&connected("hp", "three"));
    let mut seen: Vec<(String, String)> =
        r.entries().iter().map(|e| (e.name.clone(), e.id.clone())).collect();
    seen.sort();
    assert_eq!(seen, vec![("hp".into(), "three".into()), ("mac".into(), "two".into())]);
    r.on_event(&ServerEvent::ClientDisconnected { name: "hp".into() });
    r.on_event(&ServerEvent::ClientDisconnected { name: "nobody".into() });
    assert_eq!(r.entries().len(), 1);
    assert_eq!(r.entries()[0].name, "mac");
}

fn server_args(items: &[&str]) -> Parsed<kvmshare::args::ServerArgs> {
    parse_server_args(&v(items))
}

fn client_args(items: &[&str]) -> Parsed<kvmshare::args::ClientArgs> {
    parse_client_args(&v(items))
}

#[test]
fn server_arguments() {
    match server_args(&["--config", "a.toml", "--port", "9000", "--log-level", "debug"]) {
        Parsed::Run(a) => {
            assert_eq!(a.config.as_deref(), Some("a.toml"));
            assert_eq!(a.port, 9000);
            assert_eq!(a.log_level.as_deref(), Some("debug"));
            assert!(a.log_ctl.is_none() && a.log_file.is_none());
        }
        _ => panic!("expected to run"),
    }
    match server_args(&[]) {
        Parsed::Run(a) => assert!(a.config.is_none() && a.port == 0),
        _ => panic!("expected to run"),
    }
    assert!(matches!(server_args(&["--version"]), Parsed::Version));
    assert!(matches!(server_args(&["--help"]), Parsed::Help));
    for (items, message) in [
        (&["--config"][..], "--config needs a path"),
        (&["--port"][..], "--port needs a number"),
        (&["--port", "70000"][..], "bad port \"70000\""),
        (&["--port", "x"][..], "bad port \"x\""),
        (&["--what"][..], "unknown argument \"--what\""),
        (&["--log-level"][..], "--log-level needs a value"),
        (&["--logctl"][..], "--logctl needs a path"),
        (&["--log-file"][..], "--log-file needs a path"),
    ] {
        match server_args(items) {
            Parsed::Fail(e) => assert_eq!(e.message(), message),
            _ => panic!("{items:?} must fail"),
        }
    }
}

#[test]
fn client_arguments() {
    match client_args(&["pc:24800", "--name", "hp"]) {
        Parsed::Run(a) => {
            assert_eq!(a.server_addr, "pc:24800");
            assert_eq!(a.name.as_deref(), Some("hp"));
        }
        _ => panic!("expected to run"),
    }
    assert!(matches!(client_args(&["-V"]), Parsed::Version));
    assert!(matches!(client_args(&["-h"]), Parsed::Help));
    match client_args(&["--name"]) {
        Parsed::Fail(e) => assert_eq!(e.message(), "--name needs a value"),
        _ => panic!("must fail"),
    }
    assert_eq!(ArgError::Missing(Flag::Server).message(), "--server needs an address");
    assert_eq!(ArgError::Unknown("x".into()).message_quoting("<x>"), "unknown argument <x>");
}

#[test]
fn white_space_is_unicodes() {
    for n in 0..=0x10_ffff_u32 {
        if let Some(c) = char::from_u32(n) {
            assert_eq!(is_white(c), c.is_whitespace(), "U+{n:04X}");
        }
    }
}

#[test]
fn lower_case_is_ascii_only() {
    for n in 0..0x300_u32 {
        let s: String = char::from_u32(n).into_iter().collect();
        assert_eq!(lowered(&s), s.to_ascii_lowercase(), "U+{n:04X}");
    }
    assert_eq!(lowered("WARN \u{c4}Z"), "warn \u{c4}z");
}

#[test]
fn locks_survive_the_file_existing() {
    // Lock files accumulate; a lock that was given back can be taken
    // again.
    let mut held = Vec::new();
    acquire(&mut held, ROLE_SERVER).unwrap();
    held.clear();
    acquire(&mut held, ROLE_SERVER).expect("re-acquire after drop");
}

#[test]
fn revocation_works_in_both_directions() {
    let p = policy_from_revoked_list("70b97d38631dda4b8f6ef627d753022d");
    assert!(p.is_revoked("70b97d38"), "the short form of a revoked full id");
    assert!(p.is_revoked("70b97d38631dda4b8f6ef627d753022d"));
    assert!(!p.is_revoked("70b97d39"));
    assert!(!p.is_revoked("70b"), "too short to name a machine");
}
