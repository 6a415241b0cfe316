//! What callers may rely on in the results of single functions, whatever
//! else they do.
use vstd::prelude::*;

use crate::actions::BindSection;
use crate::args::{version_banner, with_default_port, ArgError, Flag};
use crate::client::connect::ConnectError;
use crate::client_state::{
    state_reads_back, unbroken, write_client_state, write_client_state_connected,
    write_client_state_stopped,
};
use crate::clipboard::{should_send, Content};
use crate::clock::{capped, elapsed};
use crate::config::watch::{Stamp, Watch};
use crate::config::{default_height, default_port, default_true, default_width, Config, Flaw};
use crate::guard::{acquire_in, lock_files, LockFiles, Probe};
use crate::layout::{find_screen, Direction, Layout};
use crate::log::{level_from_env_or_default, write_line, Level, Logger};
use crate::machine_id::{hex_text, id_from, machine_id, Identity};
use crate::places::{default_config_path, state_dir, Place};
use crate::protocol::{Message, Rect, Screen};
use crate::server::hello::{conclude_hello, Refusal};
use crate::server::hub::{lemma_at, Effect, Hub, Outbound};
use crate::server::hub_laws::is_client;
use crate::server::policy::{barred, listed, Policy};
use crate::text::{debug_text, decimal_text, lines_text, split_text, texts, trimmed};
use crate::trust::{entries, policy_from_revoked_list, revoked_policy, revoked_policy_from_env};

verus! {

// ---------------------------------------------------------------------
// The plane
// ---------------------------------------------------------------------

/// A point is in a rectangle exactly when it is in its columns and in its
/// rows; the middle is half the size from the corner.
pub proof fn a_rectangle_in_coordinates(
    r: &Rect,
    x: i32,
    y: i32,
    inside: bool,
    c: (i32, i32),
    m: (i32, i32),
)
    requires
        call_ensures(Rect::contains, (r, x, y), inside),
        call_ensures(Rect::center, (r,), c),
        call_ensures(Rect::local_center, (r,), m),
    ensures
        inside <==> r.x <= x < r.x + r.w && r.y <= y < r.y + r.h,
        r.w >= 0 ==> c.0 == r.x + r.w / 2 && m.0 == r.w / 2,
        r.h >= 0 ==> c.1 == r.y + r.h / 2 && m.1 == r.h / 2,
{
}

/// The destination of a crossing has the row (or column) of the exit
/// wherever some screen on that side has it, and the cursor enters it on
/// that same row (or column).
pub proof fn a_neighbor_is_straight_across(
    layout: &Layout,
    from: Screen,
    j: int,
    dir: Direction,
    x: i32,
    y: i32,
    r: Option<(u8, i32, i32)>,
)
    requires
        find_screen(layout@, from.id) == Some(from),
        call_ensures(Layout::neighbor, (layout, from.id, dir, x, y), r),
        0 <= j < layout@.len(),
        layout@[j].id != from.id,
        dir is Left ==> layout@[j].rect.x + layout@[j].rect.w <= from.rect.x + 16,
        dir is Right ==> layout@[j].rect.x + 16 >= from.rect.x + from.rect.w,
        dir is Top ==> layout@[j].rect.y + layout@[j].rect.h <= from.rect.y + 16,
        dir is Bottom ==> layout@[j].rect.y + 16 >= from.rect.y + from.rect.h,
        dir is Left || dir is Right ==> layout@[j].rect.y <= y < layout@[j].rect.y
            + layout@[j].rect.h,
        dir is Top || dir is Bottom ==> layout@[j].rect.x <= x < layout@[j].rect.x
            + layout@[j].rect.w,
        forall|k: int|
            0 <= k < layout@.len() ==> (#[trigger] layout@[k]).rect.w > 0 && layout@[k].rect.h > 0,
    ensures
        ({
            &&& r matches Some((id, ex, ey))
            &&& exists|k: int| {
                let q = (#[trigger] layout@[k]).rect;
                &&& 0 <= k < layout@.len() && layout@[k].id == id && id != from.id
                &&& dir is Left || dir is Right ==> q.y <= y < q.y + q.h && q.y + ey == y
                &&& dir is Top || dir is Bottom ==> q.x <= x < q.x + q.w && q.x + ex == x
                &&& dir is Left ==> ex == q.w - 1
                &&& dir is Right ==> ex == 0
                &&& dir is Top ==> ey == q.h - 1
                &&& dir is Bottom ==> ey == 0
            }
        }),
{
    let s = layout@;
    match dir {
        Direction::Left => {
            crate::layout_laws::leaving_to_the_left(s, from, x as int, y as int);
            assert(crate::layout_laws::left_of(s, from, j));
        },
        Direction::Right => {
            crate::layout_laws::leaving_to_the_right(s, from, x as int, y as int);
            assert(crate::layout_laws::right_of(s, from, j));
        },
        Direction::Top => {
            crate::layout_laws::leaving_upward(s, from, x as int, y as int);
            assert(crate::layout_laws::above(s, from, j));
        },
        Direction::Bottom => {
            crate::layout_laws::leaving_downward(s, from, x as int, y as int);
            assert(crate::layout_laws::below(s, from, j));
        },
    }
}

// ---------------------------------------------------------------------
// Configs
// ---------------------------------------------------------------------

/// A port on the command line comes before the config's; none is zero.
pub proof fn the_command_line_port_comes_first(cfg: &Config, asked: u16, r: u16)
    requires
        call_ensures(Config::listen_port, (cfg, asked), r),
    ensures
        asked > 0 ==> r == asked,
        asked == 0 ==> r == cfg.port,
{
}

/// The policy in force is the config's: it revokes and trusts the machines
/// that the config lists, and asks for the same.
pub proof fn the_policy_is_the_configs(cfg: &Config, p: Policy, id: Seq<char>)
    requires
        call_ensures(Config::network_policy, (cfg,), p),
    ensures
        p.allowlist == cfg.network.allowlist,
        p.local_only == cfg.network.local_only,
        barred(p.revoked_ids@, id) <==> barred(cfg.network.revoked_ids@, id),
        listed(p.trusted_ids@, id) <==> listed(cfg.network.trusted_ids@, id),
{
}

/// A config made for a machine has its own screen alone, under its name, at
/// the origin and in its display's size, the usual port, and the strictest
/// policy that trusts and revokes nobody.
pub proof fn a_machines_own_config(display: Option<(u32, u32)>, host: String, r: Config)
    requires
        call_ensures(Config::for_this_machine, (display, host), r),
    ensures
        r.port == 24800,
        r.screens@.len() == 1,
        r.screens@[0].name == host,
        r.screens@[0].x == 0 && r.screens@[0].y == 0,
        display is None ==> r.screens@[0].width == 1920 && r.screens@[0].height == 1080,
        display matches Some((w, h)) ==> (w > 0 ==> r.screens@[0].width == w) && (h > 0
            ==> r.screens@[0].height == h) && (w == 0 ==> r.screens@[0].width == 1) && (h == 0
            ==> r.screens@[0].height == 1),
        r.network.allowlist && r.network.local_only,
        r.network.trusted_ids@.len() == 0 && r.network.revoked_ids@.len() == 0,
{
}

/// What a config that leaves something out gets.
pub proof fn what_is_left_out(on: bool, port: u16, w: u32, h: u32)
    requires
        call_ensures(default_true, (), on),
        call_ensures(default_port, (), port),
        call_ensures(default_width, (), w),
        call_ensures(default_height, (), h),
    ensures
        on,
        port == 24800,
        w == 1920,
        h == 1080,
{
}

/// A config passes exactly when it lists a screen and every name is there
/// and is the only one of its kind. A complaint is the one that fits.
pub proof fn which_configs_pass(cfg: &Config, r: Result<(), String>, f: Option<Flaw>)
    requires
        call_ensures(Config::validate, (cfg,), r),
        call_ensures(Config::flaw, (cfg,), f),
    ensures
        ({
            let s = cfg.screens@;
            let good = s.len() > 0 && forall|i: int|
                0 <= i < s.len() ==> !(#[trigger] crate::config::laws::nameless(s, i))
                    && !crate::config::laws::named_before(s, i);
            &&& r is Ok <==> good
            &&& f is None <==> good
            &&& s.len() == 0 ==> (r matches Err(e) && e@
                == "config must list at least one screen (the server's own)"@)
            &&& s.len() == 0 ==> f matches Some(Flaw::NoScreens)
        }),
{
    let s = cfg.screens@;
    if s.len() > 0 {
        crate::config::laws::what_makes_a_config_usable(s, 0, Seq::empty());
    }
}

/// A file is read when it is there in another version than the one in use.
pub proof fn a_new_version_is_read(w: &Watch, now: Option<Stamp>, r: bool)
    requires
        call_ensures(Watch::is_due, (w, now), r),
    ensures
        now is None ==> !r,
        now is Some && w.in_use() is None ==> r,
        now is Some && w.in_use() is Some ==> (r <==> now->0.modified != w.in_use()->0.modified
            || now->0.len != w.in_use()->0.len),
{
}

// ---------------------------------------------------------------------
// Arguments and messages
// ---------------------------------------------------------------------

/// A host gets the default port exactly where it has none, and then has
/// one: a second time changes nothing.
pub proof fn a_port_is_added_once(host: &str, port: u16, r: String)
    requires
        call_ensures(with_default_port, (host, port), r),
    ensures
        host@.contains(':') ==> r@ == host@,
        !host@.contains(':') ==> r@ == host@ + seq![':'] + decimal_text(port as nat),
        r@.contains(':'),
{
    reveal_strlit(":");
    assert(":"@ =~= seq![':']);
    if !host@.contains(':') {
        assert(r@[host@.len() as int] == ':');
    }
}

/// The banner names the program, the version and the build.
pub proof fn the_banner_names_the_build(bin: &str, r: String)
    requires
        call_ensures(version_banner, (bin,), r),
    ensures
        r@ == bin@ + " 0.1.0 (build 6ccb61867ea039ab)"@,
{
    reveal_strlit(" ");
    reveal_strlit("0.1.0");
    reveal_strlit(" (build ");
    reveal_strlit("6ccb61867ea039ab");
    reveal_strlit(")");
    reveal_strlit(" 0.1.0 (build 6ccb61867ea039ab)");
    assert(r@ =~= bin@ + " 0.1.0 (build 6ccb61867ea039ab)"@);
}

/// A complaint about the command line says what is missing, or quotes what
/// is wrong.
pub proof fn what_a_complaint_says(e: &ArgError, quoted: &str, r: String)
    requires
        call_ensures(ArgError::message_quoting, (e, quoted), r),
    ensures
        e matches ArgError::BadPort(_) ==> r@ == "bad port "@ + quoted@,
        e matches ArgError::Unknown(_) ==> r@ == "unknown argument "@ + quoted@,
        *e == ArgError::Missing(Flag::Config) ==> r@ == "--config needs a path"@,
        *e == ArgError::Missing(Flag::Port) ==> r@ == "--port needs a number"@,
        *e == ArgError::Missing(Flag::LogLevel) ==> r@ == "--log-level needs a value"@,
        *e == ArgError::Missing(Flag::LogCtl) ==> r@ == "--logctl needs a path"@,
        *e == ArgError::Missing(Flag::LogFile) ==> r@ == "--log-file needs a path"@,
        *e == ArgError::Missing(Flag::Name) ==> r@ == "--name needs a value"@,
        *e == ArgError::Missing(Flag::Server) ==> r@ == "--server needs an address"@,
        *e == ArgError::Missing(Flag::ArgsFile) ==> r@ == "--args-file needs a path"@,
{
}

/// A complaint quotes the argument that it is about.
pub proof fn a_complaint_quotes_its_argument(e: &ArgError, r: String)
    requires
        call_ensures(ArgError::message, (e,), r),
    ensures
        e matches ArgError::BadPort(raw) ==> r@ == "bad port "@ + debug_text(raw@),
        e matches ArgError::Unknown(arg) ==> r@ == "unknown argument "@ + debug_text(arg@),
{
}

/// A log line is written exactly where its level is not below the limit,
/// and an operator who asks for none gets `info`.
pub proof fn which_lines_are_written(
    log: &Logger,
    l: Level,
    secs: u64,
    message: &str,
    line: Option<String>,
    env: &Option<String>,
    level: String,
)
    requires
        call_ensures(write_line, (log, l, secs, message), line),
        call_ensures(level_from_env_or_default, (env,), level),
    ensures
        line is Some <==> {
            ||| l is Error
            ||| l is Warn && !(log.limit_of() is Error)
            ||| l is Info && (log.limit_of() is Info || log.limit_of() is Debug)
            ||| l is Debug && log.limit_of() is Debug
        },
        env is Some ==> level@ == env->0@,
        env is None ==> level@ == "info"@,
{
}

// ---------------------------------------------------------------------
// Machines and their places
// ---------------------------------------------------------------------

/// A machine keeps the id in its file, trimmed; only where there is none
/// does it make one. Random bytes become the id as they are.
pub proof fn a_machine_keeps_its_id(
    file: &Option<String>,
    time: u64,
    process: u64,
    r: Identity,
    bytes: Vec<u8>,
    id: String,
)
    requires
        call_ensures(machine_id, (file, time, process), r),
        call_ensures(id_from, (Some(bytes), time, process), id),
    ensures
        file is Some && trimmed(file->0@).len() > 0 ==> (r matches Identity::Kept(kept) && kept@
            == trimmed(file->0@)),
        !(file is Some && trimmed(file->0@).len() > 0) ==> (r matches Identity::Fresh(fresh)
            && fresh@.len() == 32),
        id@ == hex_text(bytes@),
{
    if let Identity::Fresh(fresh) = r {
        if !(file is Some && trimmed(file->0@).len() > 0) {
            crate::machine_id::id_is_32_hex_digits(fresh@);
        }
    }
}

/// State and config are where the operator says, else below the home
/// directory, else here.
pub proof fn where_things_are_kept(
    over: &Option<String>,
    home: bool,
    state: Place,
    config: Place,
)
    requires
        call_ensures(state_dir, (over, home), state),
        call_ensures(default_config_path, (over, home), config),
    ensures
        ({
            let named = over is Some && over->0@.len() > 0;
            &&& named ==> (state matches Place::Named(p) && p@ == over->0@)
            &&& named ==> (config matches Place::Named(p) && p@ == over->0@)
            &&& !named && home ==> (state matches Place::Home(p) && p@ == ".local/state/kvmshare"@)
            &&& !named && home ==> (config matches Place::Home(p) && p@
                == ".config/kvmshare/kvmshare-server.toml"@)
            &&& !named && !home ==> (state matches Place::Here(p) && p@ == ".kvmshare-state"@)
            &&& !named && !home ==> (config matches Place::Here(p) && p@ == "kvmshare-server.toml"@)
        }),
{
}

/// A process starts exactly when it has one of the two roles and neither
/// lock is taken; a taken lock of its own is told before the other's.
pub proof fn who_may_start(role: &str, own: Probe, other: Probe, r: Result<(), String>)
    requires
        call_ensures(acquire_in, (role, own, other), r),
    ensures
        ({
            let known = role@ == "server"@ || role@ == "client"@;
            &&& r is Ok <==> known && !own.locked && !other.locked
            &&& known && own.locked ==> (r matches Err(e) && e@ == "another kvmshare "@ + role@
                + " is already running on this machine ("@ + own.path@ + " is locked)"@)
            &&& role@ == "server"@ && !own.locked && other.locked ==> (r matches Err(e) && e@
                == "a kvmshare "@ + "client"@
                + " is already running on this machine — a machine runs as a server or a client, not both ("@
                + other.path@ + " is locked)"@)
            &&& role@ == "client"@ && !own.locked && other.locked ==> (r matches Err(e) && e@
                == "a kvmshare "@ + "server"@
                + " is already running on this machine — a machine runs as a server or a client, not both ("@
                + other.path@ + " is locked)"@)
            &&& !known ==> (r matches Err(e) && e@ == "unknown role "@ + debug_text(role@))
        }),
{
    crate::program_laws::the_two_roles_exclude_each_other(role@, own.locked, other.locked);
}

/// Each role holds its own lock file and looks at the other's.
pub proof fn which_lock_files(role: &str, r: Result<LockFiles, String>)
    requires
        call_ensures(lock_files, (role,), r),
    ensures
        role@ == "server"@ ==> (r matches Ok(f) && f.own@ == "server.lock"@ && f.other@
            == "client.lock"@),
        role@ == "client"@ ==> (r matches Ok(f) && f.own@ == "client.lock"@ && f.other@
            == "server.lock"@),
        r is Ok <==> role@ == "server"@ || role@ == "client"@,
{
    crate::program_laws::the_two_roles_exclude_each_other(role@, false, false);
}

// ---------------------------------------------------------------------
// Peers
// ---------------------------------------------------------------------

/// A peer that passed has the screen that it was given; one whose name is
/// the server's own is told so, under that code.
pub proof fn a_taken_name_is_told(name: &str, slot: Option<(u8, bool)>, r: Result<(u8, bool), Refusal>)
    requires
        call_ensures(conclude_hello, (name, slot), r),
    ensures
        slot matches Some(s) ==> r == Ok::<(u8, bool), Refusal>(s),
        slot is None ==> {
            &&& r matches Err(f)
            &&& f.reply matches Some((code, text))
            &&& code is NameConflict
            &&& text@ == "a machine cannot connect as \""@ + name@
                + "\" — that is this server's own screen"@
            &&& f.reason@ == "client name "@ + name@ + " conflicts with the local screen"@
        },
{
}

/// A process refuses the servers that its list names, in order: the
/// variable's where it is set, else the file's. It trusts nobody in
/// advance.
pub proof fn which_servers_are_refused(
    env: &Option<String>,
    file: &Option<String>,
    p: Policy,
    i: int,
)
    requires
        call_ensures(revoked_policy, (env, file), p),
    ensures
        ({
            let set = env is Some && trimmed(env->0@).len() > 0;
            let list = if set {
                env->0@
            } else if file is Some {
                file->0@
            } else {
                Seq::empty()
            };
            let ids = entries(split_text(list, ','));
            &&& p.revoked_ids@.len() == ids.len()
            &&& 0 <= i < ids.len() ==> p.revoked_ids@[i]@ == ids[i]
            &&& p.trusted_ids@.len() == 0
            &&& p.allowlist && p.local_only
        }),
{
    let ids = texts(p.revoked_ids@);
    assert(ids.len() == p.revoked_ids@.len());
    if 0 <= i < ids.len() {
        assert(ids[i] == p.revoked_ids@[i]@);
    }
}

/// The same of a list on its own, and of the variable alone.
pub proof fn which_ids_a_list_names(
    raw: &str,
    env: &Option<String>,
    p: Policy,
    q: Policy,
    i: int,
)
    requires
        call_ensures(policy_from_revoked_list, (raw,), p),
        call_ensures(revoked_policy_from_env, (env,), q),
    ensures
        ({
            let ids = entries(split_text(raw@, ','));
            &&& p.revoked_ids@.len() == ids.len()
            &&& 0 <= i < ids.len() ==> p.revoked_ids@[i]@ == ids[i]
            &&& p.trusted_ids@.len() == 0
            &&& p.allowlist && p.local_only
        }),
        env is Some && env->0@ == raw@ ==> texts(q.revoked_ids@) == texts(p.revoked_ids@),
        q.trusted_ids@.len() == 0 && q.allowlist && q.local_only,
{
    let ids = texts(p.revoked_ids@);
    assert(ids.len() == p.revoked_ids@.len());
    if 0 <= i < ids.len() {
        assert(ids[i] == p.revoked_ids@[i]@);
    }
}

/// The clipboard is sent exactly when it holds something that is neither
/// what was sent last nor what came in last.
pub proof fn when_the_clipboard_is_sent(
    cur: &Option<Content>,
    seen: &Option<Content>,
    injected: &Option<Content>,
    r: bool,
)
    requires
        call_ensures(should_send, (cur, seen, injected), r),
    ensures
        r <==> match cur {
            None => false,
            Some(c) => (match seen {
                Some(s) => c.0@ != s.0@ || c.1@ != s.1@,
                None => true,
            }) && (match injected {
                Some(i) => c.0@ != i.0@ || c.1@ != i.1@,
                None => true,
            }),
        },
{
}

/// Times are told in 64 bits, at most their greatest value, and a moment
/// that lies ahead is no time ago.
pub proof fn times_stop_at_their_end(ns: u128, t: u64, now: u64, then: u64, e: u64)
    requires
        call_ensures(capped, (ns,), t),
        call_ensures(elapsed, (now, then), e),
    ensures
        ns <= 0xffff_ffff_ffff_ffff ==> t == ns,
        ns > 0xffff_ffff_ffff_ffff ==> t == 0xffff_ffff_ffff_ffff,
        then <= now ==> then + e == now,
        then > now ==> e == 0,
{
}

/// The chords that a capture intercepts are those of the bindings, in
/// order: control counts 1, alt 2, shift 4 and meta 8.
pub proof fn which_chords_are_intercepted(b: &BindSection, r: Vec<(u8, u32)>, i: int)
    requires
        call_ensures(BindSection::bound_chords, (b,), r),
        0 <= i < b.bindings@.len(),
    ensures
        r@.len() == b.bindings@.len(),
        r@[i].1 == b.bindings@[i].key,
        ({
            let m = b.bindings@[i].mods;
            r@[i].0 == (if m.ctrl { 1int } else { 0 }) + (if m.alt { 2int } else { 0 }) + (if m.shift {
                4int
            } else {
                0
            }) + (if m.meta { 8int } else { 0 })
        }),
{
}

/// Each failure to connect is told in its own words.
pub proof fn what_a_failed_connection_says(e: &ConnectError, shown: &str, r: String)
    requires
        call_ensures(ConnectError::message, (e, shown), r),
    ensures
        e matches ConnectError::Version { server, client } ==> r@ == "server speaks v"@
            + decimal_text(server as nat) + ", client speaks v"@ + decimal_text(client as nat),
        e matches ConnectError::Rejected { code, text } ==> r@
            == "server rejected the connection ("@ + decimal_text(code as nat) + "): "@ + text@,
        e matches ConnectError::Unexpected ==> r@ == "unexpected first message: "@ + shown@,
        e matches ConnectError::Revoked { server_id } ==> r@ == "server "@ + server_id@
            + " is revoked on this machine"@,
{
}

/// A reader of the state file finds what was written, line by line; only a
/// requested stop is marked.
pub proof fn the_state_file_reads_back(
    status: &str,
    server: &str,
    id: &str,
    plain: String,
    live: String,
    stopped: String,
)
    requires
        call_ensures(write_client_state, (status, server), plain),
        call_ensures(write_client_state_connected, (server, id), live),
        call_ensures(write_client_state_stopped, (server,), stopped),
        unbroken(status@) && unbroken(server@) && unbroken(id@),
    ensures
        lines_text(plain@) == seq!["status="@ + status@, "server="@ + server@],
        id@.len() > 0 ==> lines_text(live@) == seq![
            "status="@ + "connected"@,
            "server="@ + server@,
            "server_id="@ + id@,
        ],
        lines_text(stopped@) == seq![
            "status="@ + "disconnected"@,
            "server="@ + server@,
            "stopped=1"@,
        ],
{
    reveal_strlit("connected");
    reveal_strlit("disconnected");
    let none = Seq::<char>::empty();
    state_reads_back(status@, server@, none, false);
    state_reads_back("connected"@, server@, id@, false);
    state_reads_back("disconnected"@, server@, none, true);
}

/// A server writes to a client on the client's own connection, and to
/// everybody on all connections, in the order in which they registered.
pub proof fn how_clients_are_reached(
    h: &Hub,
    id: u8,
    msg: Message,
    es: Vec<Effect>,
    all: Vec<u64>,
    k: int,
)
    requires
        call_ensures(Hub::enqueue, (h, id, msg), es),
        call_ensures(Hub::broadcast_targets, (h,), all),
        is_client(h@.clients, id, k),
    ensures
        es@.len() == 1,
        msg is MouseMoveRel ==> es@[0] == (Effect::Queue {
            conn: h@.clients[k].conn,
            item: Outbound::Udp(msg),
        }),
        !(msg is MouseMoveRel) ==> es@[0] == (Effect::Queue {
            conn: h@.clients[k].conn,
            item: Outbound::Tcp(msg),
        }),
        all@.len() == h@.clients.len(),
        all@[k] == h@.clients[k].conn,
{
    lemma_at(h@.clients, id, k);
}

} // verus!
