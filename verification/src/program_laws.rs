//! What holds of the rules around the two programs: arguments, log lines,
//! ids, trust, places, the clipboard, role locks and layout warnings.
use vstd::prelude::*;
use vstd::string::*;

use crate::args::{
    client_args, file_tokens, flag_shaped, no_client_args, no_server_args, server_args, staged,
    without_returns, ArgError, ClientDraft, Flag, Parsed, ServerArgs,
};
use crate::clipboard::{is_news, Content};
use crate::clock::age;
use crate::guard::{known_role, lock_file, may_start, rival};
use crate::issues::{
    issues_from, issues_of, no_size_text, overlap, overlap_text, overlaps_from,
};
use crate::log::{level_label, level_name, line_text, named_level, rank, two_digits, Level};
use crate::machine_id::{fallback_bytes, hex_digit, hex_text, low_bytes};
use crate::places::{given, host};
use crate::protocol::{half, Rect, Screen};
use crate::text::{ascii_lower, decimal_text, digit_text, number_value, trimmed};
use crate::text_laws::a_number_is_read_back;
use crate::trust::{entries, list_in_force};

verus! {

// ---------------------------------------------------------------------
// Arguments
// ---------------------------------------------------------------------

proof fn lemma_flags()
    ensures
        "--config"@.len() == 8 && "--config"@[2] == 'c',
        "-c"@.len() == 2 && "-c"@[1] == 'c',
        "--port"@.len() == 6 && "--port"@[2] == 'p',
        "-p"@.len() == 2 && "-p"@[1] == 'p',
        "--log-level"@.len() == 11 && "--log-level"@[2] == 'l',
        "-l"@.len() == 2 && "-l"@[1] == 'l',
        "--logctl"@.len() == 8 && "--logctl"@[2] == 'l',
        "--log-file"@.len() == 10,
        "--version"@.len() == 9 && "--version"@[2] == 'v',
        "-V"@.len() == 2 && "-V"@[1] == 'V',
        "--help"@.len() == 6 && "--help"@[2] == 'h',
        "-h"@.len() == 2 && "-h"@[1] == 'h',
        "--name"@.len() == 6 && "--name"@[2] == 'n',
        "-n"@.len() == 2 && "-n"@[1] == 'n',
        "--server"@.len() == 8 && "--server"@[2] == 's',
        "--connect"@.len() == 9 && "--connect"@[2] == 'c',
        "-"@.len() == 1 && "-"@[0] == '-',
{
    reveal_strlit("--config");
    reveal_strlit("-c");
    reveal_strlit("--port");
    reveal_strlit("-p");
    reveal_strlit("--log-level");
    reveal_strlit("-l");
    reveal_strlit("--logctl");
    reveal_strlit("--log-file");
    reveal_strlit("--version");
    reveal_strlit("-V");
    reveal_strlit("--help");
    reveal_strlit("-h");
    reveal_strlit("--name");
    reveal_strlit("-n");
    reveal_strlit("--server");
    reveal_strlit("--connect");
    reveal_strlit("-");
}

/// The argument is `long`, or `short`.
pub open spec fn spelled(arg: String, long: Seq<char>, short: Seq<char>) -> bool {
    arg@ == long || arg@ == short
}

/// A flag of the server sets its own argument to the value behind it, on
/// top of what was read before it, and no other; a flag without its value
/// is missing it, and a port must be a number up to 65535. Version and help
/// end the reading, and anything else is unknown.
pub proof fn each_server_flag_sets_its_argument(
    flag: String,
    value: String,
    rest: Seq<String>,
    acc: ServerArgs,
)
    ensures
        ({
            let args = seq![flag, value] + rest;
            let out = server_args(args, acc);
            let alone = server_args(seq![flag], acc);
            let config = spelled(flag, "--config"@, "-c"@);
            let port = spelled(flag, "--port"@, "-p"@);
            let level = spelled(flag, "--log-level"@, "-l"@);
            let ctl = flag@ == "--logctl"@;
            let file = flag@ == "--log-file"@;
            let version = spelled(flag, "--version"@, "-V"@);
            let help = spelled(flag, "--help"@, "-h"@);
            &&& config ==> out == server_args(rest, ServerArgs { config: Some(value), ..acc })
            &&& config ==> alone == Parsed::<ServerArgs>::Fail(ArgError::Missing(Flag::Config))
            &&& level ==> out == server_args(rest, ServerArgs { log_level: Some(value), ..acc })
            &&& level ==> alone == Parsed::<ServerArgs>::Fail(ArgError::Missing(Flag::LogLevel))
            &&& ctl ==> out == server_args(rest, ServerArgs { log_ctl: Some(value), ..acc })
            &&& ctl ==> alone == Parsed::<ServerArgs>::Fail(ArgError::Missing(Flag::LogCtl))
            &&& file ==> out == server_args(rest, ServerArgs { log_file: Some(value), ..acc })
            &&& file ==> alone == Parsed::<ServerArgs>::Fail(ArgError::Missing(Flag::LogFile))
            &&& port ==> alone == Parsed::<ServerArgs>::Fail(ArgError::Missing(Flag::Port))
            &&& port && number_value(value@) is Some && number_value(value@)->0 <= 65535 ==> out
                == server_args(
                rest,
                ServerArgs { port: number_value(value@)->0 as u16, ..acc },
            )
            &&& port && !(number_value(value@) is Some && number_value(value@)->0 <= 65535)
                ==> out == Parsed::<ServerArgs>::Fail(ArgError::BadPort(value))
            &&& version ==> out is Version && alone is Version
            &&& help ==> out is Help && alone is Help
            &&& !(config || port || level || ctl || file || version || help) ==> out
                == Parsed::<ServerArgs>::Fail(ArgError::Unknown(flag))
        }),
        server_args(Seq::empty(), acc) == Parsed::Run(acc),
        ({
            let n = no_server_args();
            n.config is None && n.port == 0 && n.log_level is None && n.log_ctl is None && n.log_file
                is None
        }),
{
    lemma_flags();
    let args = seq![flag, value] + rest;
    assert(args[0] == flag && args[1] == value);
    assert(args.skip(2) =~= rest);
    assert(seq![flag][0] == flag);
}

/// A flag of the client sets its own argument to the value behind it, and
/// no other. The address comes behind `--server` or `--connect`, or alone:
/// the first argument that is no flag is it. A second address is unknown,
/// and so is a flag that does not exist; a dash alone is no flag.
pub proof fn each_client_flag_sets_its_argument(
    flag: String,
    value: String,
    rest: Seq<String>,
    acc: ClientDraft,
)
    ensures
        ({
            let args = seq![flag, value] + rest;
            let out = client_args(args, acc);
            let alone = client_args(seq![flag], acc);
            let name = spelled(flag, "--name"@, "-n"@);
            let level = spelled(flag, "--log-level"@, "-l"@);
            let ctl = flag@ == "--logctl"@;
            let file = flag@ == "--log-file"@;
            let version = spelled(flag, "--version"@, "-V"@);
            let help = spelled(flag, "--help"@, "-h"@);
            let server = spelled(flag, "--server"@, "--connect"@);
            let dashed = flag@.len() >= 2 && flag@[0] == '-';
            let other = !(name || level || ctl || file || version || help || server);
            &&& name ==> out == client_args(rest, ClientDraft { name: Some(value), ..acc })
            &&& name ==> alone == Parsed::<ClientDraft>::Fail(ArgError::Missing(Flag::Name))
            &&& level ==> out == client_args(rest, ClientDraft { log_level: Some(value), ..acc })
            &&& level ==> alone == Parsed::<ClientDraft>::Fail(ArgError::Missing(Flag::LogLevel))
            &&& ctl ==> out == client_args(rest, ClientDraft { log_ctl: Some(value), ..acc })
            &&& ctl ==> alone == Parsed::<ClientDraft>::Fail(ArgError::Missing(Flag::LogCtl))
            &&& file ==> out == client_args(rest, ClientDraft { log_file: Some(value), ..acc })
            &&& file ==> alone == Parsed::<ClientDraft>::Fail(ArgError::Missing(Flag::LogFile))
            &&& version ==> out is Version && alone is Version
            &&& help ==> out is Help && alone is Help
            &&& server && acc.addr is None ==> out == client_args(
                rest,
                ClientDraft { addr: Some(value), ..acc },
            )
            &&& server && acc.addr is None ==> alone == Parsed::<ClientDraft>::Fail(
                ArgError::Missing(Flag::Server),
            )
            &&& server && acc.addr is Some ==> out == Parsed::<ClientDraft>::Fail(
                ArgError::Unknown(flag),
            )
            &&& other && (dashed || acc.addr is Some) ==> out == Parsed::<ClientDraft>::Fail(
                ArgError::Unknown(flag),
            )
            &&& other && !dashed && acc.addr is None ==> out == client_args(
                seq![value] + rest,
                ClientDraft { addr: Some(flag), ..acc },
            )
        }),
        client_args(Seq::empty(), acc) == Parsed::Run(acc),
        ({
            let n = no_client_args();
            n.addr is None && n.name is None && n.log_level is None && n.log_ctl is None
                && n.log_file is None
        }),
{
    lemma_flags();
    let args = seq![flag, value] + rest;
    assert(args[0] == flag && args[1] == value);
    assert(args.skip(2) =~= rest);
    assert(args.skip(1) =~= seq![value] + rest);
    assert(seq![flag][0] == flag);
    assert(flag_shaped(flag@) <==> flag@.len() >= 2 && flag@[0] == '-') by {
        if "-"@.is_prefix_of(flag@) {
            assert(flag@.subrange(0, 1)[0] == flag@[0]);
            if flag@.len() == 1 {
                assert(flag@ =~= "-"@);
            }
        }
        if flag@.len() >= 2 && flag@[0] == '-' {
            assert("-"@ =~= flag@.subrange(0, 1));
        }
    }
}

/// An args-file flag is taken out of the command line together with its
/// path, in either form, and the last one given counts; everything else
/// stays, in order. A flag without its path breaks the command line.
pub proof fn args_file_flags_are_taken_out(arg: String, value: String, rest: Seq<String>)
    ensures
        ({
            let t = staged(rest);
            let two = staged(seq![arg, value] + rest);
            let one = staged(seq![arg] + rest);
            let inline = arg@.len() >= 12 && forall|i: int|
                0 <= i < 12 ==> #[trigger] arg@[i] == "--args-file="@[i];
            &&& arg@ == "--args-file"@ ==> two.rest == t.rest && two.broken == t.broken && two.file
                == if t.file is Some {
                t.file
            } else {
                Some(value@)
            }
            &&& arg@ == "--args-file"@ ==> staged(seq![arg]).broken
            &&& arg@ != "--args-file"@ && inline ==> one.rest == t.rest && one.broken == t.broken
                && one.file == if t.file is Some {
                t.file
            } else {
                Some(arg@.skip(12))
            }
            &&& arg@ != "--args-file"@ && !inline ==> one.rest == seq![arg] + t.rest && one.broken
                == t.broken && one.file == t.file
        }),
        staged(Seq::empty()).rest.len() == 0,
        staged(Seq::empty()).file is None,
        !staged(Seq::empty()).broken,
{
    reveal_strlit("--args-file=");
    let p = "--args-file="@;
    let two = seq![arg, value] + rest;
    let one = seq![arg] + rest;
    assert(two[0] == arg && two[1] == value && two.skip(2) =~= rest);
    assert(one[0] == arg && one.skip(1) =~= rest);
    assert(seq![arg][0] == arg);
    if p.is_prefix_of(arg@) {
        assert forall|i: int| 0 <= i < 12 implies #[trigger] arg@[i] == p[i] by {
            assert(arg@.subrange(0, 12)[i] == arg@[i]);
        }
    }
    if arg@.len() >= 12 && forall|i: int| 0 <= i < 12 ==> #[trigger] arg@[i] == p[i] {
        assert(p =~= arg@.subrange(0, 12));
    }
}

/// The tokens of an args file are its lines without carriage returns at
/// their end, in order; a line that holds nothing else is no token.
pub proof fn each_line_of_an_args_file_is_a_token(ls: Seq<Seq<char>>, line: Seq<char>)
    ensures
        line.len() > 0 && line.last() != '\r' ==> file_tokens(ls.push(line)) == file_tokens(
            ls,
        ).push(line),
        file_tokens(ls.push(Seq::empty())) == file_tokens(ls),
        file_tokens(ls.push(line.push('\r'))) == file_tokens(ls.push(line)),
        file_tokens(Seq::empty()).len() == 0,
{
    assert(ls.push(line).drop_last() =~= ls);
    assert(ls.push(line).last() == line);
    let none = Seq::<char>::empty();
    assert(ls.push(none).drop_last() =~= ls);
    assert(ls.push(none).last() == none);
    let cr = line.push('\r');
    assert(ls.push(cr).drop_last() =~= ls);
    assert(ls.push(cr).last() == cr);
    assert(cr.drop_last() =~= line);
    assert(without_returns(cr) == without_returns(line));
}

// ---------------------------------------------------------------------
// Log lines
// ---------------------------------------------------------------------

/// A line of some level is written under every limit that is at least as
/// talkative: errors always, warnings unless errors alone are asked for,
/// information from `info` on, and debug lines under `debug` alone.
pub proof fn graver_lines_are_written_first(l: Level, limit: Level)
    ensures
        rank(l) <= rank(limit) <==> {
            ||| l is Error
            ||| l is Warn && !(limit is Error)
            ||| l is Info && (limit is Info || limit is Debug)
            ||| l is Debug && limit is Debug
        },
        level_label(Level::Error) == "ERROR"@,
        level_label(Level::Warn) == "WARN"@,
        level_label(Level::Info) == "INFO"@,
        level_label(Level::Debug) == "DEBUG"@,
{
}

/// The four levels go by their names, warnings by two, and by no others.
/// Case and the white space around a name do not matter.
pub proof fn levels_go_by_their_names(name: Seq<char>)
    ensures
        named_level("error"@) == Some(Level::Error),
        named_level("warn"@) == Some(Level::Warn),
        named_level("warning"@) == Some(Level::Warn),
        named_level("info"@) == Some(Level::Info),
        named_level("debug"@) == Some(Level::Debug),
        named_level(name) is Some ==> name == "error"@ || name == "warn"@ || name == "warning"@
            || name == "info"@ || name == "debug"@,
        level_name(name).len() == trimmed(name).len(),
        forall|i: int|
            0 <= i < trimmed(name).len() ==> #[trigger] level_name(name)[i] == ascii_lower(
                trimmed(name)[i],
            ),
{
    reveal_strlit("error");
    reveal_strlit("warn");
    reveal_strlit("warning");
    reveal_strlit("info");
    reveal_strlit("debug");
    assert("error"@[0] == 'e' && "info"@[0] == 'i' && "debug"@[0] == 'd' && "warn"@[0] == 'w');
    assert("warn"@.len() == 4 && "warning"@.len() == 7 && "warning"@[0] == 'w');
}

/// A number below a hundred is written in two digits that read back as it.
pub proof fn two_digits_read_back(n: nat)
    requires
        n < 100,
    ensures
        two_digits(n).len() == 2,
        number_value(two_digits(n)) == Some(n),
        n >= 10 ==> two_digits(n) == decimal_text(n),
        n < 10 ==> two_digits(n) == seq!['0'] + decimal_text(n),
{
    reveal_strlit("0");
    reveal_with_fuel(decimal_text, 3);
    a_number_is_read_back(n);
    a_number_is_read_back(n / 10);
    a_number_is_read_back(n % 10);
    let a = digit_text(n / 10);
    let b = digit_text(n % 10);
    assert(a == decimal_text(n / 10) && b == decimal_text(n % 10));
    lemma_one_digit(n / 10);
    lemma_one_digit(n % 10);
    let t = two_digits(n);
    assert(t == a + b);
    if n < 10 {
        assert(a =~= seq!['0']);
        reveal_with_fuel(crate::text::digits_value, 3);
        assert(t.drop_last() =~= a);
        assert(t.last() == b[0]);
        assert(b.drop_last() =~= Seq::<char>::empty());
        assert(a.drop_last() =~= Seq::<char>::empty());
    } else {
        assert(decimal_text(n) =~= t);
    }
}

proof fn lemma_one_digit(d: nat)
    requires
        d < 10,
    ensures
        digit_text(d).len() == 1,
{
    a_number_is_read_back(d);
    reveal_strlit("0");
    reveal_strlit("1");
    reveal_strlit("2");
    reveal_strlit("3");
    reveal_strlit("4");
    reveal_strlit("5");
    reveal_strlit("6");
    reveal_strlit("7");
    reveal_strlit("8");
    reveal_strlit("9");
}

/// A log line tells the time of day: for any hour, minute and second of any
/// day it writes these three, then the level, the component and the
/// message. A process without a name of its own logs as the project.
pub proof fn a_log_line_tells_the_time_of_day(
    day: nat,
    h: nat,
    m: nat,
    s: nat,
    l: Level,
    component: Seq<char>,
    message: Seq<char>,
)
    requires
        h < 24,
        m < 60,
        s < 60,
    ensures
        line_text(86400 * day + 3600 * h + 60 * m + s, l, Some(component), message) == two_digits(h)
            + ":"@ + two_digits(m) + ":"@ + two_digits(s) + " "@ + level_label(l) + " "@ + component
            + ": "@ + message,
        line_text(86400 * day + 3600 * h + 60 * m + s, l, None, message) == line_text(
            86400 * day + 3600 * h + 60 * m + s,
            l,
            Some("kvmshare"@),
            message,
        ),
{
    let t = 86400 * day + 3600 * h + 60 * m + s;
    assert(t % 60 == s);
    assert(t / 60 == 1440 * day + 60 * h + m);
    assert(t / 60 % 60 == m);
    assert(t / 3600 == 24 * day + h);
    assert(t / 3600 % 24 == h);
}

// ---------------------------------------------------------------------
// Machine ids
// ---------------------------------------------------------------------

/// The value of a hex digit in lower case.
pub open spec fn hex_value(c: char) -> int {
    if '0' <= c <= '9' {
        c as int - '0' as int
    } else {
        c as int - 'a' as int + 10
    }
}

/// An id reads back as its bytes: two digits each, the higher half first.
pub proof fn an_id_reads_back(bytes: Seq<u8>, i: int)
    requires
        0 <= i < bytes.len(),
    ensures
        hex_text(bytes).len() == 2 * bytes.len(),
        16 * hex_value(hex_text(bytes)[2 * i]) + hex_value(hex_text(bytes)[2 * i + 1]) == bytes[i],
{
    let b = bytes[i] as int;
    assert(hex_text(bytes)[2 * i] == hex_digit(b / 16));
    assert(hex_text(bytes)[2 * i + 1] == hex_digit(b % 16));
}

/// The number that bytes make, the lowest first.
pub open spec fn number_of(bytes: Seq<u8>) -> nat
    decreases bytes.len(),
{
    if bytes.len() == 0 {
        0
    } else {
        bytes[0] as nat + 256 * number_of(bytes.drop_first())
    }
}

/// 256 times itself `n` times.
pub open spec fn byte_range(n: nat) -> nat
    decreases n,
{
    if n == 0 {
        1
    } else {
        256 * byte_range((n - 1) as nat)
    }
}

/// The bytes of a number that fits read back as the number.
pub proof fn low_bytes_read_back(v: nat, n: nat)
    requires
        v < byte_range(n),
    ensures
        low_bytes(v, n).len() == n,
        number_of(low_bytes(v, n)) == v,
    decreases n,
{
    if n > 0 {
        let rest = (n - 1) as nat;
        assert(v / 256 < byte_range(rest));
        low_bytes_read_back(v / 256, rest);
        let t = low_bytes(v, n);
        assert(t.drop_first() =~= low_bytes(v / 256, rest));
        assert(t[0] == (v % 256) as u8);
    }
}

/// An id that was made without random numbers holds the time in its first
/// eight bytes and the process in the last eight.
pub proof fn a_fallback_id_holds_time_and_process(time: u64, process: u64)
    ensures
        fallback_bytes(time, process).len() == 16,
        number_of(fallback_bytes(time, process).take(8)) == time,
        number_of(fallback_bytes(time, process).skip(8)) == process,
{
    reveal_with_fuel(byte_range, 9);
    low_bytes_read_back(time as nat, 8);
    low_bytes_read_back(process as nat, 8);
    let t = fallback_bytes(time, process);
    assert(t.take(8) =~= low_bytes(time as nat, 8));
    assert(t.skip(8) =~= low_bytes(process as nat, 8));
}

// ---------------------------------------------------------------------
// Trust and places
// ---------------------------------------------------------------------

/// The entries of a list are its pieces, trimmed and in order; a blank
/// piece is no entry.
pub proof fn each_piece_is_an_entry(pieces: Seq<Seq<char>>, piece: Seq<char>)
    ensures
        trimmed(piece).len() > 0 ==> entries(pieces.push(piece)) == entries(pieces).push(
            trimmed(piece),
        ),
        trimmed(piece).len() == 0 ==> entries(pieces.push(piece)) == entries(pieces),
        entries(Seq::empty()).len() == 0,
{
    assert(pieces.push(piece).drop_last() =~= pieces);
    assert(pieces.push(piece).last() == piece);
}

/// The variable's list counts where it says anything, then the file's, then
/// none.
pub proof fn the_variable_comes_before_the_file(env: Option<Seq<char>>, file: Option<Seq<char>>)
    ensures
        env is Some && trimmed(env->0).len() > 0 ==> list_in_force(env, file) == env->0,
        !(env is Some && trimmed(env->0).len() > 0) && file is Some ==> list_in_force(env, file)
            == file->0,
        !(env is Some && trimmed(env->0).len() > 0) && file is None ==> list_in_force(
            env,
            file,
        ).len() == 0,
{
}

/// A machine goes by the name that its environment gives, else by the
/// kernel's, trimmed, else by the platform's, else by a placeholder.
pub proof fn where_a_name_comes_from(
    env: Option<Seq<char>>,
    kernel: Option<Seq<char>>,
    platform: Seq<char>,
)
    ensures
        ({
            let e = env is Some && env->0.len() > 0;
            let k = kernel is Some && trimmed(kernel->0).len() > 0;
            let name = host(env, kernel, platform);
            &&& given(env) <==> e
            &&& e ==> name == env->0
            &&& !e && k ==> name == trimmed(kernel->0)
            &&& !e && !k && platform.len() > 0 ==> name == platform
            &&& !e && !k && platform.len() == 0 ==> name == "client"@
        }),
{
}

/// Local clipboard content is news exactly when it differs, in its type or
/// its bytes, from what was last sent and from what last came in.
pub proof fn news_differs_from_both(cur: Content, seen: Option<Content>, injected: Option<Content>)
    ensures
        is_news(cur, seen, injected) <==> (match seen {
            Some(s) => cur.0@ != s.0@ || cur.1@ != s.1@,
            None => true,
        }) && (match injected {
            Some(i) => cur.0@ != i.0@ || cur.1@ != i.1@,
            None => true,
        }),
{
}

// ---------------------------------------------------------------------
// Roles
// ---------------------------------------------------------------------

/// The two roles exclude each other and no other role exists; each has its
/// own lock file. A process starts exactly when its role is one of the two
/// and neither lock is taken.
pub proof fn the_two_roles_exclude_each_other(role: Seq<char>, own: bool, other: bool)
    ensures
        known_role(role) <==> role == "server"@ || role == "client"@,
        rival("server"@) == "client"@,
        rival("client"@) == "server"@,
        known_role(role) ==> rival(role) != role && rival(rival(role)) == role && lock_file(role)
            != lock_file(rival(role)),
        lock_file("server"@) == "server.lock"@,
        lock_file("client"@) == "client.lock"@,
        may_start(role, own, other) <==> (role == "server"@ || role == "client"@) && !own && !other,
{
    reveal_strlit("server");
    reveal_strlit("client");
    reveal_strlit(".lock");
    reveal_strlit("server.lock");
    reveal_strlit("client.lock");
    assert("server"@[0] == 's' && "client"@[0] == 'c');
    assert(lock_file("server"@) =~= "server.lock"@);
    assert(lock_file("client"@) =~= "client.lock"@);
    assert("server.lock"@[0] == 's' && "client.lock"@[0] == 'c');
}

// ---------------------------------------------------------------------
// Layout warnings
// ---------------------------------------------------------------------

/// Two rectangles overlap where some columns and some rows are common to
/// both.
pub proof fn overlapping_means_common_ground(a: Rect, b: Rect)
    requires
        a.w > 0 && a.h > 0 && b.w > 0 && b.h > 0,
    ensures
        overlap(a, b) <==> exists|x: int, y: int| #[trigger]
            a.covers(x, y) && b.x <= x < b.x + b.w && b.y <= y < b.y + b.h,
        overlap(a, b) == overlap(b, a),
{
    if overlap(a, b) {
        let x = if a.x >= b.x {
            a.x as int
        } else {
            b.x as int
        };
        let y = if a.y >= b.y {
            a.y as int
        } else {
            b.y as int
        };
        assert(a.covers(x, y));
    }
}

proof fn lemma_overlaps(s: Seq<Screen>, q: Seq<Seq<char>>, i: int, j: int, w: Seq<char>)
    requires
        0 <= i < j,
    ensures
        overlaps_from(s, q, i, j).contains(w) <==> exists|b: int|
            j <= b < s.len() && overlap(s[i].rect, (#[trigger] s[b]).rect) && w == overlap_text(
                q[i],
                q[b],
            ),
    decreases s.len() - j,
{
    if j < s.len() {
        lemma_overlaps(s, q, i, j + 1, w);
        let rest = overlaps_from(s, q, i, j + 1);
        let all = overlaps_from(s, q, i, j);
        if overlap(s[i].rect, s[j].rect) {
            let first = overlap_text(q[i], q[j]);
            assert(all == seq![first] + rest);
            assert(all.contains(w) <==> w == first || rest.contains(w)) by {
                if w == first {
                    assert(all[0] == w);
                }
                if rest.contains(w) {
                    let k = choose|k: int| 0 <= k < rest.len() && rest[k] == w;
                    assert(all[k + 1] == w);
                }
                if all.contains(w) {
                    let k = choose|k: int| 0 <= k < all.len() && all[k] == w;
                    if k > 0 {
                        assert(rest[k - 1] == w);
                    }
                }
            }
            if w == first {
                assert(overlap(s[i].rect, s[j].rect) && w == overlap_text(q[i], q[j]));
            }
        }
    } else {
        assert(overlaps_from(s, q, i, j) =~= Seq::<Seq<char>>::empty());
    }
}

/// The warnings of the screens from `i` on: one that a screen has no size,
/// for each that has none, and one for each later screen that a screen of
/// some size overlaps. There are no others.
pub proof fn what_is_warned_of(s: Seq<Screen>, q: Seq<Seq<char>>, i: int, w: Seq<char>)
    requires
        0 <= i,
    ensures
        issues_from(s, q, i).contains(w) <==> exists|a: int|
            i <= a < s.len() && {
                let r = (#[trigger] s[a]).rect;
                ||| (r.w <= 0 || r.h <= 0) && w == no_size_text(q[a])
                ||| r.w > 0 && r.h > 0 && exists|b: int|
                    a < b < s.len() && overlap(r, (#[trigger] s[b]).rect) && w == overlap_text(
                        q[a],
                        q[b],
                    )
            },
    decreases s.len() - i,
{
    if i < s.len() {
        what_is_warned_of(s, q, i + 1, w);
        lemma_overlaps(s, q, i, i + 1, w);
        let own = issues_of(s, q, i);
        let rest = issues_from(s, q, i + 1);
        let all = issues_from(s, q, i);
        assert(all == own + rest);
        assert(all.contains(w) <==> own.contains(w) || rest.contains(w)) by {
            if own.contains(w) {
                let k = choose|k: int| 0 <= k < own.len() && own[k] == w;
                assert(all[k] == w);
            }
            if rest.contains(w) {
                let k = choose|k: int| 0 <= k < rest.len() && rest[k] == w;
                assert(all[own.len() + k] == w);
            }
            if all.contains(w) {
                let k = choose|k: int| 0 <= k < all.len() && all[k] == w;
                if k < own.len() {
                    assert(own[k] == w);
                } else {
                    assert(rest[k - own.len()] == w);
                }
            }
        }
        let r = s[i].rect;
        if !(r.w > 0 && r.h > 0) {
            assert(own == seq![no_size_text(q[i])]);
            assert(own[0] == no_size_text(q[i]));
            assert(own.contains(w) <==> w == no_size_text(q[i]));
        }
    } else {
        assert(issues_from(s, q, i) =~= Seq::<Seq<char>>::empty());
    }
}

/// The two warnings name the screens that they are about.
pub proof fn a_warning_names_its_screens(a: Seq<char>, b: Seq<char>)
    ensures
        no_size_text(a) == "screen "@ + a + " has no size — give it its real resolution"@,
        overlap_text(a, b) == "screens "@ + a + " and "@ + b
            + " overlap — the cursor can only be on one; move them apart"@,
{
}

// ---------------------------------------------------------------------
// Time and halves
// ---------------------------------------------------------------------

/// The age of a moment is the time since it, and nothing for one that lies
/// ahead.
pub proof fn ages_are_never_negative(now: u64, then: u64)
    ensures
        then <= now ==> then + age(now, then) == now,
        then > now ==> age(now, then) == 0,
{
}

/// Half of a size and the other half differ by at most the odd pixel, which
/// the half toward zero leaves out.
pub proof fn halves_leave_out_the_odd_pixel(v: int)
    ensures
        v >= 0 ==> 0 <= v - 2 * half(v) <= 1,
        v <= 0 ==> 0 <= 2 * half(v) - v <= 1,
        half(-v) == -half(v),
{
}

} // verus!
