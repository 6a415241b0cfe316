//! Command-line argument parsing for the two roles (deliberately small).
use vstd::prelude::*;
use vstd::string::*;

use crate::text::{
    contains_char, debug_text, decimal, decimal_text, lines, lines_text, number_value, parse_u16,
    quoted, same, starts_with, texts,
};

verus! {

/// The id that `--version` prints for this release. The binaries of one
/// release all carry the same id.
pub const BUILD_ID: &'static str = "6ccb61867ea039ab";

/// The package version, for `--version` output.
pub const PKG_VERSION: &'static str = "0.1.0";

/// Arguments for the server.
#[derive(Debug, PartialEq)]
pub struct ServerArgs {
    pub config: Option<String>,
    /// 0 when not given.
    pub port: u16,
    pub log_level: Option<String>,
    /// Log-control file path (hot-reloaded by the logger).
    pub log_ctl: Option<String>,
    /// Log-file path.
    pub log_file: Option<String>,
}

/// Arguments for the client.
#[derive(Debug, PartialEq)]
pub struct ClientArgs {
    /// The server address, or empty (the caller decides whether empty is
    /// fatal).
    pub server_addr: String,
    pub name: Option<String>,
    pub log_level: Option<String>,
    /// Log-control file path (hot-reloaded by the logger).
    pub log_ctl: Option<String>,
    /// Log-file path.
    pub log_file: Option<String>,
}

/// A flag that takes a value.
#[derive(Debug, Clone, Copy, PartialEq, Eq, Structural)]
pub enum Flag {
    Config,
    Port,
    LogLevel,
    LogCtl,
    LogFile,
    Name,
    Server,
    ArgsFile,
}

/// Why a command line is refused.
#[derive(Debug, PartialEq)]
pub enum ArgError {
    /// A flag stands last, without its value.
    Missing(Flag),
    /// The port is no number that fits.
    BadPort(String),
    /// The argument is not known, or comes too late.
    Unknown(String),
}

/// What a command line asks for.
#[derive(Debug, PartialEq)]
pub enum Parsed<T> {
    Run(T),
    /// Print the version banner and exit.
    Version,
    /// Print the usage and exit.
    Help,
    Fail(ArgError),
}

/// The complaint about a flag without its value.
pub open spec fn missing_text(f: Flag) -> Seq<char> {
    match f {
        Flag::Config => "--config needs a path"@,
        Flag::Port => "--port needs a number"@,
        Flag::LogLevel => "--log-level needs a value"@,
        Flag::LogCtl => "--logctl needs a path"@,
        Flag::LogFile => "--log-file needs a path"@,
        Flag::Name => "--name needs a value"@,
        Flag::Server => "--server needs an address"@,
        Flag::ArgsFile => "--args-file needs a path"@,
    }
}

impl ArgError {
    /// The message, given the quoted form of the offending argument.
    pub open spec fn text(self, quoted: Seq<char>) -> Seq<char> {
        match self {
            ArgError::Missing(f) => missing_text(f),
            ArgError::BadPort(_) => "bad port "@ + quoted,
            ArgError::Unknown(_) => "unknown argument "@ + quoted,
        }
    }

    /// The offending argument.
    pub open spec fn culprit(self) -> Seq<char> {
        match self {
            ArgError::Missing(_) => Seq::empty(),
            ArgError::BadPort(raw) => raw@,
            ArgError::Unknown(arg) => arg@,
        }
    }

    /// The message, given the quoted form of the offending argument.
    pub fn message_quoting(&self, quoted: &str) -> (r: String)
        ensures
            r@ == self.text(quoted@),
    {
        match self {
            ArgError::Missing(f) => match f {
                Flag::Config => "--config needs a path".to_owned(),
                Flag::Port => "--port needs a number".to_owned(),
                Flag::LogLevel => "--log-level needs a value".to_owned(),
                Flag::LogCtl => "--logctl needs a path".to_owned(),
                Flag::LogFile => "--log-file needs a path".to_owned(),
                Flag::Name => "--name needs a value".to_owned(),
                Flag::Server => "--server needs an address".to_owned(),
                Flag::ArgsFile => "--args-file needs a path".to_owned(),
            },
            ArgError::BadPort(_) => {
                let mut out: String = "bad port ".to_owned();
                out.append(quoted);
                out
            },
            ArgError::Unknown(_) => {
                let mut out: String = "unknown argument ".to_owned();
                out.append(quoted);
                out
            },
        }
    }

    /// The message for the user.
    pub fn message(&self) -> (r: String)
        ensures
            r@ == self.text(debug_text(self.culprit())),
    {
        match self {
            ArgError::Missing(_) => self.message_quoting(""),
            ArgError::BadPort(raw) => self.message_quoting(quoted(raw.as_str()).as_str()),
            ArgError::Unknown(arg) => self.message_quoting(quoted(arg.as_str()).as_str()),
        }
    }
}

/// The argument is one of two spellings.
pub open spec fn either(arg: String, a: Seq<char>, b: Seq<char>) -> bool {
    arg@ == a || arg@ == b
}

fn is_either(arg: &String, a: &str, b: &str) -> (r: bool)
    ensures
        r == either(*arg, a@, b@),
{
    same(arg.as_str(), a) || same(arg.as_str(), b)
}

/// The server's arguments: `args` read from left to right on top of what
/// was read before. A later value of a flag replaces an earlier one.
pub open spec fn server_args(args: Seq<String>, acc: ServerArgs) -> Parsed<ServerArgs>
    decreases args.len(),
{
    if args.len() == 0 {
        Parsed::Run(acc)
    } else {
        let arg = args[0];
        let value = args[1];
        let rest = args.skip(2);
        if either(arg, "--config"@, "-c"@) {
            if args.len() < 2 {
                Parsed::Fail(ArgError::Missing(Flag::Config))
            } else {
                server_args(rest, ServerArgs { config: Some(value), ..acc })
            }
        } else if either(arg, "--port"@, "-p"@) {
            if args.len() < 2 {
                Parsed::Fail(ArgError::Missing(Flag::Port))
            } else {
                match number_value(value@) {
                    Some(n) if n <= u16::MAX => server_args(
                        rest,
                        ServerArgs { port: n as u16, ..acc },
                    ),
                    _ => Parsed::Fail(ArgError::BadPort(value)),
                }
            }
        } else if either(arg, "--log-level"@, "-l"@) {
            if args.len() < 2 {
                Parsed::Fail(ArgError::Missing(Flag::LogLevel))
            } else {
                server_args(rest, ServerArgs { log_level: Some(value), ..acc })
            }
        } else if arg@ == "--logctl"@ {
            if args.len() < 2 {
                Parsed::Fail(ArgError::Missing(Flag::LogCtl))
            } else {
                server_args(rest, ServerArgs { log_ctl: Some(value), ..acc })
            }
        } else if arg@ == "--log-file"@ {
            if args.len() < 2 {
                Parsed::Fail(ArgError::Missing(Flag::LogFile))
            } else {
                server_args(rest, ServerArgs { log_file: Some(value), ..acc })
            }
        } else if either(arg, "--version"@, "-V"@) {
            Parsed::Version
        } else if either(arg, "--help"@, "-h"@) {
            Parsed::Help
        } else {
            Parsed::Fail(ArgError::Unknown(arg))
        }
    }
}

/// No arguments given.
pub open spec fn no_server_args() -> ServerArgs {
    ServerArgs { config: None, port: 0, log_level: None, log_ctl: None, log_file: None }
}

/// Parse `[--config PATH] [--port N] [--log-level LEVEL] [--logctl PATH]
/// [--log-file PATH]`.
pub fn parse_server_args(args: &Vec<String>) -> (r: Parsed<ServerArgs>)
    ensures
        r == server_args(args@, no_server_args()),
{
    let mut acc: ServerArgs = ServerArgs {
        config: None,
        port: 0,
        log_level: None,
        log_ctl: None,
        log_file: None,
    };
    let n: usize = args.len();
    let mut i: usize = 0;
    assert(args@.skip(0) =~= args@);
    while i < n
        invariant
            i <= n,
            n == args@.len(),
            server_args(args@.skip(i as int), acc) == server_args(args@, no_server_args()),
        decreases n - i,
    {
        let arg: &String = &args[i];
        let ghost here = args@.skip(i as int);
        assert(here[0] == args@[i as int]);
        let more: bool = n - i >= 2;
        proof {
            if more {
                assert(here[1] == args@[i + 1]);
                assert(here.skip(2) =~= args@.skip(i + 2));
            }
        }
        if is_either(arg, "--config", "-c") {
            if !more {
                return Parsed::Fail(ArgError::Missing(Flag::Config));
            }
            acc.config = Some(args[i + 1].clone());
        } else if is_either(arg, "--port", "-p") {
            if !more {
                return Parsed::Fail(ArgError::Missing(Flag::Port));
            }
            match parse_u16(args[i + 1].as_str()) {
                Some(p) => {
                    acc.port = p;
                },
                None => {
                    return Parsed::Fail(ArgError::BadPort(args[i + 1].clone()));
                },
            }
        } else if is_either(arg, "--log-level", "-l") {
            if !more {
                return Parsed::Fail(ArgError::Missing(Flag::LogLevel));
            }
            acc.log_level = Some(args[i + 1].clone());
        } else if same(arg.as_str(), "--logctl") {
            if !more {
                return Parsed::Fail(ArgError::Missing(Flag::LogCtl));
            }
            acc.log_ctl = Some(args[i + 1].clone());
        } else if same(arg.as_str(), "--log-file") {
            if !more {
                return Parsed::Fail(ArgError::Missing(Flag::LogFile));
            }
            acc.log_file = Some(args[i + 1].clone());
        } else if is_either(arg, "--version", "-V") {
            return Parsed::Version;
        } else if is_either(arg, "--help", "-h") {
            return Parsed::Help;
        } else {
            return Parsed::Fail(ArgError::Unknown(arg.clone()));
        }
        i += 2;
    }
    assert(args@.skip(i as int) =~= Seq::<String>::empty());
    Parsed::Run(acc)
}

/// The client's arguments while they are being read.
pub struct ClientDraft {
    pub addr: Option<String>,
    pub name: Option<String>,
    pub log_level: Option<String>,
    pub log_ctl: Option<String>,
    pub log_file: Option<String>,
}

/// The argument looks like a flag: it begins with a dash and is more than
/// that.
pub open spec fn flag_shaped(arg: Seq<char>) -> bool {
    "-"@.is_prefix_of(arg) && arg != "-"@
}

/// The client's arguments: `args` read from left to right on top of what
/// was read before. The first argument that is no flag is the address.
pub open spec fn client_args(args: Seq<String>, acc: ClientDraft) -> Parsed<ClientDraft>
    decreases args.len(),
{
    if args.len() == 0 {
        Parsed::Run(acc)
    } else {
        let arg = args[0];
        let value = args[1];
        let rest = args.skip(2);
        if either(arg, "--name"@, "-n"@) {
            if args.len() < 2 {
                Parsed::Fail(ArgError::Missing(Flag::Name))
            } else {
                client_args(rest, ClientDraft { name: Some(value), ..acc })
            }
        } else if either(arg, "--log-level"@, "-l"@) {
            if args.len() < 2 {
                Parsed::Fail(ArgError::Missing(Flag::LogLevel))
            } else {
                client_args(rest, ClientDraft { log_level: Some(value), ..acc })
            }
        } else if arg@ == "--logctl"@ {
            if args.len() < 2 {
                Parsed::Fail(ArgError::Missing(Flag::LogCtl))
            } else {
                client_args(rest, ClientDraft { log_ctl: Some(value), ..acc })
            }
        } else if arg@ == "--log-file"@ {
            if args.len() < 2 {
                Parsed::Fail(ArgError::Missing(Flag::LogFile))
            } else {
                client_args(rest, ClientDraft { log_file: Some(value), ..acc })
            }
        } else if either(arg, "--version"@, "-V"@) {
            Parsed::Version
        } else if either(arg, "--help"@, "-h"@) {
            Parsed::Help
        } else if either(arg, "--server"@, "--connect"@) && acc.addr is None {
            if args.len() < 2 {
                Parsed::Fail(ArgError::Missing(Flag::Server))
            } else {
                client_args(rest, ClientDraft { addr: Some(value), ..acc })
            }
        } else if flag_shaped(arg@) || acc.addr is Some {
            Parsed::Fail(ArgError::Unknown(arg))
        } else {
            client_args(args.skip(1), ClientDraft { addr: Some(arg), ..acc })
        }
    }
}

/// No arguments given.
pub open spec fn no_client_args() -> ClientDraft {
    ClientDraft { addr: None, name: None, log_level: None, log_ctl: None, log_file: None }
}

impl ClientArgs {
    /// The arguments are those of the draft; without an address it is
    /// empty.
    pub open spec fn completes(self, d: ClientDraft) -> bool {
        &&& self.name == d.name
        &&& self.log_level == d.log_level
        &&& self.log_ctl == d.log_ctl
        &&& self.log_file == d.log_file
        &&& match d.addr {
            Some(a) => self.server_addr == a,
            None => self.server_addr@ == Seq::<char>::empty(),
        }
    }
}

/// Parse `SERVER[:PORT] [--name NAME] [--log-level LEVEL] [--logctl PATH]
/// [--log-file PATH]`. `--server` and `--connect` are aliases for the
/// positional address.
pub fn parse_client_args(args: &Vec<String>) -> (r: Parsed<ClientArgs>)
    ensures
        match client_args(args@, no_client_args()) {
            Parsed::Run(d) => r matches Parsed::Run(a) && a.completes(d),
            Parsed::Version => r is Version,
            Parsed::Help => r is Help,
            Parsed::Fail(e) => r == Parsed::<ClientArgs>::Fail(e),
        },
{
    let mut acc: ClientDraft = ClientDraft {
        addr: None,
        name: None,
        log_level: None,
        log_ctl: None,
        log_file: None,
    };
    let n: usize = args.len();
    let mut i: usize = 0;
    assert(args@.skip(0) =~= args@);
    while i < n
        invariant
            i <= n,
            n == args@.len(),
            client_args(args@.skip(i as int), acc) == client_args(args@, no_client_args()),
        decreases n - i,
    {
        let arg: &String = &args[i];
        let ghost here = args@.skip(i as int);
        assert(here[0] == args@[i as int]);
        assert(here.skip(1) =~= args@.skip(i + 1));
        let more: bool = n - i >= 2;
        proof {
            if more {
                assert(here[1] == args@[i + 1]);
                assert(here.skip(2) =~= args@.skip(i + 2));
            }
        }
        if is_either(arg, "--name", "-n") {
            if !more {
                return Parsed::Fail(ArgError::Missing(Flag::Name));
            }
            acc.name = Some(args[i + 1].clone());
            i += 2;
        } else if is_either(arg, "--log-level", "-l") {
            if !more {
                return Parsed::Fail(ArgError::Missing(Flag::LogLevel));
            }
            acc.log_level = Some(args[i + 1].clone());
            i += 2;
        } else if same(arg.as_str(), "--logctl") {
            if !more {
                return Parsed::Fail(ArgError::Missing(Flag::LogCtl));
            }
            acc.log_ctl = Some(args[i + 1].clone());
            i += 2;
        } else if same(arg.as_str(), "--log-file") {
            if !more {
                return Parsed::Fail(ArgError::Missing(Flag::LogFile));
            }
            acc.log_file = Some(args[i + 1].clone());
            i += 2;
        } else if is_either(arg, "--version", "-V") {
            return Parsed::Version;
        } else if is_either(arg, "--help", "-h") {
            return Parsed::Help;
        } else if is_either(arg, "--server", "--connect") && acc.addr.is_none() {
            if !more {
                return Parsed::Fail(ArgError::Missing(Flag::Server));
            }
            acc.addr = Some(args[i + 1].clone());
            i += 2;
        } else if (starts_with(arg.as_str(), "-") && !same(arg.as_str(), "-"))
            || acc.addr.is_some() {
            return Parsed::Fail(ArgError::Unknown(arg.clone()));
        } else {
            acc.addr = Some(arg.clone());
            i += 1;
        }
    }
    assert(args@.skip(i as int) =~= Seq::<String>::empty());
    Parsed::Run(
        ClientArgs {
            server_addr: match acc.addr {
                Some(a) => a,
                None => String::new(),
            },
            name: acc.name,
            log_level: acc.log_level,
            log_ctl: acc.log_ctl,
            log_file: acc.log_file,
        },
    )
}

/// Normalize `host` or `host:port` to `host:port` (default port).
pub fn with_default_port(host: &str, default_port: u16) -> (r: String)
    ensures
        r@ == if host@.contains(':') {
            host@
        } else {
            host@ + ":"@ + decimal_text(default_port as nat)
        },
{
    if contains_char(host, ':') {
        host.to_owned()
    } else {
        let mut out: String = host.to_owned();
        out.append(":");
        out.append(decimal(default_port as u64).as_str());
        out
    }
}

/// The version banner: the name of the program, its version and its build
/// id on one line.
pub fn version_banner(bin: &str) -> (r: String)
    ensures
        r@ == bin@ + " "@ + PKG_VERSION@ + " (build "@ + BUILD_ID@ + ")"@,
{
    let mut out: String = bin.to_owned();
    out.append(" ");
    out.append(PKG_VERSION);
    out.append(" (build ");
    out.append(BUILD_ID);
    out.append(")");
    out
}

/// A command line without its args-file flags, and the last file named.
pub struct Staged {
    pub rest: Seq<String>,
    pub file: Option<Seq<char>>,
    /// The flag stands last, without its path.
    pub broken: bool,
}

/// The inline form of the args-file flag.
pub open spec fn inline_file(arg: Seq<char>) -> Option<Seq<char>> {
    let p = "--args-file="@;
    if p.is_prefix_of(arg) {
        Some(arg.skip(p.len() as int))
    } else {
        None
    }
}

/// `args` with every args-file flag taken out. Where several are given,
/// the last one counts.
pub open spec fn staged(args: Seq<String>) -> Staged
    decreases args.len(),
{
    if args.len() == 0 {
        Staged { rest: Seq::empty(), file: None, broken: false }
    } else if args[0]@ == "--args-file"@ {
        if args.len() < 2 {
            Staged { rest: Seq::empty(), file: None, broken: true }
        } else {
            let t = staged(args.skip(2));
            Staged {
                file: if t.file is Some {
                    t.file
                } else {
                    Some(args[1]@)
                },
                ..t
            }
        }
    } else {
        match inline_file(args[0]@) {
            Some(path) => {
                let t = staged(args.skip(1));
                Staged {
                    file: if t.file is Some {
                        t.file
                    } else {
                        Some(path)
                    },
                    ..t
                }
            },
            None => {
                let t = staged(args.skip(1));
                Staged { rest: seq![args[0]] + t.rest, ..t }
            },
        }
    }
}

/// Take the args-file flags out of a command line. Gives the remaining
/// arguments and the file named last, or the error of a flag without its
/// path.
pub fn split_args_file(args: &Vec<String>) -> (r: Result<(Vec<String>, Option<String>), ArgError>)
    ensures
        ({
            let t = staged(args@);
            match r {
                Err(e) => t.broken && e == ArgError::Missing(Flag::ArgsFile),
                Ok((rest, file)) => {
                    &&& !t.broken
                    &&& rest@ == t.rest
                    &&& match file {
                        Some(f) => t.file == Some(f@),
                        None => t.file is None,
                    }
                },
            }
        }),
{
    let n: usize = args.len();
    let mut rest: Vec<String> = Vec::new();
    let mut file: Option<String> = None;
    let mut i: usize = 0;
    let ghost all = staged(args@);
    proof {
        assert(args@.skip(0) =~= args@);
        assert(rest@ + all.rest =~= all.rest);
    }
    while i < n
        invariant
            i <= n,
            n == args@.len(),
            all == staged(args@),
            rest@ + staged(args@.skip(i as int)).rest == all.rest,
            staged(args@.skip(i as int)).broken == all.broken,
            all.file == (if staged(args@.skip(i as int)).file is Some {
                staged(args@.skip(i as int)).file
            } else {
                match file {
                    Some(f) => Some(f@),
                    None => None,
                }
            }),
        decreases n - i,
    {
        let ghost here = args@.skip(i as int);
        let arg: &String = &args[i];
        assert(here[0] == args@[i as int]);
        assert(here.skip(1) =~= args@.skip(i + 1));
        if same(arg.as_str(), "--args-file") {
            if n - i < 2 {
                return Err(ArgError::Missing(Flag::ArgsFile));
            }
            assert(here[1] == args@[i + 1]);
            assert(here.skip(2) =~= args@.skip(i + 2));
            file = Some(args[i + 1].clone());
            i += 2;
        } else if starts_with(arg.as_str(), "--args-file=") {
            let skip: usize = "--args-file=".unicode_len();
            let len: usize = arg.as_str().unicode_len();
            let path: String = arg.as_str().substring_char(skip, len).to_owned();
            assert(path@ =~= arg@.skip(skip as int));
            file = Some(path);
            i += 1;
        } else {
            let ghost before = rest@;
            rest.push(arg.clone());
            proof {
                let t = staged(args@.skip(i + 1));
                assert(rest@ + t.rest =~= before + (seq![args@[i as int]] + t.rest));
            }
            i += 1;
        }
    }
    assert(args@.skip(i as int) =~= Seq::<String>::empty());
    assert(rest@ + Seq::<String>::empty() =~= rest@);
    Ok((rest, file))
}

/// A line without its trailing carriage returns.
pub open spec fn without_returns(s: Seq<char>) -> Seq<char>
    decreases s.len(),
{
    if s.len() > 0 && s.last() == '\r' {
        without_returns(s.drop_last())
    } else {
        s
    }
}

/// [`without_returns`] as a string.
fn strip_returns(s: &str) -> (r: String)
    ensures
        r@ == without_returns(s@),
{
    let v: Vec<char> = crate::text::chars_of(s);
    let mut n: usize = v.len();
    assert(s@.take(n as int) =~= s@);
    while n > 0 && v[n - 1] == '\r'
        invariant
            n <= v@.len(),
            v@ == s@,
            without_returns(s@.take(n as int)) == without_returns(s@),
        decreases n,
    {
        assert(s@.take(n as int).drop_last() =~= s@.take(n - 1));
        assert(s@.take(n as int).last() == s@[n - 1]);
        n -= 1;
    }
    proof {
        if n > 0 {
            assert(s@.take(n as int).last() == s@[n - 1]);
        }
        assert(s@.take(n as int) =~= s@.subrange(0, n as int));
    }
    s.substring_char(0, n).to_owned()
}

/// The tokens of an args file: one per line, empty lines skipped.
pub open spec fn file_tokens(ls: Seq<Seq<char>>) -> Seq<Seq<char>>
    decreases ls.len(),
{
    if ls.len() == 0 {
        Seq::empty()
    } else {
        let t = without_returns(ls.last());
        if t.len() > 0 {
            file_tokens(ls.drop_last()).push(t)
        } else {
            file_tokens(ls.drop_last())
        }
    }
}

/// The full argument list: the tokens staged in the args file, then the
/// command line's own. The file holds one argument per line; empty lines
/// are skipped and there is no escaping.
pub fn merge_args(file: &str, args: Vec<String>) -> (r: Vec<String>)
    ensures
        texts(r@) == file_tokens(lines_text(file@)) + texts(args@),
{
    let ls: Vec<String> = lines(file);
    let mut out: Vec<String> = Vec::new();
    let mut i: usize = 0;
    let ghost all = texts(ls@);
    assert(all.take(0) =~= Seq::<Seq<char>>::empty());
    assert(texts(out@) =~= file_tokens(all.take(0)));
    while i < ls.len()
        invariant
            i <= ls@.len(),
            all == texts(ls@),
            texts(out@) == file_tokens(all.take(i as int)),
        decreases ls@.len() - i,
    {
        let ghost before = texts(out@);
        proof {
            let next = all.take(i + 1);
            assert(next.drop_last() =~= all.take(i as int));
            assert(next.last() == ls@[i as int]@);
        }
        let tok: String = strip_returns(ls[i].as_str());
        if !tok.as_str().is_empty() {
            out.push(tok);
            assert(texts(out@) =~= before.push(tok@));
        }
        i += 1;
    }
    assert(all.take(i as int) =~= all);
    let ghost tokens = texts(out@);
    let ghost own = args@;
    let mut args: Vec<String> = args;
    out.append(&mut args);
    assert(texts(out@) =~= tokens + texts(own));
    out
}

} // verus!
