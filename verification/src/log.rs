//! Leveled log lines.
//!
//! Each line is `HH:MM:SS LEVEL component: message`. A line is written
//! where its level is enabled; the level comes from the operator.
use crate::text::{
    ascii_lower, debug_text, decimal, digit_text, lowered, quoted, same, trim, trimmed,
};
use crate::trust::held;
use vstd::prelude::*;
use vstd::string::*;

verus! {

/// Severity of a log line. The order is from the gravest to the most
/// talkative.
#[derive(Debug, Clone, Copy, PartialEq, Eq, PartialOrd, Ord, Structural)]
pub enum Level {
    Error,
    Warn,
    Info,
    Debug,
}

/// The position of a level in the order, the gravest first.
pub open spec fn rank(l: Level) -> int {
    match l {
        Level::Error => 0,
        Level::Warn => 1,
        Level::Info => 2,
        Level::Debug => 3,
    }
}

/// A level's name as it is compared: without the white space around it,
/// in lower case.
pub open spec fn level_name(s: Seq<char>) -> Seq<char> {
    trimmed(s).map_values(|c: char| ascii_lower(c))
}

/// The level with this name.
pub open spec fn named_level(name: Seq<char>) -> Option<Level> {
    if name == "error"@ {
        Some(Level::Error)
    } else if name == "warn"@ || name == "warning"@ {
        Some(Level::Warn)
    } else if name == "info"@ {
        Some(Level::Info)
    } else if name == "debug"@ {
        Some(Level::Debug)
    } else {
        None
    }
}

/// The complaint about a level name, given in quotes.
pub fn unknown_level(quoted_name: &str) -> (r: String)
    ensures
        r@ == "unknown log level "@ + quoted_name@ + " (use error, warn, info or debug)"@,
{
    let mut r: String = "unknown log level ".to_owned();
    r.append(quoted_name);
    r.append(" (use error, warn, info or debug)");
    r
}

impl Level {
    /// The label of the level in a log line.
    pub fn label(self) -> (r: &'static str)
        ensures
            r@ == level_label(self),
    {
        match self {
            Level::Error => "ERROR",
            Level::Warn => "WARN",
            Level::Info => "INFO",
            Level::Debug => "DEBUG",
        }
    }

    /// Parse a level name, in any case. Unknown names are an error, so
    /// that a typo surfaces instead of silently defaulting.
    pub fn parse(s: &str) -> (r: Result<Level, String>)
        ensures
            match r {
                Ok(l) => named_level(level_name(s@)) == Some(l),
                Err(e) => {
                    &&& named_level(level_name(s@)) is None
                    &&& e@ == "unknown log level "@ + debug_text(level_name(s@))
                        + " (use error, warn, info or debug)"@
                },
            },
    {
        let t: String = trim(s);
        let name: String = lowered(t.as_str());
        if same(name.as_str(), "error") {
            Ok(Level::Error)
        } else if same(name.as_str(), "warn") || same(name.as_str(), "warning") {
            Ok(Level::Warn)
        } else if same(name.as_str(), "info") {
            Ok(Level::Info)
        } else if same(name.as_str(), "debug") {
            Ok(Level::Debug)
        } else {
            Err(unknown_level(quoted(name.as_str()).as_str()))
        }
    }

    /// Is a line of this level written while `limit` is in force?
    pub fn is_enabled(self, limit: Level) -> (r: bool)
        ensures
            r == (rank(self) <= rank(limit)),
    {
        match limit {
            Level::Error => self == Level::Error,
            Level::Warn => self == Level::Error || self == Level::Warn,
            Level::Info => self != Level::Debug,
            Level::Debug => true,
        }
    }
}

/// The label of a level in a log line.
pub open spec fn level_label(l: Level) -> Seq<char> {
    match l {
        Level::Error => "ERROR"@,
        Level::Warn => "WARN"@,
        Level::Info => "INFO"@,
        Level::Debug => "DEBUG"@,
    }
}

/// The level in force and the name of the component that logs.
#[derive(Debug)]
pub struct Logger {
    pub(crate) limit: Level,
    pub(crate) component: Option<String>,
}

impl Logger {
    /// The level in force.
    pub closed spec fn limit_of(self) -> Level {
        self.limit
    }

    /// The component's name, once it was set.
    pub closed spec fn component_of(self) -> Option<Seq<char>> {
        held(self.component)
    }

    /// The logger of a process that has not set one up: level `info`, no
    /// component yet.
    pub fn new() -> (r: Logger)
        ensures
            r.limit_of() == Level::Info,
            r.component_of() is None,
    {
        Logger { limit: Level::Info, component: None }
    }
}

/// The name under which a process logs, given the file name of its
/// program where that is known.
pub open spec fn component_name(program: Option<Seq<char>>) -> Seq<char> {
    match program {
        Some(p) => p,
        None => "kvmshare"@,
    }
}

/// Set the level and the component. Safe to call again: a later level
/// wins, the component is set once. A bad level name is an error and
/// changes nothing.
pub fn init(log: &mut Logger, level: &str, program: &Option<String>) -> (r: Result<(), String>)
    ensures
        match named_level(level_name(level@)) {
            Some(l) => {
                &&& r is Ok
                &&& final(log).limit_of() == l
                &&& final(log).component_of() == (if old(log).component_of() is Some {
                    old(log).component_of()
                } else {
                    Some(component_name(held(*program)))
                })
            },
            None => {
                &&& r matches Err(e)
                &&& e@ == "unknown log level "@ + debug_text(level_name(level@))
                    + " (use error, warn, info or debug)"@
                &&& final(log).limit_of() == old(log).limit_of()
                &&& final(log).component_of() == old(log).component_of()
            },
        },
{
    match Level::parse(level) {
        Ok(l) => {
            log.limit = l;
            if log.component.is_none() {
                let name: String = match program {
                    Some(p) => p.clone(),
                    None => "kvmshare".to_owned(),
                };
                log.component = Some(name);
            }
            Ok(())
        },
        Err(e) => Err(e),
    }
}

/// The level in force.
pub fn level(log: &Logger) -> (r: Level)
    ensures
        r == log.limit_of(),
{
    log.limit
}

/// The level name that an operator asked for, or `info` when unset.
pub fn level_from_env_or_default(env: &Option<String>) -> (r: String)
    ensures
        r@ == (match held(*env) {
            Some(v) => v,
            None => "info"@,
        }),
{
    match env {
        Some(v) => v.clone(),
        None => "info".to_owned(),
    }
}

/// A number below one hundred in two digits.
pub open spec fn two_digits(n: nat) -> Seq<char> {
    digit_text(n / 10) + digit_text(n % 10)
}

/// The time of day, in hours, minutes and seconds, of a count of seconds
/// since some midnight.
pub open spec fn time_text(secs: nat) -> Seq<char> {
    two_digits(secs / 3600 % 24) + ":"@ + two_digits(secs / 60 % 60) + ":"@ + two_digits(secs % 60)
}

/// A whole log line, without its line feed.
pub open spec fn line_text(
    secs: nat,
    l: Level,
    component: Option<Seq<char>>,
    message: Seq<char>,
) -> Seq<char> {
    time_text(secs) + " "@ + level_label(l) + " "@ + component_name(component) + ": "@ + message
}

fn append_two_digits(out: &mut String, n: u64)
    requires
        n < 100,
    ensures
        final(out)@ == old(out)@ + two_digits(n as nat),
{
    let tens: String = decimal(n / 10);
    let ones: String = decimal(n % 10);
    out.append(tens.as_str());
    out.append(ones.as_str());
    assert(out@ =~= old(out)@ + two_digits(n as nat));
}

/// The line to write for a message of level `lvl` at `secs` seconds since
/// the epoch; nothing where the level is not enabled.
pub fn write_line(log: &Logger, lvl: Level, secs: u64, message: &str) -> (r: Option<String>)
    ensures
        match r {
            Some(line) => {
                &&& rank(lvl) <= rank(log.limit_of())
                &&& line@ == line_text(secs as nat, lvl, log.component_of(), message@)
            },
            None => rank(lvl) > rank(log.limit_of()),
        },
{
    if !lvl.is_enabled(log.limit) {
        return None;
    }
    let mut out: String = String::new();
    append_two_digits(&mut out, secs / 3600 % 24);
    out.append(":");
    append_two_digits(&mut out, secs / 60 % 60);
    out.append(":");
    append_two_digits(&mut out, secs % 60);
    assert(out@ =~= time_text(secs as nat));
    out.append(" ");
    out.append(lvl.label());
    out.append(" ");
    match &log.component {
        Some(c) => {
            out.append(c.as_str());
        },
        None => {
            out.append("kvmshare");
        },
    }
    out.append(": ");
    out.append(message);
    Some(out)
}

// ---------------------------------------------------------------------
// Laws
// ---------------------------------------------------------------------

/// Every level reads back from its own label: the name is compared in
/// lower case, so the label of a written line names its level.
pub proof fn labels_read_back(l: Level)
    ensures
        named_level(level_label(l).map_values(|c: char| ascii_lower(c))) == Some(l),
{
    let f = |c: char| ascii_lower(c);
    reveal_strlit("ERROR");
    reveal_strlit("WARN");
    reveal_strlit("INFO");
    reveal_strlit("DEBUG");
    reveal_strlit("error");
    reveal_strlit("warn");
    reveal_strlit("warning");
    reveal_strlit("info");
    reveal_strlit("debug");
    let t = level_label(l).map_values(f);
    assert("error"@[0] == 'e' && "warn"@[0] == 'w' && "info"@[0] == 'i' && "debug"@[0] == 'd'
        && "warning"@[0] == 'w');
    match l {
        Level::Error => {
            assert(t =~= "error"@);
        },
        Level::Warn => {
            assert(t =~= "warn"@);
        },
        Level::Info => {
            assert(t =~= "info"@);
        },
        Level::Debug => {
            assert(t =~= "debug"@);
        },
    }
}

} // verus!
