//! The client process between sessions: when it connects again, when it
//! waits, when it stops, and what its state file says meanwhile.
use vstd::prelude::*;
use vstd::string::*;

use crate::client::dispatch::SessionEnd;
use crate::client_state::{
    refused_text, state_text, write_client_state, write_client_state_connected,
    write_client_state_refused, write_client_state_stopped,
};

verus! {

/// How long (ns) to wait between connection attempts. The server may not
/// be up yet, or may restart.
pub const RETRY_DELAY: u64 = 3_000_000_000;

/// What came of a round of the connection loop.
#[derive(Debug, PartialEq)]
pub enum Outcome {
    /// A protected desktop is shown: connecting would run into a wall.
    SecureDesktop,
    /// The platform could not be set up.
    NoPlatform,
    /// The connection failed.
    ConnectFailed,
    /// The server refused the connection as a matter of policy.
    Refused { reason: String },
    /// A session took place and ended.
    Ended(SessionEnd),
    /// A session took place and failed.
    Failed,
}

/// What the state file says.
#[derive(Debug, PartialEq)]
pub enum Status {
    Connecting,
    /// Connected, to the server with this machine id.
    Connected { server_id: String },
    Disconnected,
    /// Disconnected because the server asked for it.
    Stopped,
    /// Refused, for this reason.
    Refused { reason: String },
}

/// What the loop does next.
#[derive(Debug, PartialEq)]
pub struct Next {
    /// Write this to the state file.
    pub status: Option<Status>,
    /// Say what happened in the log.
    pub warn: bool,
    /// Wait [`RETRY_DELAY`] before the next round.
    pub wait: bool,
    /// Leave the loop: the process ends.
    pub stop: bool,
}

/// What was already said: problems are told once per state change, so
/// that a server that is down does not flood the log.
#[derive(Debug, Clone, Copy, PartialEq, Eq, Structural)]
pub struct Retry {
    pub warned: bool,
    pub prompt_warned: bool,
}

/// A session took place in the round.
pub open spec fn connected(o: Outcome) -> bool {
    o is Ended || o is Failed
}

impl Retry {
    /// What was said after a round.
    pub open spec fn said(self, o: Outcome) -> Retry {
        Retry {
            prompt_warned: o is SecureDesktop,
            warned: if connected(o) {
                false
            } else if o is NoPlatform || o is ConnectFailed {
                true
            } else {
                self.warned
            },
        }
    }

    /// What a round leads to.
    pub open spec fn next(self, o: Outcome) -> Next {
        match o {
            Outcome::SecureDesktop => Next {
                status: None,
                warn: !self.prompt_warned,
                wait: true,
                stop: false,
            },
            Outcome::NoPlatform => Next {
                status: None,
                warn: !self.warned,
                wait: true,
                stop: false,
            },
            Outcome::ConnectFailed => Next {
                status: Some(Status::Disconnected),
                warn: !self.warned,
                wait: true,
                stop: false,
            },
            Outcome::Refused { reason } => Next {
                status: Some(Status::Refused { reason }),
                warn: true,
                wait: false,
                stop: true,
            },
            Outcome::Ended(SessionEnd::Disconnected) => Next {
                status: Some(Status::Stopped),
                warn: false,
                wait: false,
                stop: true,
            },
            Outcome::Ended(SessionEnd::Reconnect) => Next {
                status: None,
                warn: false,
                wait: false,
                stop: false,
            },
            Outcome::Ended(SessionEnd::LinkClosed) => Next {
                status: Some(Status::Disconnected),
                warn: false,
                wait: true,
                stop: false,
            },
            Outcome::Failed => Next {
                status: Some(Status::Disconnected),
                warn: true,
                wait: true,
                stop: false,
            },
        }
    }

    /// Nothing was said yet.
    pub fn new() -> (r: Self)
        ensures
            r == (Retry { warned: false, prompt_warned: false }),
    {
        Retry { warned: false, prompt_warned: false }
    }

    /// The next step after a round. The server's command to disconnect,
    /// and a refusal, end the process: retrying cannot change the answer.
    /// A requested reconnect is immediate; everything else waits.
    pub fn after(&mut self, o: Outcome) -> (r: Next)
        ensures
            *final(self) == old(self).said(o),
            r == old(self).next(o),
    {
        let warned: bool = self.warned;
        let prompt_warned: bool = self.prompt_warned;
        self.prompt_warned = false;
        match o {
            Outcome::SecureDesktop => {
                self.prompt_warned = true;
                Next { status: None, warn: !prompt_warned, wait: true, stop: false }
            },
            Outcome::NoPlatform => {
                self.warned = true;
                Next { status: None, warn: !warned, wait: true, stop: false }
            },
            Outcome::ConnectFailed => {
                self.warned = true;
                Next {
                    status: Some(Status::Disconnected),
                    warn: !warned,
                    wait: true,
                    stop: false,
                }
            },
            Outcome::Refused { reason } => Next {
                status: Some(Status::Refused { reason }),
                warn: true,
                wait: false,
                stop: true,
            },
            Outcome::Ended(end) => {
                self.warned = false;
                match end {
                    SessionEnd::Disconnected => Next {
                        status: Some(Status::Stopped),
                        warn: false,
                        wait: false,
                        stop: true,
                    },
                    SessionEnd::Reconnect => Next {
                        status: None,
                        warn: false,
                        wait: false,
                        stop: false,
                    },
                    SessionEnd::LinkClosed => Next {
                        status: Some(Status::Disconnected),
                        warn: false,
                        wait: true,
                        stop: false,
                    },
                }
            },
            Outcome::Failed => {
                self.warned = false;
                Next { status: Some(Status::Disconnected), warn: true, wait: true, stop: false }
            },
        }
    }
}

/// The text of the state file.
pub open spec fn status_text(s: Status, server: Seq<char>) -> Seq<char> {
    match s {
        Status::Connecting => state_text("connecting"@, server, Seq::empty(), false),
        Status::Connected { server_id } => state_text("connected"@, server, server_id@, false),
        Status::Disconnected => state_text("disconnected"@, server, Seq::empty(), false),
        Status::Stopped => state_text("disconnected"@, server, Seq::empty(), true),
        Status::Refused { reason } => refused_text(server, reason@),
    }
}

impl Status {
    /// The text of the state file, for a client of this server.
    pub fn body(&self, server: &str) -> (r: String)
        ensures
            r@ == status_text(*self, server@),
    {
        match self {
            Status::Connecting => write_client_state("connecting", server),
            Status::Connected { server_id } => write_client_state_connected(
                server,
                server_id.as_str(),
            ),
            Status::Disconnected => write_client_state("disconnected", server),
            Status::Stopped => write_client_state_stopped(server),
            Status::Refused { reason } => write_client_state_refused(server, reason.as_str()),
        }
    }
}

// ---------------------------------------------------------------------
// Laws
// ---------------------------------------------------------------------

/// A server that is down is told once: of two failed attempts in a row,
/// the second says nothing.
pub proof fn a_failure_is_told_once(r: Retry, a: Outcome, b: Outcome)
    requires
        a is ConnectFailed || a is NoPlatform,
        b is ConnectFailed || b is NoPlatform,
    ensures
        !r.said(a).next(b).warn,
{
}

/// Only the server's word ends the process: a command to disconnect, or a
/// refusal. A client keeps trying after everything else.
pub proof fn only_the_server_stops_a_client(r: Retry, o: Outcome)
    ensures
        r.next(o).stop <==> (o is Refused || o == Outcome::Ended(SessionEnd::Disconnected)),
{
}

/// Every end of the process leaves a final state that tells why: a refusal
/// its reason, and a requested stop its marker.
pub proof fn a_stop_is_on_record(r: Retry, o: Outcome)
    requires
        r.next(o).stop,
    ensures
        r.next(o).status is Some,
        r.next(o).status->0 is Stopped || r.next(o).status->0 is Refused,
{
}

} // verus!
