//! The server's answer to a client's greeting.
use vstd::prelude::*;
use vstd::string::*;

use crate::client::retry::Outcome;
use crate::layout::Layout;
use crate::protocol::{ErrorCode, Message};
use crate::server::policy::{barred, Policy};
use crate::text::{decimal, decimal_text};

verus! {

/// Why a connection did not come about.
#[derive(Debug, PartialEq)]
pub enum ConnectError {
    /// The server speaks another version.
    Version { server: u16, client: u16 },
    /// The server refused the client.
    Rejected { code: u16, text: String },
    /// The server answered with something else.
    Unexpected,
    /// This client must refuse the server.
    Revoked { server_id: String },
}

/// A connection that came about.
#[derive(Debug, PartialEq)]
pub struct Welcomed {
    /// The id this machine has in the server's layout.
    pub own_id: u8,
    /// The server's machine id.
    pub server_id: String,
    /// The layout as the server sent it.
    pub layout: Layout,
}

/// What the first message of a server means to a client that speaks
/// `version` and must refuse the servers that `policy` revokes.
pub open spec fn answered(first: Option<Message>, version: u16, policy: Policy) -> Result<
    Welcomed,
    ConnectError,
> {
    match first {
        Some(Message::Welcome { server_version, server_id, layout, own_screen_id }) => {
            if server_version != version {
                Err(ConnectError::Version { server: server_version, client: version })
            } else if barred(policy.revoked_ids@, server_id@) {
                Err(ConnectError::Revoked { server_id })
            } else {
                Ok(Welcomed { own_id: own_screen_id, server_id, layout })
            }
        },
        Some(Message::Error { code, text }) => Err(ConnectError::Rejected { code, text }),
        _ => Err(ConnectError::Unexpected),
    }
}

/// Reads the first message of a server (`None` where the link closed or
/// stayed silent), for a client that speaks `version` and must refuse the
/// servers that `policy` revokes.
pub fn read_answer(first: Option<Message>, version: u16, policy: &Policy) -> (r: Result<
    Welcomed,
    ConnectError,
>)
    ensures
        match first {
            Some(Message::Welcome { server_version, server_id, layout, own_screen_id }) => {
                if server_version != version {
                    r == Err::<Welcomed, ConnectError>(
                        ConnectError::Version { server: server_version, client: version },
                    )
                } else if barred(policy.revoked_ids@, server_id@) {
                    r == Err::<Welcomed, ConnectError>(ConnectError::Revoked { server_id })
                } else {
                    r == Ok::<Welcomed, ConnectError>(
                        Welcomed { own_id: own_screen_id, server_id, layout },
                    )
                }
            },
            Some(Message::Error { code, text }) => r == Err::<Welcomed, ConnectError>(
                ConnectError::Rejected { code, text },
            ),
            _ => r == Err::<Welcomed, ConnectError>(ConnectError::Unexpected),
        },
        r == answered(first, version, *policy),
{
    match first {
        Some(Message::Welcome { server_version, server_id, layout, own_screen_id }) => {
            if server_version != version {
                Err(ConnectError::Version { server: server_version, client: version })
            } else if policy.is_revoked(server_id.as_str()) {
                Err(ConnectError::Revoked { server_id })
            } else {
                Ok(Welcomed { own_id: own_screen_id, server_id, layout })
            }
        },
        Some(Message::Error { code, text }) => Err(ConnectError::Rejected { code, text }),
        _ => Err(ConnectError::Unexpected),
    }
}

impl ConnectError {
    /// The error in words; `shown` is how an unexpected answer is shown.
    pub fn message(&self, shown: &str) -> (r: String)
        ensures
            r@ == (match *self {
                ConnectError::Version { server, client } => "server speaks v"@ + decimal_text(
                    server as nat,
                ) + ", client speaks v"@ + decimal_text(client as nat),
                ConnectError::Rejected { code, text } => "server rejected the connection ("@
                    + decimal_text(code as nat) + "): "@ + text@,
                ConnectError::Unexpected => "unexpected first message: "@ + shown@,
                ConnectError::Revoked { server_id } => "server "@ + server_id@
                    + " is revoked on this machine"@,
            }),
    {
        match self {
            ConnectError::Version { server, client } => {
                let mut r: String = "server speaks v".to_owned();
                r.append(decimal(*server as u64).as_str());
                r.append(", client speaks v");
                r.append(decimal(*client as u64).as_str());
                r
            },
            ConnectError::Rejected { code, text } => {
                let mut r: String = "server rejected the connection (".to_owned();
                r.append(decimal(*code as u64).as_str());
                r.append("): ");
                r.append(text.as_str());
                r
            },
            ConnectError::Unexpected => {
                let mut r: String = "unexpected first message: ".to_owned();
                r.append(shown);
                r
            },
            ConnectError::Revoked { server_id } => {
                let mut r: String = "server ".to_owned();
                r.append(server_id.as_str());
                r.append(" is revoked on this machine");
                r
            },
        }
    }
}

/// The refusal is a policy's: asking again cannot change it.
pub open spec fn is_policy(code: ErrorCode) -> bool {
    code is Revoked || code is NotLocal || code is NotAllowed
}

impl ConnectError {
    /// The round of the failed connection ends in `o`, where `answer` is
    /// what the server's error code stands for.
    pub open spec fn ends_in(self, answer: Option<ErrorCode>, o: Outcome) -> bool {
        match self {
            ConnectError::Rejected { code, text } => if answer matches Some(a) && is_policy(a) {
                o == (Outcome::Refused { reason: text })
            } else {
                o is ConnectFailed
            },
            ConnectError::Revoked { server_id } => {
                &&& o matches Outcome::Refused { reason }
                &&& reason@ == "server "@ + server_id@ + " is revoked on this machine"@
            },
            _ => o is ConnectFailed,
        }
    }

    /// How the round of a failed connection ends, where `answer` is what
    /// the server's error code stands for. A refusal by either side's
    /// policy is final; everything else is worth another attempt.
    pub fn outcome(self, answer: Option<ErrorCode>) -> (r: Outcome)
        ensures
            match self {
                ConnectError::Rejected { code, text } => if answer matches Some(a) && is_policy(a) {
                    r == (Outcome::Refused { reason: text })
                } else {
                    r is ConnectFailed
                },
                ConnectError::Revoked { server_id } => {
                    &&& r matches Outcome::Refused { reason }
                    &&& reason@ == "server "@ + server_id@ + " is revoked on this machine"@
                },
                _ => r is ConnectFailed,
            },
            self.ends_in(answer, r),
    {
        let refused: bool = match answer {
            Some(ErrorCode::Revoked) | Some(ErrorCode::NotLocal) | Some(ErrorCode::NotAllowed) => true,
            _ => false,
        };
        match self {
            ConnectError::Rejected { code: _, text } => if refused {
                Outcome::Refused { reason: text }
            } else {
                Outcome::ConnectFailed
            },
            ConnectError::Revoked { server_id } => {
                let e: ConnectError = ConnectError::Revoked { server_id };
                Outcome::Refused { reason: e.message("") }
            },
            _ => Outcome::ConnectFailed,
        }
    }
}

} // verus!
