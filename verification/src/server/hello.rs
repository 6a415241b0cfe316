//! The handshake: who is let in, and what a refused peer is told.
use vstd::prelude::*;
use vstd::string::*;

use crate::layout::first_where;
use crate::protocol::{ErrorCode, Screen, ScreenInfo};
use crate::server::net::{is_local_ip, private_address, PeerIp};
use crate::server::policy::{barred, listed, Policy};
use crate::session::Session;
use crate::text::{decimal, decimal_text};

verus! {

/// The protocol versions of this build: the one it speaks and the range
/// it accepts.
#[derive(Debug, Clone, Copy, PartialEq, Eq, Structural)]
pub struct Versions {
    pub current: u16,
    pub min: u16,
    pub max: u16,
}

/// What a client says of itself.
#[derive(Debug, PartialEq)]
pub struct Hello {
    pub version: u16,
    /// The client's stable machine id.
    pub id: String,
    /// The client's screen name.
    pub name: String,
    pub info: ScreenInfo,
}

/// What arrives first on a new connection.
#[derive(Debug, PartialEq)]
pub enum First {
    Hello(Hello),
    /// Some other message.
    Other,
    /// Nothing, or the end of the stream.
    Closed,
}

/// Where a connection comes from: the address, and how it is written.
#[derive(Debug, PartialEq)]
pub struct Peer {
    pub ip: PeerIp,
    pub text: String,
}

/// A refusal: what the peer is told, if anything, and what is logged.
#[derive(Debug, PartialEq)]
pub struct Refusal {
    pub reply: Option<(ErrorCode, String)>,
    pub reason: String,
}

/// The outcome of the handshake's checks, in the order in which they are
/// made.
pub enum Verdict {
    NotHello,
    Closed,
    VersionMismatch,
    Revoked,
    NotLocal,
    NotAllowed,
    Pass,
}

/// The layout has a client screen with this name.
pub open spec fn named(layout: Seq<Screen>, name: Seq<char>) -> bool {
    first_where(layout, |e: Screen| e.id != 0 && e.name@ == name) is Some
}

/// The version is in the accepted range.
pub open spec fn speaks(v: Versions, version: u16) -> bool {
    v.min <= version <= v.max
}

/// The handshake's checks. Revocation is asked before the network, the
/// layout and the trusted ids.
pub open spec fn judge(
    first: First,
    v: Versions,
    policy: Policy,
    layout: Seq<Screen>,
    ip: PeerIp,
) -> Verdict {
    match first {
        First::Other => Verdict::NotHello,
        First::Closed => Verdict::Closed,
        First::Hello(h) => if !speaks(v, h.version) {
            Verdict::VersionMismatch
        } else if barred(policy.revoked_ids@, h.id@) {
            Verdict::Revoked
        } else if policy.local_only && !private_address(ip) {
            Verdict::NotLocal
        } else if policy.allowlist && !named(layout, h.name@) && !listed(
            policy.trusted_ids@,
            h.id@,
        ) {
            Verdict::NotAllowed
        } else {
            Verdict::Pass
        },
    }
}

/// What a refused peer is told: an error code and its text.
pub open spec fn told(
    verdict: Verdict,
    v: Versions,
    version: u16,
    name: Seq<char>,
    peer: Seq<char>,
) -> Option<(ErrorCode, Seq<char>)> {
    match verdict {
        Verdict::VersionMismatch => Some(
            (
                ErrorCode::VersionMismatch,
                "this server speaks protocol v"@ + decimal_text(v.current as nat) + " (accepts v"@
                    + decimal_text(v.min as nat) + "–v"@ + decimal_text(v.max as nat)
                    + ") and the client speaks v"@ + decimal_text(version as nat)
                    + " — update the older machine"@,
            ),
        ),
        Verdict::Revoked => Some(
            (
                ErrorCode::Revoked,
                "this machine's id is revoked on this server — ask the server's operator to re-trust it"@,
            ),
        ),
        Verdict::NotLocal => Some(
            (
                ErrorCode::NotLocal,
                "connection from "@ + peer + " refused — only local-network peers are accepted"@,
            ),
        ),
        Verdict::NotAllowed => Some(
            (
                ErrorCode::NotAllowed,
                "\""@ + name
                    + "\" is not in this server's layout and its machine id is not trusted — add it to the layout or trust its id to connect"@,
            ),
        ),
        _ => None,
    }
}

/// What is logged of a refusal.
pub open spec fn logged(
    verdict: Verdict,
    v: Versions,
    version: u16,
    id: Seq<char>,
    name: Seq<char>,
    peer: Seq<char>,
) -> Seq<char> {
    match verdict {
        Verdict::NotHello => "expected hello"@,
        Verdict::Closed => "client closed before hello"@,
        Verdict::VersionMismatch => "client refused: protocol version mismatch (server v"@
            + decimal_text(v.current as nat) + ", client v"@ + decimal_text(version as nat) + ")"@,
        Verdict::Revoked => "client "@ + name + " ("@ + id + ") refused: machine id is revoked"@,
        Verdict::NotLocal => "client "@ + peer + " is not on the local network"@,
        Verdict::NotAllowed => "client "@ + name + " ("@ + id
            + ") refused: not in the layout and not trusted"@,
        Verdict::Pass => Seq::empty(),
    }
}

impl Refusal {
    /// The refusal says this.
    pub open spec fn says(self, reply: Option<(ErrorCode, Seq<char>)>, reason: Seq<char>) -> bool {
        &&& self.reason@ == reason
        &&& match reply {
            None => self.reply is None,
            Some((code, text)) => self.reply matches Some((c, t)) && c == code && t@ == text,
        }
    }
}

fn plain(reason: &str) -> (r: Refusal)
    ensures
        r.says(None, reason@),
{
    Refusal { reply: None, reason: reason.to_owned() }
}

fn version_refusal(v: Versions, version: u16) -> (r: Refusal)
    ensures
        forall|id: Seq<char>, name: Seq<char>, peer: Seq<char>|
            r.says(
                #[trigger] told(Verdict::VersionMismatch, v, version, name, peer),
                #[trigger] logged(Verdict::VersionMismatch, v, version, id, name, peer),
            ),
{
    let current: String = decimal(v.current as u64);
    let theirs: String = decimal(version as u64);
    let mut text: String = "this server speaks protocol v".to_owned();
    text.append(current.as_str());
    text.append(" (accepts v");
    text.append(decimal(v.min as u64).as_str());
    text.append("–v");
    text.append(decimal(v.max as u64).as_str());
    text.append(") and the client speaks v");
    text.append(theirs.as_str());
    text.append(" — update the older machine");
    let mut reason: String = "client refused: protocol version mismatch (server v".to_owned();
    reason.append(current.as_str());
    reason.append(", client v");
    reason.append(theirs.as_str());
    reason.append(")");
    Refusal { reply: Some((ErrorCode::VersionMismatch, text)), reason }
}

fn revoked_refusal(id: &str, name: &str) -> (r: Refusal)
    ensures
        forall|v: Versions, version: u16, peer: Seq<char>|
            r.says(
                #[trigger] told(Verdict::Revoked, v, version, name@, peer),
                #[trigger] logged(Verdict::Revoked, v, version, id@, name@, peer),
            ),
{
    let text: String =
        "this machine's id is revoked on this server — ask the server's operator to re-trust it".to_owned();
    let mut reason: String = "client ".to_owned();
    reason.append(name);
    reason.append(" (");
    reason.append(id);
    reason.append(") refused: machine id is revoked");
    Refusal { reply: Some((ErrorCode::Revoked, text)), reason }
}

fn not_local_refusal(peer: &str) -> (r: Refusal)
    ensures
        forall|v: Versions, version: u16, id: Seq<char>, name: Seq<char>|
            r.says(
                #[trigger] told(Verdict::NotLocal, v, version, name, peer@),
                #[trigger] logged(Verdict::NotLocal, v, version, id, name, peer@),
            ),
{
    let mut text: String = "connection from ".to_owned();
    text.append(peer);
    text.append(" refused — only local-network peers are accepted");
    let mut reason: String = "client ".to_owned();
    reason.append(peer);
    reason.append(" is not on the local network");
    Refusal { reply: Some((ErrorCode::NotLocal, text)), reason }
}

fn not_allowed_refusal(id: &str, name: &str) -> (r: Refusal)
    ensures
        forall|v: Versions, version: u16, peer: Seq<char>|
            r.says(
                #[trigger] told(Verdict::NotAllowed, v, version, name@, peer),
                #[trigger] logged(Verdict::NotAllowed, v, version, id@, name@, peer),
            ),
{
    let mut text: String = "\"".to_owned();
    text.append(name);
    text.append(
        "\" is not in this server's layout and its machine id is not trusted — add it to the layout or trust its id to connect",
    );
    let mut reason: String = "client ".to_owned();
    reason.append(name);
    reason.append(" (");
    reason.append(id);
    reason.append(") refused: not in the layout and not trusted");
    Refusal { reply: Some((ErrorCode::NotAllowed, text)), reason }
}

/// The handshake: expect a hello with an accepted protocol version, then
/// apply the connection policy (revoked ids, local-only, allowlist and
/// trusted ids). Gives the hello of a peer that passes.
pub fn exchange_hello(
    first: First,
    versions: Versions,
    policy: &Policy,
    session: &Session,
    peer: &Peer,
) -> (r: Result<Hello, Refusal>)
    ensures
        ({
            let verdict = judge(first, versions, *policy, session@.layout, peer.ip);
            match r {
                Ok(h) => verdict is Pass && first == First::Hello(h),
                Err(f) => verdict !is Pass && match first {
                    First::Hello(h) => f.says(
                        told(verdict, versions, h.version, h.name@, peer.text@),
                        logged(verdict, versions, h.version, h.id@, h.name@, peer.text@),
                    ),
                    First::Other => f.says(None, "expected hello"@),
                    First::Closed => f.says(None, "client closed before hello"@),
                },
            }
        }),
{
    let h: Hello = match first {
        First::Hello(h) => h,
        First::Other => {
            return Err(plain("expected hello"));
        },
        First::Closed => {
            return Err(plain("client closed before hello"));
        },
    };
    if !(versions.min <= h.version && h.version <= versions.max) {
        return Err(version_refusal(versions, h.version));
    }
    if policy.is_revoked(h.id.as_str()) {
        return Err(revoked_refusal(h.id.as_str(), h.name.as_str()));
    }
    if policy.local_only && !is_local_ip(peer.ip) {
        return Err(not_local_refusal(peer.text.as_str()));
    }
    if policy.allowlist {
        let name_is_known: bool = session.assign_screen_id(h.name.as_str()).is_some();
        if !name_is_known && !policy.is_trusted(h.id.as_str()) {
            return Err(not_allowed_refusal(h.id.as_str(), h.name.as_str()));
        }
    }
    Ok(h)
}

/// The last step of the handshake: a peer that passed gets the screen
/// `slot` (its id, and whether it was made for it), or is told that its
/// name is the server's own.
pub fn conclude_hello(name: &str, slot: Option<(u8, bool)>) -> (r: Result<(u8, bool), Refusal>)
    ensures
        slot matches Some(s) ==> r == Ok::<(u8, bool), Refusal>(s),
        slot is None ==> (r matches Err(f) && f.says(
            Some(
                (
                    ErrorCode::NameConflict,
                    "a machine cannot connect as \""@ + name@
                        + "\" — that is this server's own screen"@,
                ),
            ),
            "client name "@ + name@ + " conflicts with the local screen"@,
        )),
{
    match slot {
        Some(s) => Ok(s),
        None => {
            let mut text: String = "a machine cannot connect as \"".to_owned();
            text.append(name);
            text.append("\" — that is this server's own screen");
            let mut reason: String = "client name ".to_owned();
            reason.append(name);
            reason.append(" conflicts with the local screen");
            Err(Refusal { reply: Some((ErrorCode::NameConflict, text)), reason })
        },
    }
}

/// Revocation is a hard deny: a revoked machine is refused whatever the
/// layout, the trusted ids and the other rules say.
pub proof fn revocation_beats_everything(
    h: Hello,
    v: Versions,
    policy: Policy,
    layout: Seq<Screen>,
    ip: PeerIp,
)
    requires
        barred(policy.revoked_ids@, h.id@),
    ensures
        !(judge(First::Hello(h), v, policy, layout, ip) is Pass),
        speaks(v, h.version) ==> judge(First::Hello(h), v, policy, layout, ip) is Revoked,
{
}

/// A machine that is neither named in the layout nor trusted gets in only
/// when the allowlist is off.
pub proof fn allowlist_admits_only_the_known(
    h: Hello,
    v: Versions,
    policy: Policy,
    layout: Seq<Screen>,
    ip: PeerIp,
)
    requires
        judge(First::Hello(h), v, policy, layout, ip) is Pass,
        policy.allowlist,
    ensures
        named(layout, h.name@) || listed(policy.trusted_ids@, h.id@),
        !barred(policy.revoked_ids@, h.id@),
{
}

} // verus!
