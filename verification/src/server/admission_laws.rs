//! Who is let in and what the rest are told, what the control file and the
//! list of clients say, and when a link or the server gives up.
use vstd::prelude::*;
use vstd::utf8::*;

use crate::layout::search_is_complete;
use crate::protocol::{Command, Message, Screen};
use crate::server::hello::{judge, logged, told, First, Hello, Verdict, Versions};
use crate::server::hub::{Outbound, ServerEvent};
use crate::server::link::{next_seq, ReadEvent, Reader, Writer, WriterStep};
use crate::server::liveness::Liveness;
use crate::server::net::{private_address, Endpoint, PeerIp};
use crate::server::orders::{all_asked, asked, Asked};
use crate::server::policy::{barred, id_match, listed, related, Policy};
use crate::server::roster::{after_event, Presence};
use crate::text::{decimal_text, trimmed, white};

verus! {

// ---------------------------------------------------------------------
// Machine ids
// ---------------------------------------------------------------------

/// The entry is at least four bytes long and the id begins with it.
pub open spec fn short_for(entry: Seq<char>, id: Seq<char>) -> bool {
    &&& encode_utf8(entry).len() >= 4
    &&& entry.len() <= id.len()
    &&& forall|i: int| 0 <= i < entry.len() ==> #[trigger] entry[i] == id[i]
}

/// A machine is trusted where an entry of the list is its id or a short
/// form of it. It is revoked also where its id is a short form of an entry.
pub proof fn ids_match_by_their_beginning(list: Seq<String>, id: Seq<char>, entry: Seq<char>)
    ensures
        id_match(id, entry) <==> short_for(entry, id),
        related(id, entry) <==> short_for(entry, id) || short_for(id, entry),
        listed(list, id) <==> exists|k: int|
            0 <= k < list.len() && short_for((#[trigger] list[k])@, id),
        barred(list, id) <==> exists|k: int|
            0 <= k < list.len() && (short_for((#[trigger] list[k])@, id) || short_for(
                id,
                list[k]@,
            )),
{
    lemma_short(id, entry);
    lemma_short(entry, id);
    assert forall|k: int| 0 <= k < list.len() implies id_match(id, (#[trigger] list[k])@)
        == short_for(list[k]@, id) && id_match(list[k]@, id) == short_for(id, list[k]@) by {
        lemma_short(id, list[k]@);
        lemma_short(list[k]@, id);
    }
    if listed(list, id) {
        let k = choose|k: int| 0 <= k < list.len() && id_match(id, (#[trigger] list[k])@);
        assert(short_for(list[k]@, id));
    }
    if exists|k: int| 0 <= k < list.len() && short_for((#[trigger] list[k])@, id) {
        let k = choose|k: int| 0 <= k < list.len() && short_for((#[trigger] list[k])@, id);
        assert(id_match(id, list[k]@));
    }
    if barred(list, id) {
        let k = choose|k: int| 0 <= k < list.len() && related(id, (#[trigger] list[k])@);
        assert(short_for(list[k]@, id) || short_for(id, list[k]@));
    }
    if exists|k: int|
        0 <= k < list.len() && (short_for((#[trigger] list[k])@, id) || short_for(id, list[k]@)) {
        let k = choose|k: int|
            0 <= k < list.len() && (short_for((#[trigger] list[k])@, id) || short_for(
                id,
                list[k]@,
            ));
        assert(related(id, list[k]@));
    }
}

proof fn lemma_short(id: Seq<char>, entry: Seq<char>)
    ensures
        id_match(id, entry) <==> short_for(entry, id),
{
    if entry.is_prefix_of(id) {
        assert forall|i: int| 0 <= i < entry.len() implies #[trigger] entry[i] == id[i] by {
            assert(id.subrange(0, entry.len() as int)[i] == id[i]);
        }
    }
    if short_for(entry, id) {
        assert(entry =~= id.subrange(0, entry.len() as int));
    }
}

// ---------------------------------------------------------------------
// The handshake
// ---------------------------------------------------------------------

/// A client is let in exactly when it speaks a version from the accepted
/// range, is not revoked, comes from a private address where that is asked
/// for, and has a client screen of its name in the layout or is trusted
/// where that is asked for.
pub proof fn who_is_let_in(
    h: Hello,
    v: Versions,
    policy: Policy,
    layout: Seq<Screen>,
    ip: PeerIp,
)
    ensures
        ({
            let verdict = judge(First::Hello(h), v, policy, layout, ip);
            let speaks = v.min <= h.version && h.version <= v.max;
            let revoked = barred(policy.revoked_ids@, h.id@);
            let near = !policy.local_only || private_address(ip);
            let known = !policy.allowlist || listed(policy.trusted_ids@, h.id@) || exists|k: int|
                0 <= k < layout.len() && (#[trigger] layout[k]).id != 0 && layout[k].name@
                    == h.name@;
            &&& verdict is Pass <==> speaks && !revoked && near && known
            &&& verdict is VersionMismatch <==> !speaks
            &&& verdict is Revoked <==> speaks && revoked
            &&& verdict is NotLocal <==> speaks && !revoked && !near
            &&& verdict is NotAllowed <==> speaks && !revoked && near && !known
        }),
        judge(First::Other, v, policy, layout, ip) is NotHello,
        judge(First::Closed, v, policy, layout, ip) is Closed,
{
    let p = |e: Screen| e.id != 0 && e.name@ == h.name@;
    search_is_complete(layout, p);
    if exists|k: int|
        0 <= k < layout.len() && (#[trigger] layout[k]).id != 0 && layout[k].name@ == h.name@ {
        let k = choose|k: int|
            0 <= k < layout.len() && (#[trigger] layout[k]).id != 0 && layout[k].name@ == h.name@;
        assert(p(layout[k]));
    }
    if exists|k: int| 0 <= k < layout.len() && p(#[trigger] layout[k]) {
        let k = choose|k: int| 0 <= k < layout.len() && p(#[trigger] layout[k]);
        assert(layout[k].id != 0 && layout[k].name@ == h.name@);
    }
}

/// Each refusal that is answered is answered with its own error code; a
/// peer that did not greet, or that passed, is told nothing.
pub proof fn each_refusal_has_its_code(
    v: Versions,
    version: u16,
    name: Seq<char>,
    peer: Seq<char>,
)
    ensures
        told(Verdict::VersionMismatch, v, version, name, peer) matches Some((code, _)) && code
            is VersionMismatch,
        told(Verdict::Revoked, v, version, name, peer) matches Some((code, _)) && code is Revoked,
        told(Verdict::NotLocal, v, version, name, peer) matches Some((code, _)) && code is NotLocal,
        told(Verdict::NotAllowed, v, version, name, peer) matches Some((code, _)) && code
            is NotAllowed,
        told(Verdict::NotHello, v, version, name, peer) is None,
        told(Verdict::Closed, v, version, name, peer) is None,
        told(Verdict::Pass, v, version, name, peer) is None,
{
}

/// A refusal says what it is about: the two versions and the range, the
/// name that is missing, or the address that is too far.
pub proof fn a_refusal_says_why(
    v: Versions,
    version: u16,
    id: Seq<char>,
    name: Seq<char>,
    peer: Seq<char>,
)
    ensures
        ({
            let (_, text) = told(Verdict::VersionMismatch, v, version, name, peer)->0;
            text == "this server speaks protocol v"@ + decimal_text(v.current as nat)
                + " (accepts v"@ + decimal_text(v.min as nat) + "–v"@ + decimal_text(v.max as nat)
                + ") and the client speaks v"@ + decimal_text(version as nat)
                + " — update the older machine"@
        }),
        ({
            let (_, text) = told(Verdict::NotLocal, v, version, name, peer)->0;
            text == "connection from "@ + peer
                + " refused — only local-network peers are accepted"@
        }),
        ({
            let (_, text) = told(Verdict::NotAllowed, v, version, name, peer)->0;
            text == "\""@ + name
                + "\" is not in this server's layout and its machine id is not trusted — add it to the layout or trust its id to connect"@
        }),
        logged(Verdict::VersionMismatch, v, version, id, name, peer)
            == "client refused: protocol version mismatch (server v"@ + decimal_text(
            v.current as nat,
        ) + ", client v"@ + decimal_text(version as nat) + ")"@,
        logged(Verdict::Revoked, v, version, id, name, peer) == "client "@ + name + " ("@ + id
            + ") refused: machine id is revoked"@,
        logged(Verdict::NotAllowed, v, version, id, name, peer) == "client "@ + name + " ("@ + id
            + ") refused: not in the layout and not trusted"@,
        logged(Verdict::NotLocal, v, version, id, name, peer) == "client "@ + peer
            + " is not on the local network"@,
{
}

/// A private address, octet by octet: 10.x, 127.x, 172.16 to 172.31,
/// 192.168 and 169.254; or, of the newer kind, the loopback address and
/// those whose first seven bits are those of `fc00` or whose first ten are
/// those of `fe80`.
pub proof fn private_addresses_by_octets(a: u32, b: u128)
    ensures
        ({
            let first = a / 0x100_0000;
            let second = a / 0x1_0000 % 0x100;
            private_address(PeerIp::V4(a)) <==> first == 10 || first == 127 || (first == 172 && 16
                <= second <= 31) || (first == 192 && second == 168) || (first == 169 && second
                == 254)
        }),
        private_address(PeerIp::V6(b)) <==> b == 1 || b
            / 0x0200_0000_0000_0000_0000_0000_0000_0000 == 0x7e || b
            / 0x0040_0000_0000_0000_0000_0000_0000_0000 == 0x3fa,
{
}

// ---------------------------------------------------------------------
// Links
// ---------------------------------------------------------------------

/// Sequence numbers go up by one and start over at zero after the last.
pub proof fn sequence_numbers_go_round(seq: u32)
    ensures
        seq < 0xffff_ffff ==> next_seq(seq) == seq + 1,
        seq == 0xffff_ffff ==> next_seq(seq) == 0,
{
}

/// A control frame goes out as it is. A cursor frame goes to the client's
/// address, once that is known, under the next number, so that no number is
/// used twice in a row; before that it is dropped, and the first drop is
/// told.
pub proof fn each_frame_has_its_number(w: Writer, msg: Message, to: Endpoint, addr: Option<Endpoint>)
    ensures
        w.sends(Outbound::Tcp(msg), addr) == (w, WriterStep::Tcp(msg)),
        ({
            let (after, step) = w.sends(Outbound::Udp(msg), Some(to));
            &&& step matches WriterStep::Udp { to: t, seq, msg: m }
            &&& t == to && seq == w.seq && m == msg
            &&& w.seq < 0xffff_ffff ==> after.seq == w.seq + 1
            &&& w.seq == 0xffff_ffff ==> after.seq == 0
            &&& after.unregistered == w.unregistered
        }),
        ({
            let (after, step) = w.sends(Outbound::Udp(msg), None);
            &&& step matches WriterStep::Drop { first }
            &&& first <==> !w.unregistered
            &&& after.unregistered
            &&& after.seq == w.seq
        }),
{
}

/// A client that says something is heard from then on. One that says
/// nothing is waited for, for ten seconds since it was last heard; a link
/// that ends ends the client.
pub proof fn a_silent_client_has_ten_seconds(r: Reader, event: ReadEvent, now: u64)
    ensures
        ({
            let (after, step) = r.hears(event, now);
            &&& event is Arrived ==> step is Dispatch && after.last_seen == now
            &&& event is Ended ==> step is Teardown
            &&& event is Quiet && now > r.last_seen + 10_000_000_000 ==> step is Teardown
            &&& event is Quiet && now <= r.last_seen + 10_000_000_000 ==> step is Wait
            &&& !(event is Arrived) ==> after == r
        }),
{
}

/// The server is wedged when it captures input, the cursor is away, and
/// either of its two loops has been silent for more than three seconds.
pub proof fn the_server_is_wedged_after_three_seconds(l: Liveness, remote: bool, now: u64)
    ensures
        l.wedged(remote, now) <==> l.capture_tick_ms != 0 && remote && (now > l.loop_tick_ms + 3000
            || now > l.capture_tick_ms + 3000),
{
}

// ---------------------------------------------------------------------
// The control file
// ---------------------------------------------------------------------

proof fn lemma_trimmed(s: Seq<char>)
    requires
        s.len() > 0,
        !white(s[0]),
        !white(s.last()),
    ensures
        trimmed(s) == s,
{
}

/// An order that is written is read back: a word without white space, a
/// space, and a name that does not end in white space. The three command
/// words give their command for that name, any other word is unknown.
pub proof fn an_order_is_read_back(word: Seq<char>, name: Seq<char>)
    requires
        word.len() > 0,
        forall|i: int| 0 <= i < word.len() ==> !white(#[trigger] word[i]),
        name.len() > 0,
        !white(name.last()),
    ensures
        ({
            let order = asked(word + seq![' '] + name);
            &&& word == "disconnect"@ ==> order == Some(
                Asked::Run { name, command: Command::Disconnect },
            )
            &&& word == "reconnect"@ ==> order == Some(
                Asked::Run { name, command: Command::Reconnect },
            )
            &&& word == "restart"@ ==> order == Some(
                Asked::Run { name, command: Command::Restart },
            )
            &&& word != "disconnect"@ && word != "reconnect"@ && word != "restart"@ ==> order
                == Some(Asked::Unknown(word))
        }),
{
    let line = word + seq![' '] + name;
    let n = word.len() as int;
    assert(line[0] == word[0]);
    assert(line.last() == name.last());
    lemma_trimmed(line);
    assert(line[n] == ' ');
    line.index_of_first_ensures(' ');
    assert(line.contains(' '));
    let f = line.index_of_first(' ')->0;
    assert(f == n) by {
        if f < n {
            assert(line[f] == word[f]);
            assert(white(' '));
        }
    }
    assert(line.take(n) =~= word);
    assert(line.skip(n + 1) =~= name);
    reveal_strlit("disconnect");
    reveal_strlit("reconnect");
    reveal_strlit("restart");
    assert("disconnect"@[0] == 'd' && "reconnect"@[0] == 'r' && "restart"@[0] == 'r');
    assert("reconnect"@.len() == 9 && "restart"@.len() == 7);
}

/// A line that holds no space but around its text asks for nothing, and the
/// white space around a line does not matter.
pub proof fn a_line_needs_a_space(line: Seq<char>)
    ensures
        !trimmed(line).contains(' ') ==> asked(line) is None,
        forall|other: Seq<char>| trimmed(other) == trimmed(line) ==> #[trigger] asked(other)
            == asked(line),
{
    trimmed(line).index_of_first_ensures(' ');
}

/// The orders of a file are those of its lines, in order; lines that ask
/// for nothing leave no gap.
pub proof fn orders_keep_their_order(a: Seq<Seq<char>>, b: Seq<Seq<char>>, line: Seq<char>)
    ensures
        all_asked(a + b) == all_asked(a) + all_asked(b),
        asked(line) matches Some(o) ==> all_asked(seq![line]) == seq![o],
        asked(line) is None ==> all_asked(seq![line]).len() == 0,
    decreases b.len(),
{
    let one = seq![line];
    assert(one.drop_last() =~= Seq::<Seq<char>>::empty());
    assert(one.last() == line);
    reveal_with_fuel(all_asked, 2);
    if let Some(o) = asked(line) {
        assert(all_asked(one) =~= seq![o]);
    }
    if b.len() == 0 {
        assert(a + b =~= a);
        assert(all_asked(a) + all_asked(b) =~= all_asked(a));
    } else {
        assert((a + b).drop_last() =~= a + b.drop_last());
        assert((a + b).last() == b.last());
        orders_keep_their_order(a, b.drop_last(), line);
        assert(all_asked(a + b) =~= all_asked(a) + all_asked(b));
    }
}

// ---------------------------------------------------------------------
// The list of clients
// ---------------------------------------------------------------------

/// The list has a client from when it connects, with what it connected
/// with, until it disconnects; events of others do not touch it.
pub proof fn the_list_follows_the_events(
    m: Map<Seq<char>, Presence>,
    evt: ServerEvent,
    other: Seq<char>,
)
    ensures
        ({
            let t = after_event(m, evt);
            &&& evt matches ServerEvent::ClientConnected { name, id, addr, since_ms, .. } ==> {
                &&& t.contains_key(name@)
                &&& t[name@].id == id@ && t[name@].addr == addr@ && t[name@].since_ms == since_ms
                &&& other != name@ ==> (t.contains_key(other) <==> m.contains_key(other))
                &&& other != name@ && m.contains_key(other) ==> t[other] == m[other]
            }
            &&& evt matches ServerEvent::ClientDisconnected { name } ==> {
                &&& !t.contains_key(name@)
                &&& other != name@ ==> (t.contains_key(other) <==> m.contains_key(other))
                &&& other != name@ && m.contains_key(other) ==> t[other] == m[other]
            }
        }),
{
}

} // verus!
