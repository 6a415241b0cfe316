//! The contents of the client's live state file.
//!
//! The client writes its connection state on every transition, so a
//! controller can show what the client is doing right now. The file holds
//! `key=value` lines; the functions here give its whole text.
use crate::text::{lines_text, on_one_line, one_line, without_cr};
use vstd::prelude::*;
use vstd::string::*;

verus! {

/// One `key=value` line, with its line feed.
pub open spec fn entry(key: Seq<char>, value: Seq<char>) -> Seq<char> {
    key + value + "\n"@
}

/// The text of a state: its status and server, the server's machine id
/// where it is known, and the marker of a requested stop.
pub open spec fn state_text(
    status: Seq<char>,
    server: Seq<char>,
    server_id: Seq<char>,
    stopped: bool,
) -> Seq<char> {
    let id = if server_id.len() == 0 {
        Seq::empty()
    } else {
        entry("server_id="@, server_id)
    };
    let marker = if stopped {
        entry("stopped=1"@, Seq::empty())
    } else {
        Seq::empty()
    };
    entry("status="@, status) + entry("server="@, server) + id + marker
}

/// The text of a refusal: the server's explanation is kept on one line.
pub open spec fn refused_text(server: Seq<char>, reason: Seq<char>) -> Seq<char> {
    entry("status=refused"@, Seq::empty()) + entry("server="@, server) + entry(
        "reason="@,
        one_line(reason),
    )
}

/// Appends one `key=value` line.
fn put(out: &mut String, key: &str, value: &str)
    ensures
        final(out)@ == old(out)@ + entry(key@, value@),
{
    out.append(key);
    out.append(value);
    out.append("\n");
    assert(out@ =~= old(out)@ + entry(key@, value@));
}

fn state(status: &str, server: &str, server_id: &str, stopped: bool) -> (r: String)
    ensures
        r@ == state_text(status@, server@, server_id@, stopped),
{
    let mut out: String = String::new();
    put(&mut out, "status=", status);
    put(&mut out, "server=", server);
    if server_id.unicode_len() > 0 {
        put(&mut out, "server_id=", server_id);
    }
    if stopped {
        put(&mut out, "stopped=1", "");
        proof {
            reveal_strlit("");
            assert(""@ =~= Seq::<char>::empty());
        }
    }
    assert(out@ =~= state_text(status@, server@, server_id@, stopped));
    out
}

/// The state file for a transition. `status` is one of "connected",
/// "connecting", "disconnected"; `server` is the address the client is, or
/// was, talking to.
pub fn write_client_state(status: &str, server: &str) -> (r: String)
    ensures
        r@ == state_text(status@, server@, Seq::empty(), false),
{
    proof {
        reveal_strlit("");
        assert(""@ =~= Seq::<char>::empty());
    }
    state(status, server, "", false)
}

/// The state file of a live connection, with the machine id that the
/// server revealed. Address strings churn, the id does not; an empty id
/// writes no line.
pub fn write_client_state_connected(server: &str, server_id: &str) -> (r: String)
    ensures
        r@ == state_text("connected"@, server@, server_id@, false),
{
    state("connected", server, server_id, false)
}

/// The state file after a disconnect that the server asked for. Only this
/// one carries the `stopped=1` marker, so a requested stop can be told
/// from a link that blinked.
pub fn write_client_state_stopped(server: &str) -> (r: String)
    ensures
        r@ == state_text("disconnected"@, server@, Seq::empty(), true),
{
    proof {
        reveal_strlit("");
        assert(""@ =~= Seq::<char>::empty());
    }
    state("disconnected", server, "", true)
}

/// The state file after a connection that the server refused, with the
/// server's explanation. The explanation is prose and must never inject
/// lines into the file.
pub fn write_client_state_refused(server: &str, reason: &str) -> (r: String)
    ensures
        r@ == refused_text(server@, reason@),
{
    proof {
        reveal_strlit("");
        assert(""@ =~= Seq::<char>::empty());
    }
    let mut out: String = String::new();
    put(&mut out, "status=refused", "");
    put(&mut out, "server=", server);
    put(&mut out, "reason=", on_one_line(reason).as_str());
    assert(out@ =~= refused_text(server@, reason@));
    out
}

// ---------------------------------------------------------------------
// Laws
// ---------------------------------------------------------------------

/// The text holds no line break.
pub open spec fn unbroken(s: Seq<char>) -> bool {
    forall|i: int| 0 <= i < s.len() ==> #[trigger] s[i] != '\n' && s[i] != '\r'
}

proof fn lemma_entry_is_a_line(key: Seq<char>, value: Seq<char>, rest: Seq<char>)
    requires
        unbroken(key),
        unbroken(value),
    ensures
        lines_text(entry(key, value) + rest) == seq![key + value] + lines_text(rest),
{
    reveal_strlit("\n");
    let line = key + value;
    let s = entry(key, value) + rest;
    let n = line.len() as int;
    assert(s[n] == '\n');
    s.index_of_first_ensures('\n');
    assert(s.contains('\n'));
    let f = s.index_of_first('\n')->0;
    assert(f == n) by {
        if f < n {
            assert(s[f] == line[f]);
            if f < key.len() {
                assert(line[f] == key[f]);
            } else {
                assert(line[f] == value[f - key.len()]);
            }
        }
    }
    assert(s.take(n) =~= line);
    assert(s.skip(n + 1) =~= rest);
    if n > 0 {
        if value.len() > 0 {
            assert(line.last() == value.last());
            assert(value[value.len() - 1] != '\r');
        } else {
            assert(line.last() == key.last());
            assert(key[key.len() - 1] != '\r');
        }
    }
    assert(without_cr(line) == line);
}

proof fn lemma_keys()
    ensures
        unbroken("status="@),
        unbroken("server="@),
        unbroken("server_id="@),
        unbroken("stopped=1"@),
        unbroken("status=refused"@),
        unbroken("reason="@),
        "status="@.len() >= 7 && "status="@[2] == 'a',
        "server="@.len() >= 7 && "server="@[1] == 'e',
        "server_id="@.len() >= 7 && "server_id="@[1] == 'e',
        "stopped=1"@.len() == 9 && "stopped=1"@[1] == 't' && "stopped=1"@[2] == 'o',
{
    reveal_strlit("status=");
    reveal_strlit("server=");
    reveal_strlit("server_id=");
    reveal_strlit("stopped=1");
    reveal_strlit("status=refused");
    reveal_strlit("reason=");
}

/// The lines of a state file are its entries, in order: whatever the
/// values hold, as long as they hold no line break, a reader gets back
/// exactly what was written.
pub proof fn state_reads_back(
    status: Seq<char>,
    server: Seq<char>,
    server_id: Seq<char>,
    stopped: bool,
)
    requires
        unbroken(status),
        unbroken(server),
        unbroken(server_id),
    ensures
        lines_text(state_text(status, server, server_id, stopped)) == seq![
            "status="@ + status,
            "server="@ + server,
        ] + (if server_id.len() == 0 {
            Seq::empty()
        } else {
            seq!["server_id="@ + server_id]
        }) + (if stopped {
            seq!["stopped=1"@]
        } else {
            Seq::empty()
        }),
{
    lemma_keys();
    let none = Seq::<char>::empty();
    let no_lines = Seq::<Seq<char>>::empty();
    let marker = if stopped {
        entry("stopped=1"@, none)
    } else {
        none
    };
    let marker_lines = if stopped {
        seq!["stopped=1"@]
    } else {
        no_lines
    };
    assert(lines_text(marker) =~= marker_lines) by {
        if stopped {
            lemma_entry_is_a_line("stopped=1"@, none, none);
            assert(entry("stopped=1"@, none) + none =~= entry("stopped=1"@, none));
            assert("stopped=1"@ + none =~= "stopped=1"@);
        }
    }
    let id = if server_id.len() == 0 {
        none
    } else {
        entry("server_id="@, server_id)
    };
    let id_lines = if server_id.len() == 0 {
        no_lines
    } else {
        seq!["server_id="@ + server_id]
    };
    let tail = id + marker;
    assert(lines_text(tail) =~= id_lines + marker_lines) by {
        if server_id.len() > 0 {
            lemma_entry_is_a_line("server_id="@, server_id, marker);
        } else {
            assert(tail =~= marker);
        }
    }
    let second = entry("server="@, server) + tail;
    lemma_entry_is_a_line("server="@, server, tail);
    lemma_entry_is_a_line("status="@, status, second);
    assert(state_text(status, server, server_id, stopped) =~= entry("status="@, status) + second);
    assert(seq!["status="@ + status] + (seq!["server="@ + server] + (id_lines + marker_lines))
        =~= seq!["status="@ + status, "server="@ + server] + id_lines + marker_lines);
}

/// A requested stop is distinguishable: the file has the `stopped=1` line
/// exactly where the server asked for the stop.
pub proof fn stop_is_distinguishable(
    status: Seq<char>,
    server: Seq<char>,
    server_id: Seq<char>,
    stopped: bool,
)
    requires
        unbroken(status),
        unbroken(server),
        unbroken(server_id),
    ensures
        lines_text(state_text(status, server, server_id, stopped)).contains("stopped=1"@)
            == stopped,
{
    state_reads_back(status, server, server_id, stopped);
    lemma_keys();
    let ls = lines_text(state_text(status, server, server_id, stopped));
    let mark = "stopped=1"@;
    if stopped {
        assert(ls[ls.len() - 1] == mark);
    } else {
        assert(ls[0] != mark) by {
            assert(("status="@ + status)[2] == 'a');
        }
        assert(ls[1] != mark) by {
            assert(("server="@ + server)[1] == 'e');
        }
        if server_id.len() > 0 {
            assert(ls[2] != mark) by {
                assert(("server_id="@ + server_id)[1] == 'e');
            }
        }
    }
}

/// A refusal is three lines, whatever the reason says.
pub proof fn refusal_is_three_lines(server: Seq<char>, reason: Seq<char>)
    requires
        unbroken(server),
    ensures
        lines_text(refused_text(server, reason)) == seq![
            "status=refused"@,
            "server="@ + server,
            "reason="@ + one_line(reason),
        ],
{
    lemma_keys();
    let none = Seq::<char>::empty();
    let last = entry("reason="@, one_line(reason));
    lemma_entry_is_a_line("reason="@, one_line(reason), none);
    assert(last + none =~= last);
    let second = entry("server="@, server) + last;
    lemma_entry_is_a_line("server="@, server, last);
    lemma_entry_is_a_line("status=refused"@, none, second);
    assert(refused_text(server, reason) =~= entry("status=refused"@, none) + second);
    assert("status=refused"@ + none =~= "status=refused"@);
    assert(lines_text(refused_text(server, reason)) =~= seq![
        "status=refused"@,
        "server="@ + server,
        "reason="@ + one_line(reason),
    ]);
}

} // verus!
