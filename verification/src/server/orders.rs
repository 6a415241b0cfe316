//! The control file: orders to a client, one per line.
//!
//! A line is `<command> <name>`, where the command is `disconnect`,
//! `reconnect` or `restart` and the name is the client's screen name.
use vstd::prelude::*;
use vstd::string::*;

use crate::protocol::Command;
use crate::text::{chars_of, lines, lines_text, same, texts, trim, trimmed};

verus! {

/// What a line of the control file asks for.
#[derive(Debug, PartialEq, Eq)]
pub enum Order {
    /// A command for the client with this screen name.
    Run { name: String, command: Command },
    /// A command that does not exist.
    Unknown(String),
}

/// An order, by what it says.
pub enum Asked {
    Run { name: Seq<char>, command: Command },
    Unknown(Seq<char>),
}

impl View for Order {
    type V = Asked;

    open spec fn view(&self) -> Asked {
        match self {
            Order::Run { name, command } => Asked::Run { name: name@, command: *command },
            Order::Unknown(cmd) => Asked::Unknown(cmd@),
        }
    }
}

/// The command with this name.
pub open spec fn named_command(cmd: Seq<char>) -> Option<Command> {
    if cmd == "disconnect"@ {
        Some(Command::Disconnect)
    } else if cmd == "reconnect"@ {
        Some(Command::Reconnect)
    } else if cmd == "restart"@ {
        Some(Command::Restart)
    } else {
        None
    }
}

/// What a line asks for: without the white space around it, the command
/// up to the first space and the name behind it. A line without a space
/// asks for nothing.
pub open spec fn asked(line: Seq<char>) -> Option<Asked> {
    let t = trimmed(line);
    match t.index_of_first(' ') {
        Some(k) => {
            let cmd = t.take(k);
            let name = t.skip(k + 1);
            Some(
                match named_command(cmd) {
                    Some(command) => Asked::Run { name, command },
                    None => Asked::Unknown(cmd),
                },
            )
        },
        None => None,
    }
}

/// What the lines ask for, in order.
pub open spec fn all_asked(ls: Seq<Seq<char>>) -> Seq<Asked>
    decreases ls.len(),
{
    if ls.len() == 0 {
        Seq::empty()
    } else {
        let init = all_asked(ls.drop_last());
        match asked(ls.last()) {
            Some(a) => init.push(a),
            None => init,
        }
    }
}

/// The orders, by what they say.
pub open spec fn orders_view(v: Seq<Order>) -> Seq<Asked> {
    v.map_values(|o: Order| o@)
}

/// Reads one line.
pub fn read_order(line: &str) -> (r: Option<Order>)
    ensures
        (match r {
            Some(o) => Some(o@),
            None => None,
        }) == asked(line@),
{
    let t: String = trim(line);
    let v: Vec<char> = chars_of(t.as_str());
    let n: usize = v.len();
    let mut k: usize = 0;
    while k < n && v[k] != ' '
        invariant
            k <= n,
            n == v@.len(),
            v@ == t@,
            forall|j: int| 0 <= j < k ==> v@[j] != ' ',
        decreases n - k,
    {
        k += 1;
    }
    proof {
        t@.index_of_first_ensures(' ');
    }
    if k == n {
        proof {
            if t@.contains(' ') {
                let j = choose|j: int| 0 <= j < t@.len() && t@[j] == ' ';
                assert(v@[j] != ' ');
            }
        }
        return None;
    }
    proof {
        assert(t@[k as int] == ' ');
        assert(t@.contains(' '));
        assert(t@.take(k as int) =~= t@.subrange(0, k as int));
        assert(t@.skip(k + 1) =~= t@.subrange(k + 1, n as int));
    }
    let cmd: String = t.as_str().substring_char(0, k).to_owned();
    let name: String = t.as_str().substring_char(k + 1, n).to_owned();
    let command: Command = if same(cmd.as_str(), "disconnect") {
        Command::Disconnect
    } else if same(cmd.as_str(), "reconnect") {
        Command::Reconnect
    } else if same(cmd.as_str(), "restart") {
        Command::Restart
    } else {
        return Some(Order::Unknown(cmd));
    };
    Some(Order::Run { name, command })
}

/// Reads the control file.
pub fn read_orders(text: &str) -> (r: Vec<Order>)
    ensures
        orders_view(r@) == all_asked(lines_text(text@)),
{
    let ls: Vec<String> = lines(text);
    let ghost all = texts(ls@);
    let mut out: Vec<Order> = Vec::new();
    let mut i: usize = 0;
    assert(all.take(0) =~= Seq::<Seq<char>>::empty());
    assert(orders_view(out@) =~= all_asked(all.take(0)));
    while i < ls.len()
        invariant
            i <= ls@.len(),
            all == texts(ls@),
            orders_view(out@) == all_asked(all.take(i as int)),
        decreases ls@.len() - i,
    {
        let ghost before = orders_view(out@);
        proof {
            let next = all.take(i + 1);
            assert(next.drop_last() =~= all.take(i as int));
            assert(next.last() == ls@[i as int]@);
        }
        match read_order(ls[i].as_str()) {
            Some(o) => {
                out.push(o);
                assert(orders_view(out@) =~= before.push(o@));
            },
            None => {},
        }
        i += 1;
    }
    assert(all.take(i as int) =~= all);
    out
}

} // verus!
