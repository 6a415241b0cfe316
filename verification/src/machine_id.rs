//! A stable machine id for an installation.
//!
//! Every machine gets a random, permanent id on its first run: 16 bytes,
//! written in hex. It travels in a client's greeting, so that a server can
//! trust a machine regardless of its screen name, and in a server's
//! answer, so that a client can trust a server.
use crate::text::{trim, trimmed};
use crate::trust::held;
use vstd::prelude::*;
use vstd::string::*;

verus! {

/// The id's file inside the state directory.
pub const MACHINE_ID_FILE: &'static str = "machine.id";

/// An id has this many bytes.
pub const ID_BYTES: usize = 16;

/// The error of the system's random number source.
#[verifier::external_type_specification]
#[verifier::external_body]
pub struct ExRandomError(getrandom::Error);

/// Calls `getrandom::getrandom` on the bytes of the vector. The contract
/// claims that the number of bytes stays, and that filling no bytes always
/// succeeds; what the bytes are, and whether the source answers at all, is
/// open.
#[verifier::external_body]
fn fill_random(bytes: &mut Vec<u8>) -> (r: Result<(), getrandom::Error>)
    ensures
        final(bytes)@.len() == old(bytes)@.len(),
        old(bytes)@.len() == 0 ==> r is Ok,
{
    getrandom::getrandom(bytes.as_mut_slice())
}

/// One hex digit, in lower case.
pub open spec fn hex_digit(d: int) -> char {
    if d == 0 {
        '0'
    } else if d == 1 {
        '1'
    } else if d == 2 {
        '2'
    } else if d == 3 {
        '3'
    } else if d == 4 {
        '4'
    } else if d == 5 {
        '5'
    } else if d == 6 {
        '6'
    } else if d == 7 {
        '7'
    } else if d == 8 {
        '8'
    } else if d == 9 {
        '9'
    } else if d == 10 {
        'a'
    } else if d == 11 {
        'b'
    } else if d == 12 {
        'c'
    } else if d == 13 {
        'd'
    } else if d == 14 {
        'e'
    } else {
        'f'
    }
}

/// Bytes in hex, two digits each.
pub open spec fn hex_text(bytes: Seq<u8>) -> Seq<char> {
    Seq::new(
        2 * bytes.len(),
        |i: int|
            if i % 2 == 0 {
                hex_digit(bytes[i / 2] as int / 16)
            } else {
                hex_digit(bytes[i / 2] as int % 16)
            },
    )
}

fn digit(d: u8) -> (r: &'static str)
    requires
        d < 16,
    ensures
        r@ == seq![hex_digit(d as int)],
{
    proof {
        reveal_strlit("0");
        reveal_strlit("1");
        reveal_strlit("2");
        reveal_strlit("3");
        reveal_strlit("4");
        reveal_strlit("5");
        reveal_strlit("6");
        reveal_strlit("7");
        reveal_strlit("8");
        reveal_strlit("9");
        reveal_strlit("a");
        reveal_strlit("b");
        reveal_strlit("c");
        reveal_strlit("d");
        reveal_strlit("e");
        reveal_strlit("f");
    }
    match d {
        0 => "0",
        1 => "1",
        2 => "2",
        3 => "3",
        4 => "4",
        5 => "5",
        6 => "6",
        7 => "7",
        8 => "8",
        9 => "9",
        10 => "a",
        11 => "b",
        12 => "c",
        13 => "d",
        14 => "e",
        _ => "f",
    }
}

/// [`hex_text`] as a string.
pub fn hex(bytes: &Vec<u8>) -> (r: String)
    ensures
        r@ == hex_text(bytes@),
{
    let mut out: String = String::new();
    let mut i: usize = 0;
    while i < bytes.len()
        invariant
            i <= bytes@.len(),
            out@ == hex_text(bytes@).take(2 * i),
        decreases bytes@.len() - i,
    {
        let ghost before = out@;
        let b: u8 = bytes[i];
        out.append(digit(b / 16));
        out.append(digit(b % 16));
        proof {
            let all = hex_text(bytes@);
            assert(all[2 * i] == hex_digit(b as int / 16));
            assert(all[2 * i + 1] == hex_digit(b as int % 16));
            assert(out@ =~= before.push(all[2 * i]).push(all[2 * i + 1]));
            assert(out@ =~= all.take(2 * (i + 1)));
        }
        i += 1;
    }
    assert(hex_text(bytes@).take(2 * i) =~= hex_text(bytes@));
    out
}

/// The `n` lowest bytes of a number, the lowest first.
pub open spec fn low_bytes(v: nat, n: nat) -> Seq<u8>
    decreases n,
{
    if n == 0 {
        Seq::empty()
    } else {
        seq![(v % 256) as u8] + low_bytes(v / 256, (n - 1) as nat)
    }
}

/// The bytes of an id that was made without a random number source: the
/// time, then the process id.
pub open spec fn fallback_bytes(time: u64, process: u64) -> Seq<u8> {
    low_bytes(time as nat, 8) + low_bytes(process as nat, 8)
}

fn append_low_bytes(out: &mut Vec<u8>, v: u64)
    ensures
        final(out)@ == old(out)@ + low_bytes(v as nat, 8),
{
    let mut v: u64 = v;
    let ghost all = low_bytes(v as nat, 8);
    let mut n: usize = 0;
    assert(out@ + all =~= old(out)@ + all);
    while n < 8
        invariant
            n <= 8,
            out@ + low_bytes(v as nat, (8 - n) as nat) == old(out)@ + all,
        decreases 8 - n,
    {
        let ghost before = out@;
        let ghost rest = low_bytes((v / 256) as nat, (7 - n) as nat);
        out.push((v % 256) as u8);
        assert(out@ + rest =~= before + (seq![(v % 256) as u8] + rest));
        v = v / 256;
        n += 1;
    }
    assert(low_bytes(v as nat, 0) =~= Seq::<u8>::empty());
    assert(out@ =~= old(out)@ + all);
}

/// The id made of what the random number source gave. Where it gave
/// nothing, the id is a mix of time and process id, so that the machine
/// still has one.
pub fn id_from(random: Option<Vec<u8>>, time: u64, process: u64) -> (r: String)
    ensures
        r@ == hex_text(
            match random {
                Some(bytes) => bytes@,
                None => fallback_bytes(time, process),
            },
        ),
{
    match random {
        Some(bytes) => hex(&bytes),
        None => {
            let mut bytes: Vec<u8> = Vec::new();
            append_low_bytes(&mut bytes, time);
            append_low_bytes(&mut bytes, process);
            assert(bytes@ =~= fallback_bytes(time, process));
            hex(&bytes)
        },
    }
}

/// A machine's id.
#[derive(Debug, PartialEq, Eq)]
pub enum Identity {
    /// The id that the file holds.
    Kept(String),
    /// A new id, to be written to the file.
    Fresh(String),
}

/// The text is an id of [`ID_BYTES`] bytes.
pub open spec fn is_id(s: Seq<char>) -> bool {
    exists|bytes: Seq<u8>| bytes.len() == ID_BYTES && s == #[trigger] hex_text(bytes)
}

proof fn lemma_low_bytes_len(v: nat, n: nat)
    ensures
        low_bytes(v, n).len() == n,
    decreases n,
{
    if n > 0 {
        lemma_low_bytes_len(v / 256, (n - 1) as nat);
    }
}

/// This machine's id: the one in the file where the file can be read and
/// holds more than white space, else a fresh one.
pub fn machine_id(file: &Option<String>, time: u64, process: u64) -> (r: Identity)
    ensures
        match held(*file) {
            Some(text) if trimmed(text).len() > 0 => {
                &&& r matches Identity::Kept(id)
                &&& id@ == trimmed(text)
            },
            _ => {
                &&& r matches Identity::Fresh(id)
                &&& is_id(id@)
            },
        },
{
    if let Some(text) = file {
        let id: String = trim(text.as_str());
        if !id.as_str().is_empty() {
            return Identity::Kept(id);
        }
    }
    let mut bytes: Vec<u8> = vec![0u8; ID_BYTES];
    let random: Option<Vec<u8>> = match fill_random(&mut bytes) {
        Ok(()) => Some(bytes),
        Err(_) => None,
    };
    proof {
        lemma_low_bytes_len(time as nat, 8);
        lemma_low_bytes_len(process as nat, 8);
    }
    let id: String = id_from(random, time, process);
    assert(is_id(id@));
    Identity::Fresh(id)
}

// ---------------------------------------------------------------------
// Laws
// ---------------------------------------------------------------------

/// An id of 16 bytes is 32 characters, each a hex digit in lower case.
pub proof fn id_is_32_hex_digits(s: Seq<char>)
    requires
        is_id(s),
    ensures
        s.len() == 32,
        forall|i: int|
            0 <= i < s.len() ==> ('0' <= #[trigger] s[i] <= '9' || 'a' <= s[i] <= 'f'),
{
}

/// Different bytes give different ids.
pub proof fn different_bytes_give_different_ids(a: Seq<u8>, b: Seq<u8>)
    requires
        hex_text(a) == hex_text(b),
    ensures
        a == b,
{
    let s = hex_text(a);
    let t = hex_text(b);
    assert(s.len() == 2 * a.len() && t.len() == 2 * b.len());
    assert forall|i: int| 0 <= i < a.len() implies a[i] == b[i] by {
        assert(s[2 * i] == hex_digit(a[i] as int / 16));
        assert(t[2 * i] == hex_digit(b[i] as int / 16));
        assert(s[2 * i + 1] == hex_digit(a[i] as int % 16));
        assert(t[2 * i + 1] == hex_digit(b[i] as int % 16));
    }
    assert(a =~= b);
}

} // verus!
