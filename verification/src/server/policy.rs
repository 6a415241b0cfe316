//! Which peers may connect at all.
use vstd::prelude::*;
use vstd::string::*;
use vstd::utf8::*;

use crate::text::{same, starts_with};

verus! {

/// A short form of a machine id has at least this many bytes, so that a
/// typo'd one-character entry cannot match everything.
pub const MIN_ID_ENTRY: usize = 4;

/// A machine id matches an id-list entry: the entry is the id or a prefix
/// of it, and is at least [`MIN_ID_ENTRY`] bytes long.
pub open spec fn id_match(id: Seq<char>, entry: Seq<char>) -> bool {
    encode_utf8(entry).len() >= MIN_ID_ENTRY && entry.is_prefix_of(id)
}

/// Some entry of the list matches the machine id.
pub open spec fn listed(list: Seq<String>, id: Seq<char>) -> bool {
    exists|i: int| 0 <= i < list.len() && id_match(id, (#[trigger] list[i])@)
}

/// The two strings name one machine: either is a listed form of the
/// other.
pub open spec fn related(a: Seq<char>, b: Seq<char>) -> bool {
    id_match(a, b) || id_match(b, a)
}

/// Some entry of the list names the machine: the entry is a form of the
/// id, or the id is a form of the entry.
pub open spec fn barred(list: Seq<String>, id: Seq<char>) -> bool {
    exists|i: int| 0 <= i < list.len() && related(id, (#[trigger] list[i])@)
}

/// Does a machine id match an id-list entry? An entry may be the full id
/// or its short form (prefix match). Empty and too short entries never
/// match.
pub fn id_matches(id: &str, entry: &str) -> (r: bool)
    ensures
        r == id_match(id@, entry@),
{
    if entry.is_empty() || entry.as_bytes().len() < MIN_ID_ENTRY {
        proof {
            if entry@.len() == 0 {
                assert(encode_utf8(entry@).len() == 0) by {
                    reveal_with_fuel(encode_utf8, 1);
                }
            }
        }
        return false;
    }
    if same(id, entry) {
        assert(entry@ =~= id@.subrange(0, id@.len() as int));
        return true;
    }
    starts_with(id, entry)
}

/// Does some entry of the list match?
pub(crate) fn in_list(list: &Vec<String>, id: &str) -> (r: bool)
    ensures
        r == listed(list@, id@),
{
    let mut i: usize = 0;
    while i < list.len()
        invariant
            i <= list@.len(),
            forall|j: int| 0 <= j < i ==> !id_match(id@, (#[trigger] list@[j])@),
        decreases list@.len() - i,
    {
        if id_matches(id, list[i].as_str()) {
            assert(id_match(id@, list@[i as int]@));
            return true;
        }
        i += 1;
    }
    false
}

/// The server's connection policy.
#[derive(Debug)]
pub struct Policy {
    /// Only accept clients whose **exact** screen name appears in the
    /// layout, plus trusted machine ids.
    pub allowlist: bool,
    /// Only accept connections from the local network.
    pub local_only: bool,
    /// Machine ids that may connect even when their name is not in the
    /// layout.
    pub trusted_ids: Vec<String>,
    /// Machine ids that may **never** connect. Checked before everything
    /// else, including the layout and `trusted_ids`.
    pub revoked_ids: Vec<String>,
}

/// A copy of a list of strings.
pub(crate) fn copy_list(list: &Vec<String>) -> (r: Vec<String>)
    ensures
        r@ == list@,
{
    let mut r: Vec<String> = Vec::new();
    let mut i: usize = 0;
    while i < list.len()
        invariant
            i <= list@.len(),
            r@ == list@.take(i as int),
        decreases list@.len() - i,
    {
        r.push(list[i].clone());
        i += 1;
        assert(r@ =~= list@.take(i as int));
    }
    assert(r@ =~= list@);
    r
}

impl Clone for Policy {
    fn clone(&self) -> (r: Self)
        ensures
            r.allowlist == self.allowlist,
            r.local_only == self.local_only,
            r.trusted_ids@ == self.trusted_ids@,
            r.revoked_ids@ == self.revoked_ids@,
    {
        Policy {
            allowlist: self.allowlist,
            local_only: self.local_only,
            trusted_ids: copy_list(&self.trusted_ids),
            revoked_ids: copy_list(&self.revoked_ids),
        }
    }
}

impl Default for Policy {
    fn default() -> (r: Self)
        ensures
            r.allowlist,
            r.local_only,
            r.trusted_ids@ == Seq::<String>::empty(),
            r.revoked_ids@ == Seq::<String>::empty(),
    {
        Policy {
            allowlist: true,
            local_only: true,
            trusted_ids: Vec::new(),
            revoked_ids: Vec::new(),
        }
    }
}

impl Policy {
    /// Is `machine_id` explicitly revoked? Short or full ids work, in both
    /// directions, so revoking the short id also refuses the full one and
    /// revoking the full id also refuses the short one. Revocation is the
    /// strongest rule: callers check this before anything else.
    pub fn is_revoked(&self, machine_id: &str) -> (r: bool)
        ensures
            r == barred(self.revoked_ids@, machine_id@),
    {
        let mut i: usize = 0;
        while i < self.revoked_ids.len()
            invariant
                i <= self.revoked_ids@.len(),
                forall|j: int|
                    0 <= j < i ==> !related(machine_id@, (#[trigger] self.revoked_ids@[j])@),
            decreases self.revoked_ids@.len() - i,
        {
            let entry = self.revoked_ids[i].as_str();
            if id_matches(machine_id, entry) || id_matches(entry, machine_id) {
                assert(related(machine_id@, self.revoked_ids@[i as int]@));
                return true;
            }
            i += 1;
        }
        false
    }

    /// Is `machine_id` trusted (admitted even without a layout screen)?
    pub fn is_trusted(&self, machine_id: &str) -> (r: bool)
        ensures
            r == listed(self.trusted_ids@, machine_id@),
    {
        in_list(&self.trusted_ids, machine_id)
    }
}

/// Listing a short id covers every longer id that begins with it.
pub proof fn short_id_covers_longer_ids(list: Seq<String>, short: Seq<char>, long: Seq<char>)
    requires
        listed(list, short),
        short.is_prefix_of(long),
    ensures
        listed(list, long),
{
    let i = choose|i: int| 0 <= i < list.len() && id_match(short, (#[trigger] list[i])@);
    let e = list[i]@;
    assert(e =~= long.subrange(0, e.len() as int)) by {
        assert forall|j: int| 0 <= j < e.len() implies e[j] == long[j] by {
            assert(e[j] == short.subrange(0, e.len() as int)[j]);
            assert(short[j] == long.subrange(0, short.len() as int)[j]);
        }
    }
    assert(id_match(long, list[i]@));
}

proof fn lemma_prefix_bytes(long: Seq<char>, short: Seq<char>)
    requires
        short.is_prefix_of(long),
    ensures
        encode_utf8(short).len() <= encode_utf8(long).len(),
    decreases short.len(),
{
    reveal_with_fuel(encode_utf8, 1);
    if short.len() > 0 {
        assert(short[0] == long.subrange(0, short.len() as int)[0]);
        let s = short.drop_first();
        let l = long.drop_first();
        assert(s =~= l.subrange(0, s.len() as int)) by {
            assert forall|j: int| 0 <= j < s.len() implies s[j] == l[j] by {
                assert(short[j + 1] == long.subrange(0, short.len() as int)[j + 1]);
            }
        }
        lemma_prefix_bytes(l, s);
    }
}

/// Revoking a machine by its short id refuses the full one, and revoking
/// it by its full id refuses the short one: whichever form the list holds,
/// the other is barred too.
pub proof fn revoking_either_form_bars_both(list: Seq<String>, k: int, short: Seq<char>, long: Seq<char>)
    requires
        id_match(long, short),
        0 <= k < list.len(),
        list[k]@ == short || list[k]@ == long,
    ensures
        barred(list, short),
        barred(list, long),
{
    assert(short =~= short.subrange(0, short.len() as int));
    assert(long =~= long.subrange(0, long.len() as int));
    assert(id_match(short, short));
    assert(related(short, list[k]@));
    assert(related(long, list[k]@)) by {
        if list[k]@ == long {
            lemma_prefix_bytes(long, short);
        }
    }
}

/// An empty entry matches nobody.
pub proof fn empty_entry_matches_nobody(id: Seq<char>)
    ensures
        !id_match(id, Seq::empty()),
{
    assert(encode_utf8(Seq::<char>::empty()).len() == 0) by {
        reveal_with_fuel(encode_utf8, 1);
    }
}

} // verus!
