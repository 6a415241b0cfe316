//! The trust decisions that a client process carries.
//!
//! A client needs the list of servers it must refuse, because a server's
//! machine id only becomes known once the connection is up. The list
//! becomes a [`Policy`], so that what a client refuses and what a server
//! refuses follow one set of matching rules.
use crate::server::policy::{barred, Policy};
use crate::text::{split, split_text, texts, trim, trimmed};
use vstd::prelude::*;
use vstd::string::*;

verus! {

/// Environment variable with the machine ids that this process must
/// refuse, as a comma-separated list.
pub const REVOKED_ENV: &'static str = "KVMSHARE_REVOKED_IDS";

/// File in the state directory that carries the same list, for a process
/// that was started without the variable.
pub const REVOKED_FILE: &'static str = "revoked-ids.txt";

/// The entries of a list: its pieces without the white space around them,
/// blank ones left out.
pub open spec fn entries(pieces: Seq<Seq<char>>) -> Seq<Seq<char>>
    decreases pieces.len(),
{
    if pieces.len() == 0 {
        Seq::empty()
    } else {
        let e = trimmed(pieces.last());
        if e.len() > 0 {
            entries(pieces.drop_last()).push(e)
        } else {
            entries(pieces.drop_last())
        }
    }
}

/// The policy revokes exactly these ids and is otherwise the default.
pub open spec fn revokes(p: Policy, ids: Seq<Seq<char>>) -> bool {
    &&& p.allowlist
    &&& p.local_only
    &&& p.trusted_ids@.len() == 0
    &&& texts(p.revoked_ids@) == ids
}

/// The policy of a comma-separated list of revoked ids. Blank entries and
/// the white space around an entry are ignored, so an empty list revokes
/// nothing.
pub fn policy_from_revoked_list(raw: &str) -> (p: Policy)
    ensures
        revokes(p, entries(split_text(raw@, ','))),
{
    let pieces: Vec<String> = split(raw, ',');
    let ghost all = texts(pieces@);
    let mut ids: Vec<String> = Vec::new();
    let mut i: usize = 0;
    assert(all.take(0) =~= Seq::<Seq<char>>::empty());
    assert(texts(ids@) =~= entries(all.take(0)));
    while i < pieces.len()
        invariant
            i <= pieces@.len(),
            all == texts(pieces@),
            texts(ids@) == entries(all.take(i as int)),
        decreases pieces@.len() - i,
    {
        let ghost before = texts(ids@);
        proof {
            let next = all.take(i + 1);
            assert(next.drop_last() =~= all.take(i as int));
            assert(next.last() == pieces@[i as int]@);
        }
        let e: String = trim(pieces[i].as_str());
        if !e.as_str().is_empty() {
            ids.push(e);
            assert(texts(ids@) =~= before.push(e@));
        }
        i += 1;
    }
    assert(all.take(i as int) =~= all);
    let mut p: Policy = Policy::default();
    p.revoked_ids = ids;
    p
}

/// The list in force, given the variable and the file, each where it can
/// be read: the variable where it holds more than white space, then the
/// file, then nothing.
pub open spec fn list_in_force(env: Option<Seq<char>>, file: Option<Seq<char>>) -> Seq<char> {
    match env {
        Some(raw) if trimmed(raw).len() > 0 => raw,
        _ => match file {
            Some(raw) => raw,
            None => Seq::empty(),
        },
    }
}

/// What an optional string holds.
pub open spec fn held(s: Option<String>) -> Option<Seq<char>> {
    match s {
        Some(t) => Some(t@),
        None => None,
    }
}

proof fn lemma_empty_list()
    ensures
        split_text(Seq::empty(), ',') == seq![Seq::<char>::empty()],
        entries(split_text(Seq::empty(), ',')) == Seq::<Seq<char>>::empty(),
{
    let none = Seq::<char>::empty();
    none.index_of_first_ensures(',');
    assert(split_text(none, ',') =~= seq![none]);
    let one = seq![none];
    assert(one.last() == none);
    assert(one.drop_last() =~= Seq::<Seq<char>>::empty());
    reveal_with_fuel(entries, 2);
}

/// The policy of the environment variable alone; unset, it revokes
/// nothing.
pub fn revoked_policy_from_env(env: &Option<String>) -> (p: Policy)
    ensures
        revokes(
            p,
            entries(
                split_text(
                    match held(*env) {
                        Some(raw) => raw,
                        None => Seq::empty(),
                    },
                    ',',
                ),
            ),
        ),
{
    match env {
        Some(raw) => policy_from_revoked_list(raw.as_str()),
        None => {
            proof {
                lemma_empty_list();
            }
            let p: Policy = Policy::default();
            assert(texts(p.revoked_ids@) =~= Seq::<Seq<char>>::empty());
            p
        },
    }
}

/// The revoked-servers policy of this process: the variable's list where
/// it is set, otherwise the file's, otherwise empty.
pub fn revoked_policy(env: &Option<String>, file: &Option<String>) -> (p: Policy)
    ensures
        revokes(p, entries(split_text(list_in_force(held(*env), held(*file)), ','))),
{
    if let Some(raw) = env {
        if !trim(raw.as_str()).as_str().is_empty() {
            return policy_from_revoked_list(raw.as_str());
        }
    }
    match file {
        Some(raw) => policy_from_revoked_list(raw.as_str()),
        None => {
            proof {
                lemma_empty_list();
            }
            let p: Policy = Policy::default();
            assert(texts(p.revoked_ids@) =~= Seq::<Seq<char>>::empty());
            p
        },
    }
}

// ---------------------------------------------------------------------
// Laws
// ---------------------------------------------------------------------

/// A list that holds nothing but commas and white space revokes nobody.
pub proof fn blank_list_revokes_nobody(raw: Seq<char>, p: Policy, id: Seq<char>)
    requires
        forall|i: int|
            0 <= i < split_text(raw, ',').len() ==> trimmed(#[trigger] split_text(raw, ',')[i]).len()
                == 0,
        revokes(p, entries(split_text(raw, ','))),
    ensures
        !barred(p.revoked_ids@, id),
{
    lemma_blank_entries(split_text(raw, ','));
    assert(p.revoked_ids@.len() == texts(p.revoked_ids@).len());
}

proof fn lemma_blank_entries(pieces: Seq<Seq<char>>)
    requires
        forall|i: int| 0 <= i < pieces.len() ==> trimmed(#[trigger] pieces[i]).len() == 0,
    ensures
        entries(pieces).len() == 0,
    decreases pieces.len(),
{
    if pieces.len() > 0 {
        let init = pieces.drop_last();
        assert forall|i: int| 0 <= i < init.len() implies trimmed(#[trigger] init[i]).len() == 0 by {
            assert(init[i] == pieces[i]);
        }
        lemma_blank_entries(init);
        assert(pieces.last() == pieces[pieces.len() - 1]);
    }
}

/// The variable wins over the file: while it holds a list, the file
/// decides nothing.
pub proof fn variable_wins(raw: Seq<char>, file: Option<Seq<char>>, other: Option<Seq<char>>)
    requires
        trimmed(raw).len() > 0,
    ensures
        list_in_force(Some(raw), file) == raw,
        list_in_force(Some(raw), file) == list_in_force(Some(raw), other),
{
}

} // verus!
