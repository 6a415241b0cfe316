//! Editing the machine-id lists of the `[network]` section.
//!
//! Id lists match by prefix: an entry may be a full id or its short form.
//! So a removal must drop every form of an id, not just its exact string.
use vstd::prelude::*;
use vstd::string::*;
use vstd::utf8::*;

use crate::server::policy::{barred, id_matches, listed, related, MIN_ID_ENTRY};

verus! {

/// The entries of a list that do not name the machine `id`.
pub open spec fn others(list: Seq<String>, id: Seq<char>) -> Seq<String> {
    list.filter(|e: String| !related(e@, id))
}

/// Add `id` to the list (when `on`) or remove every form of it (when not).
/// A form of `id` that is already there is replaced; other entries stay,
/// in their order.
pub fn set_id(list: &Vec<String>, id: &str, on: bool) -> (r: Vec<String>)
    ensures
        on ==> r@.len() == others(list@, id@).len() + 1 && r@.drop_last() == others(list@, id@)
            && r@.last()@ == id@,
        !on ==> r@ == others(list@, id@),
{
    let ghost keep = |e: String| !related(e@, id@);
    let mut kept: Vec<String> = Vec::new();
    let mut i: usize = 0;
    proof {
        reveal(Seq::filter);
        assert(list@.take(0) =~= Seq::<String>::empty());
    }
    while i < list.len()
        invariant
            i <= list@.len(),
            keep == (|e: String| !related(e@, id@)),
            kept@ == list@.take(i as int).filter(keep),
        decreases list@.len() - i,
    {
        proof {
            reveal(Seq::filter);
            assert(list@.take(i + 1).drop_last() =~= list@.take(i as int));
            assert(list@.take(i + 1).last() == list@[i as int]);
        }
        if !(id_matches(list[i].as_str(), id) || id_matches(id, list[i].as_str())) {
            kept.push(list[i].clone());
        }
        i += 1;
    }
    assert(list@.take(i as int) =~= list@);
    if on {
        let ghost before = kept@;
        kept.push(id.to_owned());
        assert(kept@.drop_last() =~= before);
    }
    kept
}

// ---------------------------------------------------------------------
// Laws
// ---------------------------------------------------------------------

/// The list after `id` was added or removed.
pub open spec fn edited(list: Seq<String>, id: String, on: bool) -> Seq<String> {
    if on {
        others(list, id@).push(id)
    } else {
        others(list, id@)
    }
}

proof fn lemma_others(list: Seq<String>, id: Seq<char>)
    ensures
        forall|i: int|
            0 <= i < others(list, id).len() ==> !related((#[trigger] others(list, id)[i])@, id),
{
    let keep = |e: String| !related(e@, id);
    assert forall|i: int| 0 <= i < others(list, id).len() implies !related(
        (#[trigger] others(list, id)[i])@,
        id,
    ) by {
        list.lemma_filter_pred(keep, i);
    }
}

/// A list that holds no form of an id is not changed by removing it.
proof fn lemma_nothing_to_drop(list: Seq<String>, id: Seq<char>)
    requires
        forall|i: int| 0 <= i < list.len() ==> !related((#[trigger] list[i])@, id),
    ensures
        others(list, id) == list,
    decreases list.len(),
{
    reveal(Seq::filter);
    if list.len() > 0 {
        let init = list.drop_last();
        assert forall|i: int| 0 <= i < init.len() implies !related((#[trigger] init[i])@, id) by {
            assert(init[i] == list[i]);
        }
        lemma_nothing_to_drop(init, id);
        assert(list.last() == list[list.len() - 1]);
        assert(init.push(list.last()) =~= list);
    }
}

/// Adding an id twice is the same as adding it once.
pub proof fn adding_is_idempotent(list: Seq<String>, id: String)
    requires
        encode_utf8(id@).len() >= MIN_ID_ENTRY,
    ensures
        edited(edited(list, id, true), id, true) == edited(list, id, true),
{
    lemma_others(list, id@);
    let kept = others(list, id@);
    lemma_nothing_to_drop(kept, id@);
    reveal(Seq::filter);
    let once = kept.push(id);
    assert(once.drop_last() =~= kept);
    assert(id@ =~= id@.subrange(0, id@.len() as int));
    assert(related(id@, id@));
    assert(others(once, id@) =~= kept);
}

/// Adding an id leaves exactly one form of it in the list: the one that
/// was added.
pub proof fn adding_leaves_one_form(list: Seq<String>, id: String, i: int)
    requires
        0 <= i < edited(list, id, true).len(),
        related(edited(list, id, true)[i]@, id@),
    ensures
        i == edited(list, id, true).len() - 1,
        edited(list, id, true)[i] == id,
{
    lemma_others(list, id@);
}

/// Removing an id leaves no form of it: afterwards the machine is not
/// listed, under its full id or under the form that was removed.
pub proof fn removing_drops_every_form(list: Seq<String>, id: String)
    ensures
        forall|i: int|
            0 <= i < edited(list, id, false).len() ==> !related(
                (#[trigger] edited(list, id, false)[i])@,
                id@,
            ),
        !listed(edited(list, id, false), id@),
        !barred(edited(list, id, false), id@),
{
    lemma_others(list, id@);
}

/// Entries that do not name the machine are untouched: each stays in the
/// list, whether the id is added or removed.
pub proof fn unrelated_entries_stay(list: Seq<String>, id: String, on: bool, k: int)
    requires
        0 <= k < list.len(),
        !related(list[k]@, id@),
    ensures
        edited(list, id, on).contains(list[k]),
{
    let keep = |e: String| !related(e@, id@);
    list.lemma_filter_contains(keep, k);
    let j = choose|j: int| 0 <= j < others(list, id@).len() && others(list, id@)[j] == list[k];
    assert(edited(list, id, on)[j] == list[k]);
}

} // verus!
