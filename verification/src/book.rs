//! The memo list as a mathematical sequence: what adding, updating and
//! deleting mean, and the order that the list keeps.

use vstd::prelude::*;
use crate::entry::EntryView;

verus! {

/// The index of the first entry whose identifier is `id`, or the length of
/// the list when no entry has it.
pub open spec fn position_of_id(entries: Seq<EntryView>, id: Seq<char>) -> int
    decreases entries.len(),
{
    if entries.len() == 0 {
        0
    } else if entries.first().id == id {
        0
    } else {
        1 + position_of_id(entries.drop_first(), id)
    }
}

/// Whether some entry has the identifier `id`.
pub open spec fn has_id(entries: Seq<EntryView>, id: Seq<char>) -> bool {
    position_of_id(entries, id) < entries.len()
}

/// The row key that the next new entry gets: one more than the largest row
/// key in the list, and 0 for the empty list.
pub open spec fn next_local_id(entries: Seq<EntryView>) -> nat
    decreases entries.len(),
{
    if entries.len() == 0 {
        0
    } else {
        let before = next_local_id(entries.drop_last());
        let here = entries.last().local_id + 1;
        if before >= here {
            before
        } else {
            here
        }
    }
}

/// The list after a submit of `(id, name, description)`.
///
/// An empty `id` changes nothing. An `id` that the list holds overwrites the
/// name and description of the first entry that has it. Any other `id` is
/// appended under a fresh row key.
pub open spec fn submit_entry(
    entries: Seq<EntryView>,
    id: Seq<char>,
    name: Seq<char>,
    description: Seq<char>,
) -> Seq<EntryView> {
    let at = position_of_id(entries, id);
    if id.len() == 0 {
        entries
    } else if at < entries.len() {
        entries.update(at, EntryView { name, description, ..entries[at] })
    } else {
        entries.push(EntryView { local_id: next_local_id(entries), id, name, description })
    }
}

/// The test that a delete of `local_id` applies: an entry stays when its row
/// key is another one.
pub open spec fn survives(local_id: nat) -> spec_fn(EntryView) -> bool {
    |e: EntryView| e.local_id != local_id
}

/// The list without the entries whose row key is `local_id`.
pub open spec fn delete_entry(entries: Seq<EntryView>, local_id: nat) -> Seq<EntryView> {
    entries.filter(survives(local_id))
}

/// No two entries share an identifier.
pub open spec fn distinct_ids(entries: Seq<EntryView>) -> bool {
    forall|i: int, j: int|
        0 <= i < j < entries.len() ==> (#[trigger] entries[i]).id != (#[trigger] entries[j]).id
}

/// Row keys grow strictly from the front of the list to its back.
pub open spec fn increasing_local_ids(entries: Seq<EntryView>) -> bool {
    forall|i: int, j: int|
        0 <= i < j < entries.len() ==> (#[trigger] entries[i]).local_id
            < (#[trigger] entries[j]).local_id
}

/// The invariant of a memo list: identifiers are unique, and row keys are
/// unique and follow the order of insertion.
pub open spec fn well_formed(entries: Seq<EntryView>) -> bool {
    distinct_ids(entries) && increasing_local_ids(entries)
}

/// `position_of_id` points at the first entry with the identifier, and past
/// the end exactly when there is none.
pub proof fn lemma_position_of_id(entries: Seq<EntryView>, id: Seq<char>)
    ensures
        0 <= position_of_id(entries, id) <= entries.len(),
        forall|j: int| 0 <= j < position_of_id(entries, id) ==> (#[trigger] entries[j]).id != id,
        has_id(entries, id) ==> entries[position_of_id(entries, id)].id == id,
    decreases entries.len(),
{
    if entries.len() > 0 && entries.first().id != id {
        let rest = entries.drop_first();
        lemma_position_of_id(rest, id);
        assert forall|j: int| 0 <= j < position_of_id(entries, id) implies (#[trigger] entries[j]).id
            != id by {
            if j > 0 {
                assert(entries[j] == rest[j - 1]);
            }
        }
    }
}

/// An index with the identifier, before which no entry has it, is
/// `position_of_id`; so is the length when no entry has it.
pub proof fn lemma_position_is(entries: Seq<EntryView>, id: Seq<char>, at: int)
    requires
        0 <= at <= entries.len(),
        forall|j: int| 0 <= j < at ==> (#[trigger] entries[j]).id != id,
        at < entries.len() ==> entries[at].id == id,
    ensures
        position_of_id(entries, id) == at,
    decreases entries.len(),
{
    if entries.len() > 0 {
        if entries.first().id == id {
            if at > 0 {
                assert(entries[0].id != id);
            }
        } else {
            let rest = entries.drop_first();
            assert forall|j: int| 0 <= j < at - 1 implies (#[trigger] rest[j]).id != id by {
                assert(rest[j] == entries[j + 1]);
            }
            lemma_position_is(rest, id, at - 1);
        }
    }
}

/// `has_id` holds exactly when some entry has the identifier.
pub proof fn lemma_has_id(entries: Seq<EntryView>, id: Seq<char>)
    ensures
        has_id(entries, id) <==> exists|i: int|
            0 <= i < entries.len() && (#[trigger] entries[i]).id == id,
{
    lemma_position_of_id(entries, id);
    if has_id(entries, id) {
        assert(entries[position_of_id(entries, id)].id == id);
    }
}

/// Every row key in the list is below `next_local_id`.
pub proof fn lemma_next_local_id_is_fresh(entries: Seq<EntryView>)
    ensures
        forall|i: int| 0 <= i < entries.len() ==> (#[trigger] entries[i]).local_id < next_local_id(entries),
    decreases entries.len(),
{
    if entries.len() > 0 {
        let front = entries.drop_last();
        lemma_next_local_id_is_fresh(front);
        assert forall|i: int| 0 <= i < entries.len() implies (#[trigger] entries[i]).local_id
            < next_local_id(entries) by {
            if i < entries.len() - 1 {
                assert(entries[i] == front[i]);
            }
        }
    }
}

/// On a non-empty list some entry's row key is `next_local_id` less one.
pub proof fn lemma_next_local_id_is_reached(entries: Seq<EntryView>)
    requires
        entries.len() > 0,
    ensures
        exists|i: int| 0 <= i < entries.len() && (#[trigger] entries[i]).local_id + 1 == next_local_id(entries),
    decreases entries.len(),
{
    let front = entries.drop_last();
    let last = entries.len() - 1;
    if next_local_id(front) >= entries.last().local_id + 1 {
        if front.len() == 0 {
            assert(entries[last].local_id + 1 == next_local_id(entries));
        } else {
            lemma_next_local_id_is_reached(front);
            let i = choose|i: int| 0 <= i < front.len() && (#[trigger] front[i]).local_id + 1 == next_local_id(front);
            assert(entries[i] == front[i]);
        }
    } else {
        assert(entries[last].local_id + 1 == next_local_id(entries));
    }
}

/// Where row keys grow along the list, the next row key is the last one
/// plus one.
pub proof fn lemma_next_local_id_follows_last(entries: Seq<EntryView>)
    requires
        entries.len() > 0,
        increasing_local_ids(entries),
    ensures
        next_local_id(entries) == entries.last().local_id + 1,
{
    lemma_next_local_id_is_fresh(entries);
    lemma_next_local_id_is_reached(entries);
    let i = choose|i: int| 0 <= i < entries.len() && (#[trigger] entries[i]).local_id + 1 == next_local_id(entries);
    let last = entries.len() - 1;
    assert(entries[last].local_id < next_local_id(entries));
    if i < last {
        assert(entries[i].local_id < entries[last].local_id);
    }
}

/// A delete on a list with one more entry at its back keeps or drops that
/// entry by its row key, and treats the entries before it as it did.
pub proof fn lemma_delete_push(entries: Seq<EntryView>, last: EntryView, local_id: nat)
    ensures
        delete_entry(entries.push(last), local_id) == if last.local_id != local_id {
            delete_entry(entries, local_id).push(last)
        } else {
            delete_entry(entries, local_id)
        },
{
    entries.lemma_filter_push(last, survives(local_id));
}

} // verus!
