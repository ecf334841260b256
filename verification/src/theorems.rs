//! What holds of the memo list over whole runs of submits and deletes.

use vstd::prelude::*;
use crate::book::{
    delete_entry, distinct_ids, has_id, increasing_local_ids, lemma_delete_push, lemma_has_id,
    lemma_next_local_id_follows_last, lemma_next_local_id_is_fresh, lemma_position_is,
    lemma_position_of_id, next_local_id, position_of_id, submit_entry, well_formed,
};
use crate::entry::EntryView;

verus! {

/// One filled-in form: the three fields as they stand when it is submitted.
pub struct Submission {
    pub id: Seq<char>,
    pub name: Seq<char>,
    pub description: Seq<char>,
}

/// The list after the submissions `forms`, made in order on `entries`.
pub open spec fn submit_all(entries: Seq<EntryView>, forms: Seq<Submission>) -> Seq<EntryView>
    decreases forms.len(),
{
    if forms.len() == 0 {
        entries
    } else {
        let last = forms.last();
        submit_entry(submit_all(entries, forms.drop_last()), last.id, last.name, last.description)
    }
}

/// The identifiers that occur among `forms`.
pub open spec fn submitted_ids(forms: Seq<Submission>) -> Set<Seq<char>> {
    forms.map_values(|f: Submission| f.id).to_set()
}

/// Whether the identifier `earlier` is submitted among `forms` before the
/// identifier `later` ever is.
pub open spec fn submitted_before(
    forms: Seq<Submission>,
    earlier: Seq<char>,
    later: Seq<char>,
) -> bool {
    exists|k: int|
        0 <= k < forms.len() && (#[trigger] forms[k]).id == earlier && forall|m: int|
            0 <= m <= k ==> (#[trigger] forms[m]).id != later
}

/// An identifier is among `submitted_ids` exactly when some submission has
/// it.
pub proof fn lemma_submitted_ids(forms: Seq<Submission>, id: Seq<char>)
    ensures
        submitted_ids(forms).contains(id) <==> exists|k: int|
            0 <= k < forms.len() && (#[trigger] forms[k]).id == id,
{
    let ids = forms.map_values(|f: Submission| f.id);
    if submitted_ids(forms).contains(id) {
        let k = choose|k: int| 0 <= k < ids.len() && ids[k] == id;
        assert(forms[k].id == id);
    }
    if exists|k: int| 0 <= k < forms.len() && (#[trigger] forms[k]).id == id {
        let k = choose|k: int| 0 <= k < forms.len() && (#[trigger] forms[k]).id == id;
        assert(ids[k] == id);
    }
}

/// A submit changes no identifier and no row key of an entry that is already
/// in the list, and keeps the entries in their places.
pub proof fn lemma_submit_keeps_keys(
    entries: Seq<EntryView>,
    id: Seq<char>,
    name: Seq<char>,
    description: Seq<char>,
)
    ensures
        entries.len() <= submit_entry(entries, id, name, description).len() <= entries.len() + 1,
        forall|i: int|
            0 <= i < entries.len() ==> (#[trigger] submit_entry(entries, id, name, description)[i]).id
                == entries[i].id && submit_entry(entries, id, name, description)[i].local_id
                == entries[i].local_id,
        forall|i: int|
            0 <= i < entries.len() && entries[i].id != id ==> #[trigger] submit_entry(
                entries,
                id,
                name,
                description,
            )[i] == entries[i],
{
    lemma_position_of_id(entries, id);
}

/// A submit keeps identifiers unique, and keeps row keys growing along the
/// list.
pub proof fn lemma_submit_keeps_well_formed(
    entries: Seq<EntryView>,
    id: Seq<char>,
    name: Seq<char>,
    description: Seq<char>,
)
    ensures
        distinct_ids(entries) ==> distinct_ids(submit_entry(entries, id, name, description)),
        increasing_local_ids(entries) ==> increasing_local_ids(
            submit_entry(entries, id, name, description),
        ),
        well_formed(entries) ==> well_formed(submit_entry(entries, id, name, description)),
{
    let after = submit_entry(entries, id, name, description);
    lemma_position_of_id(entries, id);
    lemma_next_local_id_is_fresh(entries);
    lemma_submit_keeps_keys(entries, id, name, description);
    if distinct_ids(entries) {
        assert forall|i: int, j: int| 0 <= i < j < after.len() implies (#[trigger] after[i]).id != (
        #[trigger] after[j]).id by {
            if j < entries.len() {
                assert(entries[i].id != entries[j].id);
            } else {
                assert(entries[i].id != id);
            }
        }
    }
    if increasing_local_ids(entries) {
        assert forall|i: int, j: int| 0 <= i < j < after.len() implies (#[trigger] after[i]).local_id
            < (#[trigger] after[j]).local_id by {
            if j < entries.len() {
                assert(entries[i].local_id < entries[j].local_id);
            } else {
                assert(entries[i].local_id < next_local_id(entries));
            }
        }
    }
}

/// Submitting one identifier twice leaves exactly one entry with it: the
/// entry that the first submit made or updated, under the row key it had
/// then, with the name and description of the second submit. The list is as
/// long as after the first submit.
pub proof fn lemma_submit_twice(
    entries: Seq<EntryView>,
    id: Seq<char>,
    first_name: Seq<char>,
    first_description: Seq<char>,
    second_name: Seq<char>,
    second_description: Seq<char>,
)
    requires
        distinct_ids(entries),
        id.len() > 0,
    ensures
        ({
            let once = submit_entry(entries, id, first_name, first_description);
            let twice = submit_entry(once, id, second_name, second_description);
            let at = position_of_id(once, id);
            &&& 0 <= at < once.len()
            &&& twice.len() == once.len()
            &&& twice[at] == (EntryView {
                local_id: once[at].local_id,
                id,
                name: second_name,
                description: second_description,
            })
            &&& forall|i: int| 0 <= i < twice.len() && i != at ==> twice[i] == once[i] && (
            #[trigger] twice[i]).id != id
        }),
{
    let once = submit_entry(entries, id, first_name, first_description);
    let twice = submit_entry(once, id, second_name, second_description);
    lemma_position_of_id(entries, id);
    lemma_submit_keeps_well_formed(entries, id, first_name, first_description);
    let at0 = position_of_id(entries, id);
    assert(once[at0].id == id);
    assert forall|j: int| 0 <= j < at0 implies (#[trigger] once[j]).id != id by {
        assert(entries[j].id != id);
    }
    lemma_position_is(once, id, at0);
    let at = position_of_id(once, id);
    assert forall|i: int| 0 <= i < twice.len() && i != at implies twice[i] == once[i] && (
    #[trigger] twice[i]).id != id by {
        if i < at {
            assert(once[i].id != once[at].id);
        } else {
            assert(once[at].id != once[i].id);
        }
    }
}

/// Submits with non-empty identifiers, made in order on the empty list,
/// leave one entry for each identifier that was submitted, and no other.
/// The entries stand in the order in which their identifiers were first
/// submitted, and their row keys count up from 0 in that order.
pub proof fn lemma_submit_all_from_empty(forms: Seq<Submission>)
    requires
        forall|k: int| 0 <= k < forms.len() ==> (#[trigger] forms[k]).id.len() > 0,
    ensures
        ({
            let list = submit_all(Seq::empty(), forms);
            &&& list.len() == submitted_ids(forms).len()
            &&& well_formed(list)
            &&& forall|i: int| 0 <= i < list.len() ==> (#[trigger] list[i]).local_id == i
            &&& forall|id: Seq<char>| #[trigger]
                has_id(list, id) <==> submitted_ids(forms).contains(id)
            &&& forall|i: int, j: int|
                0 <= i < j < list.len() ==> submitted_before(
                    forms,
                    (#[trigger] list[i]).id,
                    (#[trigger] list[j]).id,
                )
        }),
    decreases forms.len(),
{
    let list = submit_all(Seq::empty(), forms);
    if forms.len() == 0 {
        assert(submitted_ids(forms) == Set::<Seq<char>>::empty()) by {
            assert forall|id: Seq<char>| !submitted_ids(forms).contains(id) by {
                lemma_submitted_ids(forms, id);
            }
        }
        assert forall|id: Seq<char>| #[trigger] has_id(list, id) <==> submitted_ids(forms).contains(id) by {
            lemma_has_id(list, id);
        }
    } else {
        let before = forms.drop_last();
        let last = forms.last();
        let old_list = submit_all(Seq::empty(), before);
        assert forall|k: int| 0 <= k < before.len() implies (#[trigger] before[k]).id.len() > 0 by {
            assert(before[k] == forms[k]);
        }
        lemma_submit_all_from_empty(before);
        assert(list == submit_entry(old_list, last.id, last.name, last.description));

        let ids_before = before.map_values(|f: Submission| f.id);
        assert(forms.map_values(|f: Submission| f.id) == ids_before.push(last.id));
        ids_before.lemma_push_to_set_commute(last.id);
        vstd::seq_lib::seq_to_set_is_finite(ids_before);
        vstd::set::axiom_set_insert_len(submitted_ids(before), last.id);
        assert(submitted_ids(forms) == submitted_ids(before).insert(last.id));

        lemma_position_of_id(old_list, last.id);
        lemma_submit_keeps_keys(old_list, last.id, last.name, last.description);
        lemma_submit_keeps_well_formed(old_list, last.id, last.name, last.description);
        assert(has_id(old_list, last.id) <==> submitted_ids(before).contains(last.id));

        if !has_id(old_list, last.id) {
            if old_list.len() > 0 {
                lemma_next_local_id_follows_last(old_list);
            }
            assert(list[old_list.len() as int].local_id == old_list.len());
        }
        assert forall|id: Seq<char>| #[trigger] has_id(list, id) <==> submitted_ids(forms).contains(id) by {
            lemma_has_id(list, id);
            lemma_has_id(old_list, id);
            assert(has_id(old_list, id) <==> submitted_ids(before).contains(id));
            if has_id(old_list, id) {
                let i = choose|i: int| 0 <= i < old_list.len() && (#[trigger] old_list[i]).id == id;
                assert(list[i].id == id);
            }
            if has_id(list, id) {
                let i = choose|i: int| 0 <= i < list.len() && (#[trigger] list[i]).id == id;
                if i < old_list.len() {
                    assert(old_list[i].id == id);
                }
            }
            if id == last.id {
                if has_id(old_list, last.id) {
                } else {
                    assert(list[old_list.len() as int].id == id);
                }
            }
        }
        assert forall|i: int, j: int| 0 <= i < j < list.len() implies submitted_before(
            forms,
            (#[trigger] list[i]).id,
            (#[trigger] list[j]).id,
        ) by {
            if j < old_list.len() {
                assert(submitted_before(before, old_list[i].id, old_list[j].id));
                let k = choose|k: int|
                    0 <= k < before.len() && (#[trigger] before[k]).id == old_list[i].id && forall|
                        m: int,
                    |
                        0 <= m <= k ==> (#[trigger] before[m]).id != old_list[j].id;
                assert(forms[k] == before[k]);
                assert forall|m: int| 0 <= m <= k implies (#[trigger] forms[m]).id != list[j].id by {
                    assert(forms[m] == before[m]);
                }
            } else {
                lemma_has_id(old_list, old_list[i].id);
                assert(has_id(old_list, old_list[i].id));
                assert(submitted_ids(before).contains(old_list[i].id));
                lemma_submitted_ids(before, old_list[i].id);
                let k = choose|k: int| 0 <= k < before.len() && (#[trigger] before[k]).id == old_list[i].id;
                assert(forms[k] == before[k]);
                assert forall|m: int| 0 <= m <= k implies (#[trigger] forms[m]).id != list[j].id by {
                    assert(forms[m] == before[m]);
                    lemma_submitted_ids(before, last.id);
                }
            }
        }
    }
}

/// Submits of identifiers that are non-empty and all different, made in
/// order on the empty list, leave as many entries as there were submits: the
/// entry at each index holds what was submitted at that index, under the
/// index as its row key.
pub proof fn lemma_submit_distinct_from_empty(forms: Seq<Submission>)
    requires
        forall|k: int| 0 <= k < forms.len() ==> (#[trigger] forms[k]).id.len() > 0,
        forall|k: int, m: int|
            0 <= k < m < forms.len() ==> (#[trigger] forms[k]).id != (#[trigger] forms[m]).id,
    ensures
        submit_all(Seq::empty(), forms).len() == forms.len(),
        forall|i: int|
            0 <= i < forms.len() ==> #[trigger] submit_all(Seq::empty(), forms)[i] == (EntryView {
                local_id: i as nat,
                id: forms[i].id,
                name: forms[i].name,
                description: forms[i].description,
            }),
    decreases forms.len(),
{
    if forms.len() > 0 {
        let before = forms.drop_last();
        let last = forms.last();
        let old_list = submit_all(Seq::empty(), before);
        assert forall|k: int| 0 <= k < before.len() implies (#[trigger] before[k]).id.len() > 0 by {
            assert(before[k] == forms[k]);
        }
        assert forall|k: int, m: int| 0 <= k < m < before.len() implies (#[trigger] before[k]).id != (
        #[trigger] before[m]).id by {
            assert(before[k] == forms[k]);
            assert(before[m] == forms[m]);
        }
        lemma_submit_distinct_from_empty(before);
        lemma_submit_all_from_empty(before);
        assert forall|i: int| 0 <= i < old_list.len() implies (#[trigger] old_list[i]).id
            != last.id by {
            assert(before[i] == forms[i]);
            assert(forms[i].id != forms[forms.len() - 1].id);
        }
        lemma_position_is(old_list, last.id, old_list.len() as int);
        if old_list.len() > 0 {
            lemma_next_local_id_follows_last(old_list);
        }
        let list = submit_all(Seq::empty(), forms);
        assert(list == old_list.push(
            EntryView {
                local_id: old_list.len(),
                id: last.id,
                name: last.name,
                description: last.description,
            },
        ));
        assert forall|i: int| 0 <= i < forms.len() implies #[trigger] list[i] == (EntryView {
            local_id: i as nat,
            id: forms[i].id,
            name: forms[i].name,
            description: forms[i].description,
        }) by {
            if i < old_list.len() {
                assert(list[i] == old_list[i]);
                assert(before[i] == forms[i]);
            }
        }
    }
}

/// Deleting a row key that no entry has changes nothing.
pub proof fn lemma_delete_absent(entries: Seq<EntryView>, local_id: nat)
    requires
        forall|i: int| 0 <= i < entries.len() ==> (#[trigger] entries[i]).local_id != local_id,
    ensures
        delete_entry(entries, local_id) == entries,
    decreases entries.len(),
{
    if entries.len() == 0 {
        reveal(Seq::filter);
    } else {
        let front = entries.drop_last();
        assert forall|i: int| 0 <= i < front.len() implies (#[trigger] front[i]).local_id
            != local_id by {
            assert(front[i] == entries[i]);
        }
        lemma_delete_absent(front, local_id);
        assert(entries == front.push(entries.last()));
        lemma_delete_push(front, entries.last(), local_id);
    }
}

/// Deleting the row key of the entry at `at`, which no other entry has,
/// removes that entry and nothing else: the entries before it and after it
/// stay as they are, in their order.
pub proof fn lemma_delete_present(entries: Seq<EntryView>, local_id: nat, at: int)
    requires
        0 <= at < entries.len(),
        entries[at].local_id == local_id,
        forall|i: int|
            0 <= i < entries.len() && i != at ==> (#[trigger] entries[i]).local_id != local_id,
    ensures
        delete_entry(entries, local_id) == entries.remove(at),
    decreases entries.len(),
{
    let front = entries.drop_last();
    let last = entries.last();
    assert(entries == front.push(last));
    lemma_delete_push(front, last, local_id);
    if at == entries.len() - 1 {
        assert forall|i: int| 0 <= i < front.len() implies (#[trigger] front[i]).local_id
            != local_id by {
            assert(front[i] == entries[i]);
        }
        lemma_delete_absent(front, local_id);
        assert(entries.remove(at) == front);
    } else {
        assert(front[at] == entries[at]);
        assert forall|i: int| 0 <= i < front.len() && i != at implies (#[trigger] front[i]).local_id
            != local_id by {
            assert(front[i] == entries[i]);
        }
        lemma_delete_present(front, local_id, at);
        assert(entries.remove(at) == front.remove(at).push(last));
    }
}

/// On a list whose row keys grow along it, a delete removes at most one
/// entry: the one with that row key if there is one.
pub proof fn lemma_delete_removes_one(entries: Seq<EntryView>, local_id: nat)
    requires
        increasing_local_ids(entries),
    ensures
        (exists|at: int| 0 <= at < entries.len() && (#[trigger] entries[at]).local_id == local_id)
            ==> exists|at: int|
            0 <= at < entries.len() && (#[trigger] entries[at]).local_id == local_id
                && delete_entry(entries, local_id) == entries.remove(at),
        (forall|at: int| 0 <= at < entries.len() ==> (#[trigger] entries[at]).local_id != local_id)
            ==> delete_entry(entries, local_id) == entries,
{
    if exists|at: int| 0 <= at < entries.len() && (#[trigger] entries[at]).local_id == local_id {
        let at = choose|at: int| 0 <= at < entries.len() && (#[trigger] entries[at]).local_id == local_id;
        assert forall|i: int| 0 <= i < entries.len() && i != at implies (#[trigger] entries[i]).local_id
            != local_id by {
            if i < at {
                assert(entries[i].local_id < entries[at].local_id);
            } else {
                assert(entries[at].local_id < entries[i].local_id);
            }
        }
        lemma_delete_present(entries, local_id, at);
    } else {
        lemma_delete_absent(entries, local_id);
    }
}

/// A delete keeps identifiers unique, and keeps row keys growing along the
/// list.
pub proof fn lemma_delete_keeps_well_formed(entries: Seq<EntryView>, local_id: nat)
    ensures
        distinct_ids(entries) ==> distinct_ids(delete_entry(entries, local_id)),
        increasing_local_ids(entries) ==> increasing_local_ids(delete_entry(entries, local_id)),
        well_formed(entries) ==> well_formed(delete_entry(entries, local_id)),
    decreases entries.len(),
{
    if entries.len() == 0 {
        reveal(Seq::filter);
    } else {
        let front = entries.drop_last();
        let last = entries.last();
        let kept = delete_entry(front, local_id);
        assert(entries == front.push(last));
        lemma_delete_push(front, last, local_id);
        lemma_delete_keeps_well_formed(front, local_id);
        lemma_kept_come_from(front, local_id);
        if distinct_ids(entries) {
            assert forall|i: int, j: int| 0 <= i < j < front.len() implies (#[trigger] front[i]).id
                != (#[trigger] front[j]).id by {
                assert(entries[i].id != entries[j].id);
            }
            let after = delete_entry(entries, local_id);
            assert forall|i: int, j: int| 0 <= i < j < after.len() implies (#[trigger] after[i]).id
                != (#[trigger] after[j]).id by {
                if j == kept.len() {
                    let from = choose|from: int| 0 <= from < front.len() && front[from] == kept[i];
                    assert(entries[from].id != entries[entries.len() - 1].id);
                }
            }
        }
        if increasing_local_ids(entries) {
            assert forall|i: int, j: int| 0 <= i < j < front.len() implies (
            #[trigger] front[i]).local_id < (#[trigger] front[j]).local_id by {
                assert(entries[i].local_id < entries[j].local_id);
            }
            let after = delete_entry(entries, local_id);
            assert forall|i: int, j: int| 0 <= i < j < after.len() implies (
            #[trigger] after[i]).local_id < (#[trigger] after[j]).local_id by {
                if j == kept.len() {
                    let from = choose|from: int| 0 <= from < front.len() && front[from] == kept[i];
                    assert(entries[from].local_id < entries[entries.len() - 1].local_id);
                }
            }
        }
    }
}

/// Every entry that a delete keeps was in the list, and has another row key.
pub proof fn lemma_kept_come_from(entries: Seq<EntryView>, local_id: nat)
    ensures
        forall|i: int|
            0 <= i < delete_entry(entries, local_id).len() ==> (#[trigger] delete_entry(
                entries,
                local_id,
            )[i]).local_id != local_id && exists|from: int|
                0 <= from < entries.len() && entries[from] == delete_entry(entries, local_id)[i],
    decreases entries.len(),
{
    if entries.len() == 0 {
        reveal(Seq::filter);
    } else {
        let front = entries.drop_last();
        let last = entries.last();
        let kept = delete_entry(front, local_id);
        let after = delete_entry(entries, local_id);
        assert(entries == front.push(last));
        lemma_delete_push(front, last, local_id);
        lemma_kept_come_from(front, local_id);
        assert forall|i: int| 0 <= i < after.len() implies (#[trigger] after[i]).local_id != local_id
            && exists|from: int| 0 <= from < entries.len() && entries[from] == after[i] by {
            if i < kept.len() {
                assert(after[i] == kept[i]);
                let from = choose|from: int| 0 <= from < front.len() && front[from] == kept[i];
                assert(entries[from] == after[i]);
            } else {
                assert(entries[entries.len() - 1] == after[i]);
            }
        }
    }
}

} // verus!
