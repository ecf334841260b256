//! The memo book itself: the list, the three pending form fields and the
//! flag that asks for keyboard focus.

use vstd::prelude::*;
use crate::book::{
    delete_entry, has_id, lemma_delete_push, lemma_position_is, lemma_position_of_id,
    next_local_id, position_of_id, submit_entry, well_formed,
};
use crate::entry::{entry_views, EntryView, MemoEntry};
use crate::theorems::{lemma_delete_keeps_well_formed, lemma_submit_keeps_well_formed};

verus! {

/// What a [`Memo`] stands for in contracts.
#[verifier::ext_equal]
pub struct MemoView {
    /// The entries, in insertion order.
    pub entries: Seq<EntryView>,
    /// Whether the identifier field should take keyboard focus when it is
    /// next shown.
    pub focus: bool,
    pub pending_id: Seq<char>,
    pub pending_name: Seq<char>,
    pub pending_description: Seq<char>,
}

impl MemoView {
    /// The book with no entry, nothing pending and no focus request.
    pub open spec fn empty() -> MemoView {
        MemoView::holding(Seq::empty())
    }

    /// The book that holds `entries`, with nothing pending and no focus
    /// request.
    pub open spec fn holding(entries: Seq<EntryView>) -> MemoView {
        MemoView {
            entries,
            focus: false,
            pending_id: Seq::empty(),
            pending_name: Seq::empty(),
            pending_description: Seq::empty(),
        }
    }

    /// Whether a submit of the pending fields would append a new entry.
    pub open spec fn submit_appends(self) -> bool {
        self.pending_id.len() > 0 && !has_id(self.entries, self.pending_id)
    }

    /// Whether the row key that a submit would assign fits the machine word.
    pub open spec fn can_submit(self) -> bool {
        self.submit_appends() ==> next_local_id(self.entries) <= usize::MAX
    }

    /// The book after a submit: with an empty pending identifier nothing
    /// changes; otherwise the list takes the pending fields and all three are
    /// cleared.
    pub open spec fn submitted(self) -> MemoView {
        if self.pending_id.len() == 0 {
            self
        } else {
            MemoView {
                entries: submit_entry(
                    self.entries,
                    self.pending_id,
                    self.pending_name,
                    self.pending_description,
                ),
                focus: self.focus,
                pending_id: Seq::empty(),
                pending_name: Seq::empty(),
                pending_description: Seq::empty(),
            }
        }
    }

    /// The book after the entries with row key `local_id` are deleted.
    pub open spec fn deleted(self, local_id: nat) -> MemoView {
        MemoView { entries: delete_entry(self.entries, local_id), ..self }
    }

    /// Whether the keys of one frame lead to a submit: Enter does, unless Tab
    /// was pressed in the same frame.
    pub open spec fn keys_submit(tab: bool, enter: bool) -> bool {
        !tab && enter
    }

    /// The book after the keys of one frame. Tab on the focused add button
    /// asks for focus on the identifier field. Enter, when Tab was not
    /// pressed, submits and asks for that focus too.
    pub open spec fn keyed(self, tab: bool, enter: bool, button_focused: bool) -> MemoView {
        if tab {
            if button_focused {
                MemoView { focus: true, ..self }
            } else {
                self
            }
        } else if enter {
            MemoView { focus: true, ..self.submitted() }
        } else {
            self
        }
    }
}

/// The memo book.
#[derive(Debug)]
pub struct Memo {
    data: Vec<MemoEntry>,
    focus: bool,
    input: (String, String, String),
}

impl View for Memo {
    type V = MemoView;

    closed spec fn view(&self) -> MemoView {
        MemoView {
            entries: entry_views(self.data@),
            focus: self.focus,
            pending_id: self.input.0@,
            pending_name: self.input.1@,
            pending_description: self.input.2@,
        }
    }
}

impl Default for Memo {
    fn default() -> (memo: Memo)
        ensures
            memo@ == MemoView::empty(),
    {
        Memo { data: Vec::new(), focus: false, input: (String::new(), String::new(), String::new()) }
    }
}

impl Memo {
    /// A book that holds `entries` as they are, with nothing pending.
    pub fn with_entries(entries: Vec<MemoEntry>) -> (memo: Memo)
        ensures
            memo@ == MemoView::holding(entry_views(entries@)),
    {
        Memo { data: entries, focus: false, input: (String::new(), String::new(), String::new()) }
    }

    /// Every row key of a book fits the machine word.
    pub proof fn lemma_row_keys_fit(&self)
        ensures
            forall|i: int|
                0 <= i < self@.entries.len() ==> (#[trigger] self@.entries[i]).local_id
                    <= usize::MAX,
    {
    }

    /// The entries, in insertion order.
    pub fn entries(&self) -> (entries: &Vec<MemoEntry>)
        ensures
            entry_views(entries@) == self@.entries,
    {
        &self.data
    }

    /// Whether the identifier field should take keyboard focus when it is
    /// next shown.
    pub fn focus(&self) -> (focus: bool)
        ensures
            focus == self@.focus,
    {
        self.focus
    }

    /// The pending identifier.
    pub fn pending_id(&self) -> (text: &String)
        ensures
            text@ == self@.pending_id,
    {
        &self.input.0
    }

    /// The pending name.
    pub fn pending_name(&self) -> (text: &String)
        ensures
            text@ == self@.pending_name,
    {
        &self.input.1
    }

    /// The pending description.
    pub fn pending_description(&self) -> (text: &String)
        ensures
            text@ == self@.pending_description,
    {
        &self.input.2
    }

    /// The pending identifier, for the form to edit in place.
    pub fn pending_id_mut(&mut self) -> (text: &mut String)
        ensures
            text@ == old(self)@.pending_id,
            final(self)@ == (MemoView { pending_id: final(text)@, ..old(self)@ }),
    {
        &mut self.input.0
    }

    /// The pending name, for the form to edit in place.
    pub fn pending_name_mut(&mut self) -> (text: &mut String)
        ensures
            text@ == old(self)@.pending_name,
            final(self)@ == (MemoView { pending_name: final(text)@, ..old(self)@ }),
    {
        &mut self.input.1
    }

    /// The pending description, for the form to edit in place.
    pub fn pending_description_mut(&mut self) -> (text: &mut String)
        ensures
            text@ == old(self)@.pending_description,
            final(self)@ == (MemoView { pending_description: final(text)@, ..old(self)@ }),
    {
        &mut self.input.2
    }

    /// Says whether the identifier field should take keyboard focus now, and
    /// withdraws the request.
    pub fn take_focus(&mut self) -> (wanted: bool)
        ensures
            wanted == old(self)@.focus,
            final(self)@ == (MemoView { focus: false, ..old(self)@ }),
    {
        let wanted = self.focus;
        self.focus = false;
        wanted
    }

    /// Applies the keys of one frame: whether Tab and Enter were pressed, and
    /// whether the add button held keyboard focus.
    pub fn key_input(&mut self, tab: bool, enter: bool, button_focused: bool)
        requires
            MemoView::keys_submit(tab, enter) ==> old(self)@.can_submit(),
        ensures
            final(self)@ == old(self)@.keyed(tab, enter, button_focused),
            well_formed(old(self)@.entries) ==> well_formed(final(self)@.entries),
    {
        if tab {
            if button_focused {
                self.focus = true;
            }
        } else if enter {
            self.submit();
            self.focus = true;
        }
    }

    /// The index of the first entry whose identifier is `id`.
    fn find(&self, id: &String) -> (at: usize)
        ensures
            at == position_of_id(self@.entries, id@),
    {
        let mut at: usize = 0;
        while at < self.data.len() && !(self.data[at].id == *id)
            invariant
                at <= self.data.len(),
                forall|j: int| 0 <= j < at ==> (#[trigger] entry_views(self.data@)[j]).id != id@,
            decreases self.data.len() - at,
        {
            at += 1;
        }
        proof {
            lemma_position_is(entry_views(self.data@), id@, at as int);
        }
        at
    }

    /// One more than the largest row key, if that fits the machine word.
    fn next_local_id(&self) -> (next: Option<usize>)
        ensures
            match next {
                Some(n) => n == next_local_id(self@.entries),
                None => next_local_id(self@.entries) > usize::MAX,
            },
    {
        let mut next: usize = 0;
        let mut full: bool = false;
        let mut k: usize = 0;
        while k < self.data.len()
            invariant
                k <= self.data.len(),
                !full ==> next == next_local_id(entry_views(self.data@).take(k as int)),
                full ==> next_local_id(entry_views(self.data@).take(k as int)) > usize::MAX,
            decreases self.data.len() - k,
        {
            proof {
                let all = entry_views(self.data@);
                assert(all.take(k + 1).drop_last() == all.take(k as int));
                assert(all.take(k + 1).last() == all[k as int]);
            }
            let here: usize = self.data[k].local_id;
            if here == usize::MAX {
                full = true;
            } else if !full && here + 1 > next {
                next = here + 1;
            }
            k += 1;
        }
        proof {
            let all = entry_views(self.data@);
            assert(all.take(k as int) == all);
        }
        if full {
            None
        } else {
            Some(next)
        }
    }

    /// Whether the row key that a submit would assign fits the machine word.
    /// It does on every list but one that holds the largest `usize` as a row
    /// key.
    pub fn can_submit(&self) -> (fits: bool)
        ensures
            fits == self@.can_submit(),
    {
        if self.input.0.as_str().is_empty() {
            return true;
        }
        let at: usize = self.find(&self.input.0);
        if at < self.data.len() {
            return true;
        }
        self.next_local_id().is_some()
    }

    /// Adds the pending fields to the list, or updates the entry that
    /// already has the pending identifier, and clears the three fields. With
    /// an empty pending identifier nothing changes.
    pub fn submit(&mut self)
        requires
            old(self)@.can_submit(),
        ensures
            final(self)@ == old(self)@.submitted(),
            old(self)@.pending_id.len() == 0 ==> final(self)@ == old(self)@,
            well_formed(old(self)@.entries) ==> well_formed(final(self)@.entries),
    {
        proof {
            lemma_submit_keeps_well_formed(
                self@.entries,
                self@.pending_id,
                self@.pending_name,
                self@.pending_description,
            );
        }
        if self.input.0.as_str().is_empty() {
            return;
        }
        let at: usize = self.find(&self.input.0);
        if at < self.data.len() {
            proof {
                lemma_position_of_id(self@.entries, self.input.0@);
            }
            let ghost before = entry_views(self.data@);
            self.data[at].name = self.input.1.clone();
            self.data[at].description = self.input.2.clone();
            assert(entry_views(self.data@) == before.update(
                at as int,
                EntryView {
                    name: self.input.1@,
                    description: self.input.2@,
                    ..before[at as int]
                },
            ));
        } else {
            let next = self.next_local_id();
            let local_id: usize = next.unwrap();
            let entry = MemoEntry::new(
                local_id,
                self.input.0.clone(),
                self.input.1.clone(),
                self.input.2.clone(),
            );
            self.data.push(entry);
        }
        self.input = (String::new(), String::new(), String::new());
        assert(self@.entries == old(self)@.submitted().entries);
    }

    /// Removes every entry whose row key is `local_id`; the others stay as
    /// they are and in their order.
    pub fn delete(&mut self, local_id: usize)
        ensures
            final(self)@ == old(self)@.deleted(local_id as nat),
            well_formed(old(self)@.entries) ==> well_formed(final(self)@.entries),
    {
        let ghost before = entry_views(self.data@);
        proof {
            lemma_delete_keeps_well_formed(before, local_id as nat);
        }
        let mut at: usize = 0;
        proof {
            assert(before.take(0) == Seq::<EntryView>::empty());
            assert(delete_entry(Seq::<EntryView>::empty(), local_id as nat) == Seq::<
                EntryView,
            >::empty()) by {
                reveal(Seq::filter);
            }
        }
        while at < self.data.len()
            invariant
                at <= self.data.len() <= before.len(),
                self.focus == old(self).focus,
                self.input == old(self).input,
                entry_views(self.data@).take(at as int) == delete_entry(
                    before.take(at + before.len() - self.data.len()),
                    local_id as nat,
                ),
                entry_views(self.data@).skip(at as int) == before.skip(
                    at + before.len() - self.data.len(),
                ),
            decreases self.data.len() - at,
        {
            let ghost seen = at + before.len() - self.data.len();
            let ghost now = entry_views(self.data@);
            proof {
                assert(now[at as int] == now.skip(at as int)[0]);
                assert(before[seen] == before.skip(seen)[0]);
                assert(before.take(seen + 1) == before.take(seen).push(before[seen]));
                lemma_delete_push(before.take(seen), before[seen], local_id as nat);
            }
            if self.data[at].local_id == local_id {
                self.data.remove(at);
                proof {
                    let after = entry_views(self.data@);
                    assert(after == now.remove(at as int));
                    assert(after.take(at as int) == now.take(at as int));
                    assert(after.skip(at as int) == now.skip(at as int).skip(1));
                    assert(before.skip(seen + 1) == before.skip(seen).skip(1));
                }
            } else {
                proof {
                    assert(now.take(at + 1) == now.take(at as int).push(now[at as int]));
                    assert(now.skip(at + 1) == now.skip(at as int).skip(1));
                    assert(before.skip(seen + 1) == before.skip(seen).skip(1));
                }
                at += 1;
            }
        }
        proof {
            let now = entry_views(self.data@);
            assert(now.take(at as int) == now);
            assert(before.take(before.len() as int) == before);
        }
    }
}

} // verus!
