//! One memo record and its mathematical view.

use vstd::prelude::*;

verus! {

/// What a [`MemoEntry`] stands for in contracts.
pub struct EntryView {
    /// The row key, assigned when the entry was created.
    pub local_id: nat,
    /// The identifier the user chose.
    pub id: Seq<char>,
    pub name: Seq<char>,
    pub description: Seq<char>,
}

/// One memo record.
#[derive(Debug, Clone, PartialEq, Eq, PartialOrd, Ord)]
pub struct MemoEntry {
    pub local_id: usize,
    pub id: String,
    pub name: String,
    pub description: String,
}

impl View for MemoEntry {
    type V = EntryView;

    open spec fn view(&self) -> EntryView {
        EntryView {
            local_id: self.local_id as nat,
            id: self.id@,
            name: self.name@,
            description: self.description@,
        }
    }
}

/// The views of a list of entries, in order.
pub open spec fn entry_views(entries: Seq<MemoEntry>) -> Seq<EntryView> {
    entries.map_values(|e: MemoEntry| e@)
}

impl MemoEntry {
    /// Builds an entry from its four fields.
    pub fn new(local_id: usize, id: String, name: String, description: String) -> (entry: MemoEntry)
        ensures
            entry@ == (EntryView {
                local_id: local_id as nat,
                id: id@,
                name: name@,
                description: description@,
            }),
    {
        MemoEntry { local_id, id, name, description }
    }
}

} // verus!
