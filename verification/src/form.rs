//! The window's side of the book: what the window reports while it draws a
//! frame, and what the book asks of the window in return.

use vstd::prelude::*;
use crate::book::well_formed;
use crate::memo::{Memo, MemoView};

verus! {

/// What the window reports to the book.
#[derive(Debug, Clone, Copy, PartialEq, Eq)]
pub enum Event {
    /// The identifier field has been drawn.
    IdFieldShown,
    /// The add button was clicked.
    AddClicked,
    /// The keys of this frame: whether Tab and Enter were pressed, and
    /// whether the add button held keyboard focus.
    Keys { tab: bool, enter: bool, button_focused: bool },
    /// The identifier of the entry at index `row` was clicked.
    IdClicked { row: usize },
    /// The name of the entry at index `row` was clicked.
    NameClicked { row: usize },
    /// The delete button of the entry with this row key was clicked.
    DeleteClicked { local_id: usize },
}

/// What the book asks of the window.
#[derive(Debug, Clone, PartialEq, Eq)]
pub enum Action {
    Nothing,
    /// Give keyboard focus to the identifier field.
    FocusIdField,
    /// Put this text on the clipboard, in place of what it holds.
    Copy(String),
}

/// What an [`Action`] stands for in contracts.
pub enum ActionView {
    Nothing,
    FocusIdField,
    Copy(Seq<char>),
}

impl View for Action {
    type V = ActionView;

    open spec fn view(&self) -> ActionView {
        match self {
            Action::Nothing => ActionView::Nothing,
            Action::FocusIdField => ActionView::FocusIdField,
            Action::Copy(text) => ActionView::Copy(text@),
        }
    }
}

impl Event {
    /// Whether the event leads to a submit of the pending fields.
    pub open spec fn submits(self) -> bool {
        match self {
            Event::AddClicked => true,
            Event::Keys { tab, enter, .. } => MemoView::keys_submit(tab, enter),
            _ => false,
        }
    }
}

impl MemoView {
    /// The book after an event.
    pub open spec fn after(self, event: Event) -> MemoView {
        match event {
            Event::IdFieldShown => MemoView { focus: false, ..self },
            Event::AddClicked => self.submitted(),
            Event::Keys { tab, enter, button_focused } => self.keyed(tab, enter, button_focused),
            Event::IdClicked { .. } => self,
            Event::NameClicked { .. } => self,
            Event::DeleteClicked { local_id } => self.deleted(local_id as nat),
        }
    }

    /// What the book asks of the window on an event: focus for the
    /// identifier field when it is shown while a request stands, and the
    /// clicked text for the clipboard. A click on a row that the list does
    /// not have asks nothing.
    pub open spec fn action(self, event: Event) -> ActionView {
        match event {
            Event::IdFieldShown => if self.focus {
                ActionView::FocusIdField
            } else {
                ActionView::Nothing
            },
            Event::IdClicked { row } => if row < self.entries.len() {
                ActionView::Copy(self.entries[row as int].id)
            } else {
                ActionView::Nothing
            },
            Event::NameClicked { row } => if row < self.entries.len() {
                ActionView::Copy(self.entries[row as int].name)
            } else {
                ActionView::Nothing
            },
            _ => ActionView::Nothing,
        }
    }
}

impl Memo {
    /// Takes one event from the window: changes the book as the event asks
    /// and says what the window has to do.
    pub fn handle(&mut self, event: Event) -> (action: Action)
        requires
            event.submits() ==> old(self)@.can_submit(),
        ensures
            final(self)@ == old(self)@.after(event),
            action@ == old(self)@.action(event),
            well_formed(old(self)@.entries) ==> well_formed(final(self)@.entries),
    {
        match event {
            Event::IdFieldShown => {
                if self.take_focus() {
                    Action::FocusIdField
                } else {
                    Action::Nothing
                }
            },
            Event::AddClicked => {
                self.submit();
                Action::Nothing
            },
            Event::Keys { tab, enter, button_focused } => {
                self.key_input(tab, enter, button_focused);
                Action::Nothing
            },
            Event::IdClicked { row } => {
                if row < self.entries().len() {
                    Action::Copy(self.entries()[row].id.clone())
                } else {
                    Action::Nothing
                }
            },
            Event::NameClicked { row } => {
                if row < self.entries().len() {
                    Action::Copy(self.entries()[row].name.clone())
                } else {
                    Action::Nothing
                }
            },
            Event::DeleteClicked { local_id } => {
                self.delete(local_id);
                Action::Nothing
            },
        }
    }
}

} // verus!
