use simple_id_memo::entry::MemoEntry;
use simple_id_memo::form::{Action, Event};
use simple_id_memo::memo::Memo;

fn entry(local_id: usize, id: &str, name: &str, description: &str) -> MemoEntry {
    MemoEntry::new(local_id, id.to_string(), name.to_string(), description.to_string())
}

fn typed(id: &str, name: &str) -> Memo {
    let mut memo = Memo::default();
    *memo.pending_id_mut() = id.to_string();
    *memo.pending_name_mut() = name.to_string();
    memo
}

#[test]
fn add_click_submits() {
    let mut memo = typed("a", "A");
    assert_eq!(memo.handle(Event::AddClicked), Action::Nothing);
    assert_eq!(memo.entries(), &vec![entry(0, "a", "A", "")]);
    assert!(!memo.focus());
}

#[test]
fn enter_submits_and_asks_for_focus() {
    let mut memo = typed("a", "A");
    let keys = Event::Keys { tab: false, enter: true, button_focused: false };
    assert_eq!(memo.handle(keys), Action::Nothing);
    assert_eq!(memo.entries(), &vec![entry(0, "a", "A", "")]);
    assert!(memo.focus());
}

#[test]
fn enter_with_an_empty_id_only_asks_for_focus() {
    let mut memo = typed("", "A");
    memo.key_input(false, true, true);
    assert!(memo.entries().is_empty());
    assert_eq!(memo.pending_name(), "A");
    assert!(memo.focus());
}

#[test]
fn tab_on_the_focused_button_asks_for_focus() {
    let mut memo = typed("a", "A");
    memo.key_input(true, false, true);
    assert!(memo.focus());
    assert!(memo.entries().is_empty());
    assert_eq!(memo.pending_id(), "a");
}

#[test]
fn tab_elsewhere_does_nothing() {
    let mut memo = typed("a", "A");
    memo.key_input(true, false, false);
    assert!(!memo.focus());
    assert!(memo.entries().is_empty());
}

#[test]
fn tab_wins_over_enter() {
    let mut memo = typed("a", "A");
    memo.key_input(true, true, false);
    assert!(!memo.focus());
    assert!(memo.entries().is_empty());
    memo.key_input(true, true, true);
    assert!(memo.focus());
    assert!(memo.entries().is_empty());
    assert_eq!(memo.pending_id(), "a");
}

#[test]
fn no_key_does_nothing() {
    let mut memo = typed("a", "A");
    memo.key_input(false, false, true);
    assert!(!memo.focus());
    assert!(memo.entries().is_empty());
    assert_eq!(memo.pending_id(), "a");
}

#[test]
fn focus_is_handed_out_once() {
    let mut memo = Memo::default();
    assert_eq!(memo.handle(Event::IdFieldShown), Action::Nothing);
    memo.key_input(true, false, true);
    assert_eq!(memo.handle(Event::IdFieldShown), Action::FocusIdField);
    assert!(!memo.focus());
    assert_eq!(memo.handle(Event::IdFieldShown), Action::Nothing);
    memo.key_input(true, false, true);
    assert!(memo.take_focus());
    assert!(!memo.take_focus());
}

#[test]
fn clicks_copy_the_clicked_text() {
    let mut memo = Memo::with_entries(vec![entry(0, "a", "Alice", "x"), entry(1, "b", "Bob", "y")]);
    assert_eq!(memo.handle(Event::IdClicked { row: 1 }), Action::Copy("b".to_string()));
    assert_eq!(memo.handle(Event::NameClicked { row: 0 }), Action::Copy("Alice".to_string()));
    assert_eq!(memo.handle(Event::IdClicked { row: 2 }), Action::Nothing);
    assert_eq!(memo.handle(Event::NameClicked { row: usize::MAX }), Action::Nothing);
    assert_eq!(memo.entries().len(), 2);
}

#[test]
fn delete_click_deletes() {
    let mut memo = Memo::with_entries(vec![entry(0, "a", "Alice", "x"), entry(1, "b", "Bob", "y")]);
    assert_eq!(memo.handle(Event::DeleteClicked { local_id: 0 }), Action::Nothing);
    assert_eq!(memo.entries(), &vec![entry(1, "b", "Bob", "y")]);
}
