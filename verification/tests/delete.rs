use simple_id_memo::entry::MemoEntry;
use simple_id_memo::memo::Memo;

fn entry(local_id: usize, id: &str, name: &str, description: &str) -> MemoEntry {
    MemoEntry::new(local_id, id.to_string(), name.to_string(), description.to_string())
}

fn three() -> Vec<MemoEntry> {
    vec![entry(0, "a", "A", "x"), entry(1, "b", "B", "y"), entry(4, "c", "C", "z")]
}

#[test]
fn delete_of_an_absent_row_key_changes_nothing() {
    let mut memo = Memo::with_entries(three());
    memo.delete(2);
    assert_eq!(memo.entries(), &three());
    memo.delete(usize::MAX);
    assert_eq!(memo.entries(), &three());
}

#[test]
fn delete_on_the_empty_book() {
    let mut memo = Memo::default();
    memo.delete(0);
    assert!(memo.entries().is_empty());
}

#[test]
fn delete_removes_that_entry_only() {
    let mut memo = Memo::with_entries(three());
    memo.delete(1);
    assert_eq!(memo.entries(), &vec![entry(0, "a", "A", "x"), entry(4, "c", "C", "z")]);
    memo.delete(4);
    assert_eq!(memo.entries(), &vec![entry(0, "a", "A", "x")]);
    memo.delete(0);
    assert!(memo.entries().is_empty());
}

#[test]
fn delete_removes_every_entry_with_the_row_key() {
    let mut memo = Memo::with_entries(vec![
        entry(3, "a", "", ""),
        entry(3, "b", "", ""),
        entry(1, "c", "", ""),
        entry(3, "d", "", ""),
    ]);
    memo.delete(3);
    assert_eq!(memo.entries(), &vec![entry(1, "c", "", "")]);
}

#[test]
fn delete_keeps_pending_fields_and_focus() {
    let mut memo = Memo::with_entries(three());
    *memo.pending_id_mut() = "typing".to_string();
    *memo.pending_name_mut() = "a name".to_string();
    memo.key_input(true, false, true);
    memo.delete(0);
    assert_eq!(memo.pending_id(), "typing");
    assert_eq!(memo.pending_name(), "a name");
    assert_eq!(memo.pending_description(), "");
    assert!(memo.focus());
}
