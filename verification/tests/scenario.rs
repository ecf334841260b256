use simple_id_memo::entry::MemoEntry;
use simple_id_memo::memo::Memo;

fn entry(local_id: usize, id: &str, name: &str, description: &str) -> MemoEntry {
    MemoEntry::new(local_id, id.to_string(), name.to_string(), description.to_string())
}

fn fill(memo: &mut Memo, id: &str, name: &str, description: &str) {
    *memo.pending_id_mut() = id.to_string();
    *memo.pending_name_mut() = name.to_string();
    *memo.pending_description_mut() = description.to_string();
}

#[test]
fn add_update_add_delete() {
    let mut memo = Memo::default();
    assert!(memo.entries().is_empty());

    fill(&mut memo, "A1", "Alice", "likes tea");
    assert!(memo.can_submit());
    memo.submit();
    assert_eq!(memo.entries(), &vec![entry(0, "A1", "Alice", "likes tea")]);

    fill(&mut memo, "A1", "Alicia", "");
    assert!(memo.can_submit());
    memo.submit();
    assert_eq!(memo.entries(), &vec![entry(0, "A1", "Alicia", "")]);

    fill(&mut memo, "B2", "Bob", "");
    assert!(memo.can_submit());
    memo.submit();
    assert_eq!(
        memo.entries(),
        &vec![entry(0, "A1", "Alicia", ""), entry(1, "B2", "Bob", "")]
    );

    memo.delete(0);
    assert_eq!(memo.entries(), &vec![entry(1, "B2", "Bob", "")]);
}

#[test]
fn a_new_book_is_empty() {
    let memo = Memo::default();
    assert!(memo.entries().is_empty());
    assert!(!memo.focus());
    assert_eq!(memo.pending_id(), "");
    assert_eq!(memo.pending_name(), "");
    assert_eq!(memo.pending_description(), "");
}

#[test]
fn with_entries_keeps_the_list_as_given() {
    let list = vec![entry(5, "x", "X", "first"), entry(2, "x", "again", "second")];
    let memo = Memo::with_entries(list.clone());
    assert_eq!(memo.entries(), &list);
    assert!(!memo.focus());
    assert_eq!(memo.pending_id(), "");
    assert_eq!(memo.pending_name(), "");
    assert_eq!(memo.pending_description(), "");
}
