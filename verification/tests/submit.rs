use simple_id_memo::entry::MemoEntry;
use simple_id_memo::memo::Memo;

fn entry(local_id: usize, id: &str, name: &str, description: &str) -> MemoEntry {
    MemoEntry::new(local_id, id.to_string(), name.to_string(), description.to_string())
}

fn submit(memo: &mut Memo, id: &str, name: &str, description: &str) {
    *memo.pending_id_mut() = id.to_string();
    *memo.pending_name_mut() = name.to_string();
    *memo.pending_description_mut() = description.to_string();
    assert!(memo.can_submit());
    memo.submit();
}

#[test]
fn distinct_ids_give_one_entry_each_in_order() {
    let mut memo = Memo::default();
    let ids = ["k", "a", "zz", "b", "0"];
    for id in ids {
        submit(&mut memo, id, "n", "d");
    }
    assert_eq!(memo.entries().len(), ids.len());
    for (i, e) in memo.entries().iter().enumerate() {
        assert_eq!(e.local_id, i);
        assert_eq!(e.id, ids[i]);
    }
}

#[test]
fn repeated_ids_count_once() {
    let mut memo = Memo::default();
    for id in ["a", "b", "a", "c", "b", "a"] {
        submit(&mut memo, id, id, "");
    }
    assert_eq!(
        memo.entries(),
        &vec![entry(0, "a", "a", ""), entry(1, "b", "b", ""), entry(2, "c", "c", "")]
    );
}

#[test]
fn second_submit_updates_and_keeps_the_row_key() {
    let mut memo = Memo::default();
    submit(&mut memo, "first", "", "");
    submit(&mut memo, "id", "old name", "old text");
    let key = memo.entries()[1].local_id;
    submit(&mut memo, "id", "new name", "new text");
    assert_eq!(memo.entries().len(), 2);
    assert_eq!(memo.entries()[1], entry(key, "id", "new name", "new text"));
    assert_eq!(memo.entries().iter().filter(|e| e.id == "id").count(), 1);
    assert_eq!(memo.entries()[0], entry(0, "first", "", ""));
}

#[test]
fn empty_id_changes_nothing() {
    let mut memo = Memo::default();
    submit(&mut memo, "a", "A", "");
    *memo.pending_name_mut() = "kept".to_string();
    *memo.pending_description_mut() = "kept too".to_string();
    assert!(memo.can_submit());
    memo.submit();
    assert_eq!(memo.entries(), &vec![entry(0, "a", "A", "")]);
    assert_eq!(memo.pending_id(), "");
    assert_eq!(memo.pending_name(), "kept");
    assert_eq!(memo.pending_description(), "kept too");
}

#[test]
fn submit_clears_the_pending_fields() {
    let mut memo = Memo::default();
    submit(&mut memo, "a", "A", "text");
    assert_eq!(memo.pending_id(), "");
    assert_eq!(memo.pending_name(), "");
    assert_eq!(memo.pending_description(), "");
    submit(&mut memo, "a", "B", "other");
    assert_eq!(memo.pending_id(), "");
    assert_eq!(memo.pending_name(), "");
    assert_eq!(memo.pending_description(), "");
}

#[test]
fn submit_leaves_the_focus_request_alone() {
    let mut memo = Memo::default();
    memo.key_input(true, false, true);
    assert!(memo.focus());
    submit(&mut memo, "a", "A", "");
    assert!(memo.focus());
}

#[test]
fn new_row_key_is_one_more_than_the_largest() {
    let mut memo = Memo::with_entries(vec![
        entry(7, "a", "", ""),
        entry(3, "b", "", ""),
        entry(5, "c", "", ""),
    ]);
    submit(&mut memo, "d", "D", "");
    assert_eq!(memo.entries().len(), 4);
    assert_eq!(memo.entries()[3], entry(8, "d", "D", ""));
}

#[test]
fn row_key_after_a_delete_in_the_middle() {
    let mut memo = Memo::default();
    submit(&mut memo, "a", "", "");
    submit(&mut memo, "b", "", "");
    submit(&mut memo, "c", "", "");
    memo.delete(1);
    submit(&mut memo, "d", "", "");
    assert_eq!(
        memo.entries(),
        &vec![entry(0, "a", "", ""), entry(2, "c", "", ""), entry(3, "d", "", "")]
    );
}

#[test]
fn update_takes_the_first_entry_with_the_id() {
    let mut memo = Memo::with_entries(vec![
        entry(0, "same", "one", ""),
        entry(1, "same", "two", ""),
    ]);
    submit(&mut memo, "same", "new", "text");
    assert_eq!(
        memo.entries(),
        &vec![entry(0, "same", "new", "text"), entry(1, "same", "two", "")]
    );
}

#[test]
fn ids_differ_by_case_and_space() {
    let mut memo = Memo::default();
    submit(&mut memo, "a", "", "");
    submit(&mut memo, "A", "", "");
    submit(&mut memo, " a", "", "");
    assert_eq!(memo.entries().len(), 3);
}

#[test]
fn largest_row_key_leaves_no_room_for_a_new_id() {
    let mut memo = Memo::with_entries(vec![entry(usize::MAX, "last", "", "")]);
    *memo.pending_id_mut() = "more".to_string();
    assert!(!memo.can_submit());
    *memo.pending_id_mut() = "last".to_string();
    *memo.pending_name_mut() = "renamed".to_string();
    assert!(memo.can_submit());
    memo.submit();
    assert_eq!(memo.entries(), &vec![entry(usize::MAX, "last", "renamed", "")]);
    *memo.pending_id_mut() = String::new();
    assert!(memo.can_submit());
}

#[test]
fn row_key_just_below_the_largest_still_fits() {
    let mut memo = Memo::with_entries(vec![entry(usize::MAX - 1, "a", "", "")]);
    submit(&mut memo, "b", "", "");
    assert_eq!(memo.entries()[1].local_id, usize::MAX);
}

#[test]
fn row_key_of_a_deleted_last_entry_is_given_again() {
    let mut memo = Memo::default();
    submit(&mut memo, "a", "", "");
    submit(&mut memo, "b", "", "");
    memo.delete(1);
    submit(&mut memo, "c", "", "");
    assert_eq!(memo.entries(), &vec![entry(0, "a", "", ""), entry(1, "c", "", "")]);
    memo.delete(0);
    memo.delete(1);
    submit(&mut memo, "d", "", "");
    assert_eq!(memo.entries(), &vec![entry(0, "d", "", "")]);
}
