use chat_auth::store::{InvalidationOutcome, RefreshStore, RotationOutcome};
use chat_auth::text::same_text;

fn store_with_seven() -> RefreshStore {
    let mut store = RefreshStore::new();
    assert!(store.add_subject(7));
    store
}

#[test]
fn rotation_supersedes_the_token_before() {
    let mut store = store_with_seven();
    assert_eq!(store.rotate(7, "R1"), RotationOutcome::Updated);
    assert_eq!(store.rotate(7, "R2"), RotationOutcome::Updated);
    assert_eq!(store.find_subject_by_refresh("R1"), None);
    assert_eq!(store.find_subject_by_refresh("R2"), Some(7));
    assert_eq!(store.stored_refresh_token(7), Some("R2".to_string()));
}

#[test]
fn invalidation_needs_the_stored_token() {
    let mut store = store_with_seven();
    store.rotate(7, "R1");
    store.rotate(7, "R2");
    assert_eq!(store.invalidate(7, "WRONG"), InvalidationOutcome::NoMatchOrAlreadyInvalid);
    assert_eq!(store.stored_refresh_token(7), Some("R2".to_string()));
    assert_eq!(store.find_subject_by_refresh("R2"), Some(7));
    assert_eq!(store.invalidate(7, "R2"), InvalidationOutcome::Invalidated);
    assert_eq!(store.find_subject_by_refresh("R2"), None);
    assert_eq!(store.stored_refresh_token(7), None);
    assert_eq!(store.invalidate(7, "R2"), InvalidationOutcome::NoMatchOrAlreadyInvalid);
}

#[test]
fn invalidation_of_a_superseded_token_changes_nothing() {
    let mut store = store_with_seven();
    store.rotate(7, "R1");
    store.rotate(7, "R2");
    assert_eq!(store.invalidate(7, "R1"), InvalidationOutcome::NoMatchOrAlreadyInvalid);
    assert_eq!(store.find_subject_by_refresh("R2"), Some(7));
}

#[test]
fn unconditional_invalidation_twice_in_a_row() {
    let mut store = store_with_seven();
    store.rotate(7, "R1");
    store.invalidate_unconditional(7);
    assert_eq!(store.stored_refresh_token(7), None);
    assert_eq!(store.find_subject_by_refresh("R1"), None);
    store.invalidate_unconditional(7);
    assert_eq!(store.stored_refresh_token(7), None);
    assert_eq!(store.rotate(7, "R2"), RotationOutcome::Updated);
    assert_eq!(store.find_subject_by_refresh("R2"), Some(7));
}

#[test]
fn unconditional_invalidation_of_an_unknown_subject_is_no_error() {
    let mut store = store_with_seven();
    store.rotate(7, "R1");
    store.invalidate_unconditional(8);
    assert_eq!(store.find_subject_by_refresh("R1"), Some(7));
}

#[test]
fn unknown_subject_is_not_found() {
    let mut store = store_with_seven();
    assert_eq!(store.rotate(8, "R1"), RotationOutcome::SubjectNotFound);
    assert_eq!(store.find_subject_by_refresh("R1"), None);
    assert_eq!(store.invalidate(8, "R1"), InvalidationOutcome::NoMatchOrAlreadyInvalid);
    assert_eq!(store.stored_refresh_token(8), None);
    let mut empty = RefreshStore::new();
    assert_eq!(empty.rotate(7, "R1"), RotationOutcome::SubjectNotFound);
    assert_eq!(empty.find_subject_by_refresh("R1"), None);
}

#[test]
fn a_subject_is_added_once() {
    let mut store = RefreshStore::new();
    assert!(store.add_subject(1));
    assert!(store.add_subject(2));
    assert!(!store.add_subject(1));
    store.rotate(1, "A");
    assert!(!store.add_subject(1));
    assert_eq!(store.stored_refresh_token(1), Some("A".to_string()));
}

#[test]
fn subjects_keep_their_own_slots() {
    let mut store = RefreshStore::new();
    store.add_subject(1);
    store.add_subject(2);
    store.rotate(1, "A");
    store.rotate(2, "B");
    assert_eq!(store.find_subject_by_refresh("A"), Some(1));
    assert_eq!(store.find_subject_by_refresh("B"), Some(2));
    assert_eq!(store.invalidate(1, "B"), InvalidationOutcome::NoMatchOrAlreadyInvalid);
    assert_eq!(store.invalidate(2, "B"), InvalidationOutcome::Invalidated);
    assert_eq!(store.find_subject_by_refresh("A"), Some(1));
    assert_eq!(store.find_subject_by_refresh("B"), None);
}

#[test]
fn the_first_holder_is_found() {
    let mut store = RefreshStore::new();
    store.add_subject(5);
    store.add_subject(3);
    store.rotate(3, "same");
    store.rotate(5, "same");
    assert_eq!(store.find_subject_by_refresh("same"), Some(5));
    store.invalidate_unconditional(5);
    assert_eq!(store.find_subject_by_refresh("same"), Some(3));
}

#[test]
fn an_empty_slot_is_found_by_no_token() {
    let store = store_with_seven();
    assert_eq!(store.find_subject_by_refresh(""), None);
    assert_eq!(store.stored_refresh_token(7), None);
}

#[test]
fn rows_affected_decide_the_outcome() {
    assert_eq!(RotationOutcome::from_rows_affected(0), RotationOutcome::SubjectNotFound);
    assert_eq!(RotationOutcome::from_rows_affected(1), RotationOutcome::Updated);
    assert_eq!(
        InvalidationOutcome::from_rows_affected(0),
        InvalidationOutcome::NoMatchOrAlreadyInvalid
    );
    assert_eq!(InvalidationOutcome::from_rows_affected(1), InvalidationOutcome::Invalidated);
}

#[test]
fn same_text_is_equality() {
    assert!(same_text("", ""));
    assert!(same_text("R1", "R1"));
    assert!(!same_text("R1", "R2"));
    assert!(!same_text("R1", "R"));
    assert!(same_text("\u{e9}", "\u{e9}"));
    assert!(!same_text("\u{e9}", "e"));
}
