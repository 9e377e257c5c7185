use opencad::error::OpenCadError;
use opencad::history::{DocumentHistory, DocumentHistoryState};

fn same_source(left: &String, right: &String) -> Result<bool, OpenCadError> {
    Ok(left == right)
}

#[test]
fn full_document_undo_and_redo_restore_exact_snapshots() {
    let before = String::from("width = 80 mm");
    let after = String::from("width = 100 mm");
    let mut current = after.clone();
    let mut history = DocumentHistory::new();
    history.record(before.clone(), after.clone(), "Set width");

    history.undo(&mut current, same_source).expect("undo");
    assert_eq!(current, before);
    assert!(!history.can_undo());
    assert!(history.can_redo());

    history.redo(&mut current, same_source).expect("redo");
    assert_eq!(current, after);
    assert!(history.can_undo());
    assert!(!history.can_redo());
}

#[test]
fn mismatched_undo_and_redo_leave_document_and_history_unchanged() {
    let before = String::from("width = 80 mm");
    let after = String::from("width = 100 mm");
    let mut history = DocumentHistory::new();
    history.record(before.clone(), after.clone(), "Set width");
    let mut current = before.clone();

    let error = history.undo(&mut current, same_source).expect_err("stale undo");
    assert!(error.to_message().contains("expected undo snapshot"));
    assert_eq!(history.undo_len(), 1);
    assert_eq!(history.redo_len(), 0);
    assert_eq!(current, before);

    let mut current = after;
    history.undo(&mut current, same_source).expect("undo");
    let mut stale = String::from("width = 110 mm");
    let error = history.redo(&mut stale, same_source).expect_err("stale redo");
    assert!(error.to_message().contains("expected redo snapshot"));
    assert_eq!(history.undo_len(), 0);
    assert_eq!(history.redo_len(), 1);
    assert_eq!(stale, "width = 110 mm");
}

#[test]
fn new_record_clears_redo_branch() {
    let before = String::from("width = 80 mm");
    let middle = String::from("width = 100 mm");
    let after = String::from("width = 120 mm");
    let mut history = DocumentHistory::new();
    history.record(before, middle.clone(), "Set width to 100 mm");
    let mut current = middle;
    history.undo(&mut current, same_source).expect("undo");
    assert!(history.can_redo());

    history.record(current.clone(), after, "Set width to 120 mm");
    assert!(!history.can_redo());
    assert!(history.can_undo());
}

#[test]
fn empty_history_refuses_undo_and_redo() {
    let mut history: DocumentHistory<String> = DocumentHistory::new();
    let mut current = String::from("doc");
    let undo = history.undo(&mut current, same_source).expect_err("no undo");
    assert_eq!(undo.to_message(), "validation failed: document history has no undo entry");
    let redo = history.redo(&mut current, same_source).expect_err("no redo");
    assert_eq!(redo.to_message(), "validation failed: document history has no redo entry");
    assert_eq!(current, "doc");
}

#[test]
fn comparison_failure_is_passed_through_unchanged() {
    let mut history = DocumentHistory::new();
    history.record(String::from("a"), String::from("b"), "change");
    let mut current = String::from("b");
    let error = history
        .undo(&mut current, |_: &String, _: &String| Err(OpenCadError::Other("broken".into())))
        .expect_err("comparison error");
    assert_eq!(error.to_message(), "broken");
    assert_eq!(history.undo_len(), 1);
    assert_eq!(current, "b");
}

#[test]
fn history_state_reports_capabilities() {
    let mut history = DocumentHistory::new();
    history.record(String::from("a"), String::from("b"), "change");
    let state = DocumentHistoryState::new(history);
    assert!(state.can_undo);
    assert!(!state.can_redo);
    assert_eq!(state.history.undo_len(), 1);
}
