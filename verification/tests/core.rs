use std::sync::atomic::{AtomicU32, Ordering};
use std::sync::Arc;

use opencad::error::OpenCadError;
use opencad::transaction::{CounterAction, Transaction, TransactionAction, TransactionLog};
use opencad::units::Expression;
use opencad::validation::{ValidationLevel, ValidationMessage, ValidationReport};

#[test]
fn transaction_commit_and_rollback() {
    let counter = Arc::new(AtomicU32::new(0));
    let mut tx = Transaction::begin("increment twice");
    tx.push_action(Box::new(CounterAction::new(counter.clone(), 1, "add 1")));
    tx.push_action(Box::new(CounterAction::new(counter.clone(), 1, "add 1 again")));

    tx.apply_all().expect("apply");
    assert_eq!(counter.load(Ordering::Relaxed), 2);

    tx.rollback().expect("rollback");
    assert_eq!(counter.load(Ordering::Relaxed), 0);
}

#[test]
fn commit_applies_actions() {
    let counter = Arc::new(AtomicU32::new(0));
    let mut tx = Transaction::begin("commit");
    tx.push_action(Box::new(CounterAction::new(counter.clone(), 5, "add 5")));
    tx.commit().expect("commit");
    assert_eq!(counter.load(Ordering::Relaxed), 5);
}

struct FailingAction {
    rollback_calls: Arc<AtomicU32>,
}

impl TransactionAction for FailingAction {
    fn apply_ok(&self) -> bool {
        false
    }

    fn rollback_ok(&self) -> bool {
        true
    }

    fn description_text(&self) -> String {
        "fail".to_string()
    }

    fn description(&self) -> &str {
        "fail"
    }

    fn apply(&self) -> Result<(), OpenCadError> {
        Err(OpenCadError::validation("injected failure"))
    }

    fn rollback(&self) -> Result<(), OpenCadError> {
        self.rollback_calls.fetch_add(1, Ordering::Relaxed);
        Ok(())
    }
}

struct FailingRollback;

impl TransactionAction for FailingRollback {
    fn apply_ok(&self) -> bool {
        true
    }

    fn rollback_ok(&self) -> bool {
        false
    }

    fn description_text(&self) -> String {
        "stuck".to_string()
    }

    fn description(&self) -> &str {
        "stuck"
    }

    fn apply(&self) -> Result<(), OpenCadError> {
        Ok(())
    }

    fn rollback(&self) -> Result<(), OpenCadError> {
        Err(OpenCadError::validation("cannot undo"))
    }
}

#[test]
fn failed_commit_rolls_back_only_successfully_applied_actions() {
    let counter = Arc::new(AtomicU32::new(0));
    let failed_rollback_calls = Arc::new(AtomicU32::new(0));
    let mut tx = Transaction::begin("rollback on failure");
    tx.push_action(Box::new(CounterAction::new(counter.clone(), 1, "add before failure")));
    tx.push_action(Box::new(FailingAction { rollback_calls: failed_rollback_calls.clone() }));

    let _error = tx.commit().expect_err("injected failure");
    assert_eq!(counter.load(Ordering::Relaxed), 0);
    assert_eq!(failed_rollback_calls.load(Ordering::Relaxed), 0);
}

#[test]
fn failed_apply_reports_the_action_index_and_cause() {
    let counter = Arc::new(AtomicU32::new(0));
    let calls = Arc::new(AtomicU32::new(0));
    let mut tx = Transaction::begin("report");
    tx.push_action(Box::new(CounterAction::new(counter.clone(), 3, "add 3")));
    tx.push_action(Box::new(FailingAction { rollback_calls: calls.clone() }));
    let error = tx.apply_all().expect_err("failure");
    assert_eq!(
        error.to_message(),
        "transaction error: failed at action 1 (fail): validation failed: injected failure"
    );
    assert_eq!(counter.load(Ordering::Relaxed), 0);
}

#[test]
fn failed_rollback_is_reported_after_the_apply_failure() {
    let calls = Arc::new(AtomicU32::new(0));
    let mut tx = Transaction::begin("double failure");
    tx.push_action(Box::new(FailingRollback));
    tx.push_action(Box::new(FailingAction { rollback_calls: calls.clone() }));
    let error = tx.apply_all().expect_err("failure");
    assert_eq!(
        error.to_message(),
        "transaction error: transaction error: failed at action 1 (fail): validation failed: injected failure; transaction error: failed to rollback action 0 (stuck): validation failed: cannot undo"
    );
}

#[test]
fn committed_transaction_cannot_roll_back_and_negative_steps_undo() {
    let counter = Arc::new(AtomicU32::new(10));
    let mut tx = Transaction::begin("decrement");
    tx.push_action(Box::new(CounterAction::new(counter.clone(), -4, "take 4")));
    assert_eq!(tx.description(), "decrement");
    assert!(!tx.is_committed());
    tx.apply_all().expect("apply");
    assert_eq!(counter.load(Ordering::Relaxed), 6);
    tx.rollback().expect("rollback");
    assert_eq!(counter.load(Ordering::Relaxed), 10);
    // Rolling back twice does nothing more.
    tx.rollback().expect("second rollback");
    assert_eq!(counter.load(Ordering::Relaxed), 10);
}

#[test]
fn transaction_log_counts_records() {
    let mut log = TransactionLog::new();
    assert!(log.is_empty());
    log.record("first", Box::new(1u32));
    log.record("second", Box::new(String::from("payload")));
    assert_eq!(log.len(), 2);
    assert!(!log.is_empty());
}

#[test]
fn expression_rejects_empty() {
    assert!(Expression::new("").is_err());
}

#[test]
fn expression_rejects_blank_and_keeps_text() {
    match Expression::new(" \t\n") {
        Err(OpenCadError::InvalidExpression(message)) => {
            assert_eq!(message, "expression must not be empty")
        }
        _ => panic!("blank expression must be rejected"),
    }
    let expr = Expression::new("thickness + 3 mm").expect("expression");
    assert_eq!(expr.as_str(), "thickness + 3 mm");
}

#[test]
fn expression_displays_its_text_verbatim() {
    let expr = Expression::new(" 80 mm ").expect("expression");
    assert_eq!(expr.to_string(), " 80 mm ");
    assert_eq!(expr.as_str(), " 80 mm ");
}

#[test]
fn report_tracks_errors() {
    let mut report = ValidationReport::new();
    report.push(ValidationMessage::warning("W001", "minor issue"));
    assert!(report.is_ok());

    report.push(ValidationMessage::error("E001", "blocking issue"));
    assert!(!report.is_ok());
    assert_eq!(report.error_count(), 1);
}

#[test]
fn merged_reports_add_their_error_counts() {
    let mut first = ValidationReport::new();
    first.push(ValidationMessage::error("E001", "one"));
    first.push(ValidationMessage::info("I001", "note"));
    let mut second = ValidationReport::new();
    second.push(ValidationMessage::error("E002", "two").with_target("feature:hole"));
    second.push(ValidationMessage::error("E003", "three"));
    first.merge(second);
    assert_eq!(first.error_count(), 3);
    assert!(first.has_errors());
    assert!(!first.is_ok());
}

#[test]
fn message_constructors_set_level_and_target() {
    let m = ValidationMessage::warning("W7", "careful").with_target("param:width");
    assert_eq!(m.level, ValidationLevel::Warning);
    assert_eq!(m.code, "W7");
    assert_eq!(m.message, "careful");
    assert_eq!(m.target_id.as_deref(), Some("param:width"));
}

#[test]
fn error_messages_match_their_display_text() {
    assert_eq!(OpenCadError::not_found("x").to_message(), "not found: x");
    assert_eq!(
        OpenCadError::ChecksumMismatch { expected: "a".into(), actual: "b".into() }.to_message(),
        "checksum mismatch: expected a, got b"
    );
    assert_eq!(OpenCadError::Other("plain".into()).to_message(), "plain");
}
