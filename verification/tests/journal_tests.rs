use eventline::journal::fields::Fields;
use eventline::journal::rotation::{rotated_name, rotation_steps, RotationStep, RotationTracker};
use eventline::{EventKind, ExitMessages, Journal, LogPolicy, Outcome, RecordId, RecordKind, ScopeId, Value};

#[test]
fn test_valid_scope_operations() {
    let mut journal = Journal::new();
    let scope = journal.enter_scope_unnamed(None);

    journal.record_no_write_in_scope(EventKind::Info, "valid info event".to_string(), Fields::new(), Some(scope));
    journal.record_no_write_in_scope(
        EventKind::Warning,
        "something unexpected happened".to_string(),
        Fields::new(),
        Some(scope),
    );
    journal.record_no_write_in_scope(EventKind::Error, "something went wrong".to_string(), Fields::new(), Some(scope));

    journal.exit_scope(scope, Outcome::Success);
}

#[test]
fn test_event_kind_is_preserved() {
    let mut journal = Journal::new();
    let scope = journal.enter_scope_unnamed(None);
    journal.record_no_write_in_scope(EventKind::Warning, "this is a warning".to_string(), Fields::new(), Some(scope));
    let records = journal.records();
    let record = records.last().unwrap();
    match &record.kind {
        RecordKind::Event { kind, name, fields } => {
            assert_eq!(*kind, EventKind::Warning);
            assert_eq!(name, "this is a warning");
            assert!(fields.is_empty());
        },
        RecordKind::ScopeExit { .. } => panic!("expected an event"),
    }
}

#[test]
fn scopes_are_finalized_exactly_once() {
    let mut journal = Journal::new();
    let scope = journal.enter_scope("once".to_string());
    let (_, first) = journal.exit_scope_no_write_at(scope, Outcome::Success, 10, 100);
    assert!(first.is_some());
    let (_, second) = journal.exit_scope_no_write_at(scope, Outcome::Failure, 20, 200);
    assert!(second.is_none());
    let records = journal.records();
    assert_eq!(records.len(), 1);
    assert!(matches!(records[0].kind, RecordKind::ScopeExit { outcome: Outcome::Success, .. }));
    assert_eq!(journal.scopes()[0].exited_at, Some(10));
    // Exiting an unknown scope writes nothing either.
    let (_, unknown) = journal.exit_scope_no_write_at(ScopeId(999), Outcome::Success, 30, 300);
    assert!(unknown.is_none());
    assert_eq!(journal.records().len(), 1);
}

#[test]
fn exit_records_carry_elapsed_time() {
    let mut journal = Journal::new();
    let scope = journal.enter_scope_at("timed".to_string(), 1_000);
    let (id, payload) = journal.exit_scope_no_write_at(scope, Outcome::Success, 1_250, 77);
    let (record, finished) = payload.unwrap();
    assert_eq!(record.id, id);
    assert_eq!(record.time_ns, 77);
    assert!(matches!(record.kind, RecordKind::ScopeExit { duration_ns: 250_000_000, .. }));
    assert_eq!(finished.elapsed_at(0), 250);
}

#[test]
fn records_are_append_only_and_ids_increase() {
    let mut journal = Journal::new();
    let a = journal.record(EventKind::Info, "a".to_string(), Fields::new());
    let b = journal.record(EventKind::Info, "b".to_string(), Fields::new());
    assert_eq!(a, RecordId(0));
    assert_eq!(b, RecordId(1));
    let records = journal.records();
    assert_eq!(records.len(), 2);
    assert_eq!(records[0].id, a);
    assert!(journal.get_record(b).is_some());
    assert!(journal.get_record(RecordId(5)).is_none());
}

#[test]
fn trimming_keeps_the_newest() {
    let mut journal = Journal::new();
    for i in 0..5 {
        journal.record(EventKind::Debug, format!("event {i}"), Fields::new());
    }
    journal.trim_records(2);
    let records = journal.records();
    assert_eq!(records.len(), 2);
    assert_eq!(records[0].id, RecordId(3));
    assert_eq!(records[1].id, RecordId(4));
    journal.trim_records(10);
    assert_eq!(journal.records().len(), 2);
}

#[test]
fn current_scope_follows_enter_and_exit() {
    let mut journal = Journal::new();
    let outer = journal.enter_scope("outer".to_string());
    let inner = journal.enter_scope("inner".to_string());
    journal.record(EventKind::Info, "in inner".to_string(), Fields::new());
    journal.exit_scope(inner, Outcome::Success);
    journal.record(EventKind::Info, "in outer".to_string(), Fields::new());
    let records = journal.records();
    assert_eq!(records[0].scope, Some(inner));
    assert_eq!(records[2].scope, Some(outer));
    assert_eq!(journal.get_scope(inner).unwrap().parent, Some(outer));
}

#[test]
fn exit_messages_merge() {
    let mut journal = Journal::new();
    let scope = journal.enter_scope("cfg".to_string());
    assert!(journal.set_scope_exit_messages(
        scope,
        ExitMessages { success: Some("loaded".to_string()), failure: Some("failed".to_string()), aborted: None },
    ));
    assert!(journal.set_scope_exit_messages(
        scope,
        ExitMessages { success: None, failure: Some("broken".to_string()), aborted: Some("stopped".to_string()) },
    ));
    let s = journal.get_scope(scope).unwrap();
    assert_eq!(s.exit_message_for(Outcome::Success), Some("loaded"));
    assert_eq!(s.exit_message_for(Outcome::Failure), Some("broken"));
    assert_eq!(s.exit_message_for(Outcome::Aborted), Some("stopped"));
    assert!(!journal.set_scope_exit_messages(ScopeId(42), ExitMessages::default()));
}

#[test]
fn journal_scope_guard_exits_once() {
    let mut journal = Journal::new();
    let mut guard = journal.scope_guard("guarded".to_string());
    guard.exit(&mut journal, Outcome::Aborted);
    guard.exit(&mut journal, Outcome::Success);
    assert!(guard.is_exited());
    let records = journal.records();
    assert_eq!(records.len(), 1);
    assert!(matches!(records[0].kind, RecordKind::ScopeExit { outcome: Outcome::Aborted, .. }));
    assert_eq!(records[0].scope, Some(guard.id()));
}

#[test]
fn fields_replace_and_look_up() {
    let mut fields = Fields::new();
    fields.insert("a".to_string(), Value::Int(1));
    fields.insert("b".to_string(), Value::Bool(true));
    fields.insert("a".to_string(), Value::Uint(2));
    assert_eq!(fields.len(), 2);
    assert!(matches!(fields.get("a"), Some(Value::Uint(2))));
    assert!(matches!(fields.get("b"), Some(Value::Bool(true))));
    assert!(fields.get("c").is_none());
    assert_eq!(fields.entries()[0].0, "a");
}

#[test]
fn jsonl_export_has_one_line_per_record() {
    let mut journal = Journal::new();
    let scope = journal.enter_scope("job".to_string());
    journal.record(EventKind::Info, "started".to_string(), Fields::new());
    journal.exit_scope(scope, Outcome::Success);
    let lines = journal.records_jsonl();
    assert_eq!(lines.len(), 2);
    let first: serde_json::Value = serde_json::from_str(&lines[0]).unwrap();
    assert_eq!(first["scope"]["name"], "job");
    assert_eq!(first["message"], "started");
    journal.clear();
    assert!(journal.records().is_empty());
    assert!(journal.scopes().is_empty());
}

#[test]
fn rotation_plans_shift_backups() {
    assert_eq!(rotation_steps(0), vec![RotationStep::RemoveActive]);
    assert_eq!(rotation_steps(1), vec![RotationStep::ActiveToFirst]);
    assert_eq!(
        rotation_steps(3),
        vec![
            RotationStep::ShiftBackup { from: 2, to: 3 },
            RotationStep::ShiftBackup { from: 1, to: 2 },
            RotationStep::ActiveToFirst,
        ]
    );
    assert_eq!(rotated_name("logs/app.log", 2), "logs/app.log.2");
}

#[test]
fn rotation_happens_before_a_write_would_cross_the_limit() {
    let policy = LogPolicy::new(10, 2);
    let (mut tracker, rotate_now) = RotationTracker::open(policy, Some(4));
    assert!(!rotate_now);
    assert!(!tracker.before_write(4));
    assert_eq!(tracker.current_size, 9);
    assert!(tracker.before_write(3));
    assert_eq!(tracker.current_size, 4);
    let (_, rotate_full) = RotationTracker::open(policy, Some(10));
    assert!(rotate_full);
    let default = LogPolicy::default();
    assert_eq!(default.max_bytes, 5 * 1024 * 1024);
    assert_eq!(default.keep_backups, 5);
}
