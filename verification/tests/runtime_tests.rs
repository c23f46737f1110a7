use eventline::runtime::config::Config;
use eventline::runtime::log_level::recording_enabled;
use eventline::runtime::{self as rt_api, Runtime};
use eventline::journal::fields::Fields;
use eventline::{EventKind, LogLevel, Outcome, Record, RecordKind, ScopeId, ScopeStack};

fn emit_if_recorded(rt: &mut Runtime, stack: &ScopeStack, kind: EventKind, message: &str) {
    if recording_enabled(&rt_api::levels(rt), kind) {
        rt_api::emit(rt, stack, kind, message.to_string(), Fields::new());
    }
}

fn event_scope(records: &[Record], message: &str) -> Option<ScopeId> {
    records.iter().find_map(|record| match &record.kind {
        RecordKind::Event { name, .. } if name == message => record.scope,
        _ => None,
    })
}

#[test]
fn effective_level_uses_most_verbose_enabled_sink() {
    let cfg = Config {
        console_enabled: true,
        console_level: LogLevel::Info,
        file_enabled: true,
        file_level: LogLevel::Debug,
        ..Config::default()
    };

    assert_eq!(cfg.effective_level(), LogLevel::Debug);
}

#[test]
fn effective_level_ignores_disabled_sinks() {
    let cfg = Config {
        console_enabled: false,
        file_enabled: true,
        file_level: LogLevel::Warning,
        ..Config::default()
    };

    assert_eq!(cfg.effective_level(), LogLevel::Warning);
}

#[test]
fn filtered_output_still_records() {
    let mut rt = Runtime::new();
    let mut stack = ScopeStack::new();
    rt_api::clear(&mut rt, &mut stack);
    rt_api::disable_all_output(&mut rt);
    rt_api::set_recording_level(&mut rt, LogLevel::Debug);

    emit_if_recorded(&mut rt, &stack, EventKind::Debug, "hidden but recorded");

    let records = rt_api::records(&rt);
    assert!(records.iter().any(|record| matches!(
        &record.kind,
        RecordKind::Event {
            kind: EventKind::Debug,
            name,
            ..
        } if name == "hidden but recorded"
    )));
}

#[test]
fn nested_runtime_scopes_restore_parent_scope() {
    let mut rt = Runtime::new();
    let mut stack = ScopeStack::new();
    rt_api::clear(&mut rt, &mut stack);
    rt_api::disable_all_output(&mut rt);
    rt_api::set_recording_level(&mut rt, LogLevel::Debug);

    let parent = rt_api::enter_scope(&mut rt, &mut stack, "parent".to_string());
    emit_if_recorded(&mut rt, &stack, EventKind::Info, "parent event");
    let child = rt_api::enter_scope(&mut rt, &mut stack, "child".to_string());
    emit_if_recorded(&mut rt, &stack, EventKind::Info, "child event");
    rt_api::exit_scope(&mut rt, &mut stack, child, Outcome::Success);
    emit_if_recorded(&mut rt, &stack, EventKind::Info, "parent event after child");
    rt_api::exit_scope(&mut rt, &mut stack, parent, Outcome::Success);

    let records = rt_api::records(&rt);
    assert_eq!(event_scope(&records, "parent event"), Some(parent));
    assert_eq!(event_scope(&records, "child event"), Some(child));
    assert_eq!(event_scope(&records, "parent event after child"), Some(parent));
}

#[test]
fn runtime_scopes_are_thread_local() {
    // Each thread keeps its own scope stack over the shared runtime state;
    // here two stacks interleave their work on one runtime.
    let mut rt = Runtime::new();
    rt_api::disable_all_output(&mut rt);
    rt_api::set_recording_level(&mut rt, LogLevel::Debug);
    let mut stack_a = ScopeStack::new();
    let mut stack_b = ScopeStack::new();

    let first = rt_api::enter_scope(&mut rt, &mut stack_a, "thread-a".to_string());
    let second = rt_api::enter_scope(&mut rt, &mut stack_b, "thread-b".to_string());
    emit_if_recorded(&mut rt, &stack_a, EventKind::Info, "event-a");
    emit_if_recorded(&mut rt, &stack_b, EventKind::Info, "event-b");
    rt_api::exit_scope(&mut rt, &mut stack_a, first, Outcome::Success);
    rt_api::exit_scope(&mut rt, &mut stack_b, second, Outcome::Success);

    let records = rt_api::records(&rt);

    assert_eq!(event_scope(&records, "event-a"), Some(first));
    assert_eq!(event_scope(&records, "event-b"), Some(second));
}

#[test]
fn recording_level_gates_what_is_recorded() {
    let mut rt = Runtime::new();
    let stack = ScopeStack::new();
    rt_api::set_recording_level(&mut rt, LogLevel::Info);
    emit_if_recorded(&mut rt, &stack, EventKind::Debug, "dropped");
    emit_if_recorded(&mut rt, &stack, EventKind::Info, "kept");
    let records = rt_api::records(&rt);
    assert_eq!(records.len(), 1);
    assert!(event_scope(&records, "kept").is_none());
    assert!(matches!(&records[0].kind, RecordKind::Event { name, .. } if name == "kept"));
}

#[test]
fn rebuild_only_when_configuration_changes() {
    let mut rt = Runtime::new();
    let first = rt_api::init_sync(&mut rt);
    assert!(first.is_some());
    // Same configuration again: nothing to rebuild.
    assert!(rt_api::init_sync(&mut rt).is_none());
    let console_on = rt.config().console_enabled;
    assert!(rt_api::enable_console_output(&mut rt, console_on).is_none());
    let plan = rt_api::enable_file_output(&mut rt, "/tmp/app.log".to_string()).unwrap();
    let file = plan.file.unwrap();
    assert_eq!(file.path, "/tmp/app.log");
    assert_eq!(file.level, LogLevel::Debug);
    assert!(file.policy.is_none());
    // The output threshold follows the most verbose enabled sink.
    assert_eq!(eventline::runtime::log_level::get_log_level(&rt_api::levels(&rt)), LogLevel::Debug);
    let plan = rt_api::disable_all_output(&mut rt).unwrap();
    assert!(plan.console.is_none() && plan.file.is_none());
}

#[test]
fn retention_keeps_at_least_one_record() {
    let mut rt = Runtime::new();
    rt_api::set_journal_retention(&mut rt, 0);
    assert_eq!(rt.config().max_journal_records, 1);
    rt_api::set_journal_retention(&mut rt, 10);
    assert_eq!(rt.config().max_journal_records, 10);
}

#[test]
fn runtime_scope_guard_exits_once() {
    let mut rt = Runtime::new();
    let mut stack = ScopeStack::new();
    let mut guard = rt_api::scope_guard(&mut rt, &mut stack, "job".to_string());
    assert!(!guard.is_exited());
    assert!(guard.exit(&mut rt, &mut stack, Outcome::Failure).is_some());
    assert!(guard.is_exited());
    assert!(guard.exit(&mut rt, &mut stack, Outcome::Success).is_none());
    let records = rt_api::records(&rt);
    assert_eq!(records.len(), 1);
    assert!(matches!(records[0].kind, RecordKind::ScopeExit { outcome: Outcome::Failure, .. }));
    assert_eq!(eventline::runtime::scope_stack::current_scope(&stack), None);
}

#[test]
fn writer_errors_are_observable() {
    let mut rt = Runtime::new();
    assert_eq!(rt_api::last_writer_error(&rt), None);
    rt_api::set_last_writer_error(&mut rt, Some("failed to open log file".to_string()));
    assert_eq!(rt_api::last_writer_error(&rt).as_deref(), Some("failed to open log file"));
}

#[test]
fn retention_trims_on_the_trim_interval() {
    let mut rt = Runtime::new();
    let stack = ScopeStack::new();
    rt_api::set_journal_retention(&mut rt, 10);
    for i in 0..rt_api::TRIM_INTERVAL + 1 {
        rt_api::emit(&mut rt, &stack, EventKind::Info, format!("event {i}"), Fields::new());
    }
    assert_eq!(rt_api::records(&rt).len(), 10);
    rt_api::emit(&mut rt, &stack, EventKind::Info, "one more".to_string(), Fields::new());
    let records = rt_api::records(&rt);
    assert_eq!(records.len(), 11);
    assert!(matches!(&records[10].kind, RecordKind::Event { name, .. } if name == "one more"));
}
