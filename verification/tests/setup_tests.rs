use eventline::runtime::run_header::header_block;
use eventline::configure::{apply_setup, setup_level};
use eventline::integrations::{level_allowed, map_level, EventVisitor, ExternalLevel};
use eventline::journal::fields::Fields;
use eventline::runtime::log_level::{get_log_level, LevelThresholds};
use eventline::runtime::scope_stack::{current_scope, remove_scope_from_stack};
use eventline::{EventKind, FileSetup, LogLevel, LogPolicy, RunHeader, Runtime, ScopeId, ScopeStack, Setup, Value};

#[test]
fn setup_picks_the_level() {
    let verbose = Setup { verbose: true, level: None, file: None };
    assert_eq!(setup_level(&verbose), LogLevel::Debug);
    let quiet = Setup { verbose: false, level: None, file: None };
    assert_eq!(setup_level(&quiet), LogLevel::Info);
    let explicit = Setup { verbose: true, level: Some(LogLevel::Error), file: None };
    assert_eq!(setup_level(&explicit), LogLevel::Error);
}

#[test]
fn setup_applies_console_level_and_file() {
    let mut rt = Runtime::new();
    let plan = apply_setup(
        &mut rt,
        Setup { verbose: false, level: Some(LogLevel::Warning), file: Some(FileSetup::Plain { path: "app.log".to_string() }) },
    )
    .unwrap();
    assert!(plan.console.is_none());
    let file = plan.file.unwrap();
    assert_eq!(file.path, "app.log");
    assert!(!rt.config().console_enabled);
    assert!(rt.config().file_enabled);

    let plan = apply_setup(
        &mut rt,
        Setup {
            verbose: true,
            level: None,
            file: Some(FileSetup::Rotating {
                path: "logs/app.log".to_string(),
                policy: LogPolicy::new(100, 2),
                header: Some(RunHeader::new("app".to_string())),
            }),
        },
    )
    .unwrap();
    assert!(plan.console.is_some());
    assert_eq!(plan.file.unwrap().policy, Some(LogPolicy::new(100, 2)));

    let plan = apply_setup(&mut rt, Setup { verbose: true, level: None, file: Some(FileSetup::Off) }).unwrap();
    assert!(plan.file.is_none());
    assert!(!rt.config().file_enabled);
    // With nothing left to change, no rebuild is asked for, and the level
    // the setup sets stays in force.
    let plan = apply_setup(&mut rt, Setup { verbose: true, level: Some(LogLevel::Error), file: None });
    assert!(plan.is_none());
    assert_eq!(get_log_level(&eventline::runtime::levels(&rt)), LogLevel::Error);
}

#[test]
fn framework_levels_map_to_event_kinds() {
    assert_eq!(map_level(ExternalLevel::Error), EventKind::Error);
    assert_eq!(map_level(ExternalLevel::Warn), EventKind::Warning);
    assert_eq!(map_level(ExternalLevel::Info), EventKind::Info);
    assert_eq!(map_level(ExternalLevel::Debug), EventKind::Debug);
    assert_eq!(map_level(ExternalLevel::Trace), EventKind::Debug);
}

#[test]
fn visitor_separates_message_and_fields() {
    let mut v = EventVisitor::new();
    v.record_value("attempt".to_string(), Value::Uint(2));
    v.record_str("message".to_string(), "retrying request".to_string());
    v.record_str("host".to_string(), "db".to_string());
    let (message, fields) = v.finish("fallback".to_string());
    assert_eq!(message, "retrying request");
    assert_eq!(fields.len(), 2);
    assert!(matches!(fields.get("attempt"), Some(Value::Uint(2))));

    let mut w = EventVisitor::new();
    w.record_value("message".to_string(), Value::Bool(true));
    let (message, fields) = w.finish("event name".to_string());
    assert_eq!(message, "true");
    assert!(fields.is_empty());
    let (message, _) = EventVisitor::new().finish("event name".to_string());
    assert_eq!(message, "event name");
    let _unused: Fields = Fields::new();
}

#[test]
fn run_header_lines() {
    let header = RunHeader::without_pid("my-daemon".to_string()).with_width(30);
    let line = header.render(1);
    assert_eq!(line, "========= my-daemon ==========");
    assert_eq!(line.len(), 30);
    let with_pid = RunHeader::new("d".to_string()).render(18432);
    assert_eq!(with_pid.len(), 72);
    assert!(with_pid.contains(" d (pid=18432) "));
    let narrow = RunHeader::without_pid("long title".to_string()).with_width(5).render(0);
    assert_eq!(narrow, "== long title ==");
}

#[test]
fn scope_stacks_restore_on_exit() {
    let mut stack = ScopeStack::new();
    stack.push(ScopeId(1));
    stack.push(ScopeId(2));
    stack.push(ScopeId(3));
    remove_scope_from_stack(&mut stack, ScopeId(2));
    assert_eq!(current_scope(&stack), Some(ScopeId(3)));
    remove_scope_from_stack(&mut stack, ScopeId(3));
    assert_eq!(current_scope(&stack), Some(ScopeId(1)));
    remove_scope_from_stack(&mut stack, ScopeId(7));
    assert_eq!(current_scope(&stack), Some(ScopeId(1)));
    stack.clear();
    assert_eq!(current_scope(&stack), None);
}

#[test]
fn level_thresholds() {
    let t = LevelThresholds::default();
    assert_eq!(t.log, LogLevel::Info);
    assert_eq!(t.record, LogLevel::Debug);
    assert_eq!(LogLevel::from_u8(LogLevel::Warning.as_u8()), LogLevel::Warning);
    assert!(LogLevel::Debug.is_below(LogLevel::Info));
    assert!(!LogLevel::Error.is_below(LogLevel::Error));
}

#[test]
fn header_blocks_separate_runs() {
    assert_eq!(header_block(0, "== app ==".to_string()), "== app ==\n");
    assert_eq!(header_block(12, "== app ==".to_string()), "\n== app ==\n");
}

#[test]
fn framework_levels_pass_up_to_the_maximum() {
    assert!(level_allowed(ExternalLevel::Error, Some(ExternalLevel::Error)));
    assert!(!level_allowed(ExternalLevel::Warn, Some(ExternalLevel::Error)));
    assert!(level_allowed(ExternalLevel::Info, Some(ExternalLevel::Debug)));
    assert!(level_allowed(ExternalLevel::Trace, Some(ExternalLevel::Trace)));
    assert!(!level_allowed(ExternalLevel::Trace, Some(ExternalLevel::Debug)));
    assert!(!level_allowed(ExternalLevel::Error, None));
}
