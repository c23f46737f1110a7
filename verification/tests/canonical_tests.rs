use eventline::journal::utils::millis_to_local;
use eventline::journal::fields::Fields;
use eventline::render::canonical::{render_event, render_scope_header, scope_header, RenderConfig};
use eventline::render::console::{event_line, scoped_event_line, ConsoleFlags};
use eventline::render::tree::{journal_file_lines, journal_tree_lines, summary_lines};
use eventline::{EventKind, Filter, Journal, Outcome, Record, RecordId, RecordKind, ScopeFilter};

#[test]
fn test_scope_header_format() {
    let mut journal = Journal::new();
    let scope = journal.enter_scope_unnamed(None);
    journal.exit_scope(scope, Outcome::Success);

    let config = RenderConfig::no_color();
    let rendered = render_scope_header(&journal, journal.scopes().first().unwrap(), &config);

    assert!(rendered.header.contains("Scope unnamed"));
    assert!(rendered.header.contains("→ Success"));
    assert!(rendered.header.contains("ms)"));
}

#[test]
fn test_event_format() {
    let _journal = Journal::new();
    let record = Record {
        id: RecordId(1),
        scope: None,
        kind: RecordKind::Event { kind: EventKind::Warning, name: "test message".to_string(), fields: Fields::new() },
        time_ns: 0,
    };

    let config = RenderConfig::no_color();
    let rendered = render_event(&record, &config, 1).unwrap();

    assert!(rendered.main.contains("•"));
    assert!(rendered.main.contains("warning"));
    assert!(rendered.main.contains("test message"));
    assert!(rendered.detail.is_none());
}

#[test]
fn test_no_arrow_duplication() {
    let _journal = Journal::new();
    let record = Record {
        id: RecordId(1),
        scope: None,
        kind: RecordKind::Event {
            kind: EventKind::Error,
            name: "failed to bind socket".to_string(),
            fields: Fields::new(),
        },
        time_ns: 0,
    };

    let config = RenderConfig::default();
    let rendered = render_event(&record, &config, 1).unwrap();

    assert!(rendered.detail.is_none());
}

#[test]
fn test_console_flags() {
    let mut flags = ConsoleFlags::default();
    flags.enable_console_output(true);
    assert!(flags.is_console_enabled());

    flags.enable_console_output(false);
    assert!(!flags.is_console_enabled());

    flags.enable_console_color(true);
    assert!(flags.is_console_color_enabled());

    flags.enable_console_color(false);
    assert!(!flags.is_console_color_enabled());
}

#[test]
fn canonical_lines_are_exact() {
    let record = Record {
        id: RecordId(1),
        scope: None,
        kind: RecordKind::Event { kind: EventKind::Warning, name: "disk space low".to_string(), fields: Fields::new() },
        time_ns: 0,
    };
    let rendered = render_event(&record, &RenderConfig::no_timestamps(), 1).unwrap();
    assert_eq!(rendered.main, "  • warning   disk space low");
    let exit = Record {
        id: RecordId(2),
        scope: None,
        kind: RecordKind::ScopeExit { outcome: Outcome::Success, duration_ns: 1 },
        time_ns: 0,
    };
    assert!(render_event(&exit, &RenderConfig::default(), 0).is_none());

    let mut journal = Journal::new();
    let id = journal.enter_scope_at("startup".to_string(), 1_000);
    journal.exit_scope_no_write_at(id, Outcome::Failure, 1_412, 9);
    let s = journal.get_scope(id).unwrap();
    assert_eq!(
        render_scope_header(&journal, &s, &RenderConfig::no_timestamps()).header,
        "Scope startup (id=0) → Failure (412ms)"
    );
    assert_eq!(
        scope_header(&s, Outcome::Aborted, 3, Some("19:04:12")).header,
        "[19:04:12] Scope startup (id=0) → Aborted (3ms)"
    );
    let with_time = render_scope_header(&journal, &s, &RenderConfig::default()).header;
    assert!(with_time.starts_with('['));
    assert!(with_time.ends_with("] Scope startup (id=0) → Failure (412ms)"));
}

#[test]
fn console_event_lines() {
    let l = event_line(EventKind::Info, "Server started");
    assert_eq!(l.text, "Server started");
    assert!(!l.to_stderr);
    let l = event_line(EventKind::Error, "failed to connect");
    assert_eq!(l.text, "error: failed to connect");
    assert!(l.to_stderr);
    assert_eq!(event_line(EventKind::Warning, "disk space low").text, "warning: disk space low");
    assert_eq!(event_line(EventKind::Debug, "packet received").text, "debug: packet received");
    let s = scoped_event_line(EventKind::Info, "message here", 1, false);
    assert_eq!(s.text, "  • info      message here");
    let w = scoped_event_line(EventKind::Error, "connection failed", 1, true);
    assert_eq!(w.text, "  * error     connection failed");
    assert!(w.to_stderr);
    assert!(!ConsoleFlags::new().is_console_enabled());
}

#[test]
fn journal_tree_and_summary() {
    let mut journal = Journal::new();
    let ok = journal.enter_scope_at("ok".to_string(), 0);
    journal.record(EventKind::Info, "fine".to_string(), Fields::new());
    journal.exit_scope_no_write_at(ok, Outcome::Success, 5, 1);
    let bad = journal.enter_scope_at("bad".to_string(), 10);
    journal.record(EventKind::Error, "broken".to_string(), Fields::new());
    journal.exit_scope_no_write_at(bad, Outcome::Failure, 30, 2);

    let lines = journal_tree_lines(&journal, false, None, false);
    assert_eq!(lines.len(), 4);
    assert!(lines[0].ends_with("] Scope ok (id=0) → Success (5ms)"));
    assert_eq!(lines[1], "  • info      fine");
    assert!(lines[2].ends_with("] Scope bad (id=1) → Failure (20ms)"));
    assert_eq!(lines[3], "  • error     broken");

    let failed_only = Filter::scope(ScopeFilter::Outcome(Outcome::Failure));
    let lines = journal_tree_lines(&journal, true, Some(&failed_only), false);
    assert_eq!(lines.len(), 2);
    assert!(lines[0].contains("Scope bad"));

    let summary = summary_lines(&journal, false, None, false);
    assert_eq!(
        summary,
        vec![
            "Session summary: 2 scopes, 2 events".to_string(),
            "  Successful scopes: 1".to_string(),
            "  Failed scopes: 1".to_string(),
            "  Aborted scopes: 0".to_string(),
            "  Total duration: 25ms".to_string(),
        ]
    );
    let per_scope = summary_lines(&journal, false, Some(&failed_only), true);
    assert_eq!(per_scope[0], "Session summary: 1 scopes, 2 events");
    assert_eq!(per_scope[5], "\nPer-scope summary:");
    assert!(per_scope[6].starts_with("  ["));
    assert!(per_scope[6].ends_with("] Scope bad (id=1) → Failure (20ms)"));
}

#[test]
fn windows_uses_an_ascii_bullet() {
    assert_eq!(RenderConfig::for_platform(true).bullet, "*");
    assert_eq!(RenderConfig::for_platform(false).bullet, "•");
    let mut journal = Journal::new();
    let id = journal.enter_scope_at("job".to_string(), 0);
    journal.record(EventKind::Info, "fine".to_string(), Fields::new());
    journal.exit_scope_no_write_at(id, Outcome::Success, 1, 1);
    let lines = journal_tree_lines(&journal, false, None, true);
    assert_eq!(lines[1], "  * info      fine");
}

#[test]
fn local_time_text_follows_the_instant() {
    let epoch = millis_to_local(0);
    assert_eq!(epoch.len(), 19);
    let later = millis_to_local(1_000_000_000_000);
    assert!(later.starts_with("2001-09-0"), "{later}");
    assert_ne!(later, epoch);
}

#[test]
fn local_time_out_of_range_shows_the_epoch() {
    assert_eq!(millis_to_local(i64::MAX as u64), millis_to_local(0));
}

#[test]
fn journal_file_lines_list_scopes_and_events() {
    let mut journal = Journal::new();
    let scope = journal.enter_scope_unnamed_at(None, 1_000);
    journal.record_no_write_at(EventKind::Info, "Test event".to_string(), Fields::new(), 1_500_000_000);
    journal.exit_scope_no_write_at(scope, Outcome::Success, 2_234, 2_234_000_000);
    let lines = journal_file_lines(&journal, false);
    assert_eq!(lines.len(), 2);
    assert!(lines[0].starts_with('['), "{}", lines[0]);
    assert!(lines[0].ends_with("] Scope 0 (Success) [1.234s]"), "{}", lines[0]);
    assert_eq!(lines[1], "  • Test event");
    let windows = journal_file_lines(&journal, true);
    assert_eq!(windows[1], "  * Test event");
}
