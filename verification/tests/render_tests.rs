use eventline::journal::fields::Fields;
use eventline::render::json::render_jsonl;
use eventline::render::timestamp::{format_timestamp_ns_utc, push_datetime};
use eventline::render::{
    format_duration_ns, render_console, render_console_at_offset, render_file, render_file_at_offset, scope_exit_label,
    scope_label, ConsoleStyle, FileFormat, FileStyle,
};
use eventline::{EventKind, ExitMessages, Outcome, Record, RecordId, RecordKind, Scope, ScopeId, Value};

fn startup_scope(id: u64) -> Scope {
    Scope {
        id: ScopeId(id),
        parent: None,
        entered_at: 0,
        name: Some("startup".to_string()),
        exited_at: Some(1),
        exit_messages: Default::default(),
    }
}

#[test]
fn console_can_hide_scope_exit_lines() {
    let record = Record {
        id: RecordId(1),
        scope: Some(ScopeId(2)),
        time_ns: 0,
        kind: RecordKind::ScopeExit { outcome: Outcome::Success, duration_ns: 1_000 },
    };
    let scope = startup_scope(2);

    let rendered = render_console(&record, Some(&scope), ConsoleStyle { show_scope_exit: false, ..ConsoleStyle::default() });

    assert!(rendered.is_empty());
}

#[test]
fn file_render_includes_sorted_fields() {
    let mut fields = Fields::new();
    fields.insert("method".to_string(), Value::String("oauth".to_string()));
    fields.insert("user_id".to_string(), Value::Int(42));

    let record = Record {
        id: RecordId(1),
        scope: None,
        time_ns: 0,
        kind: RecordKind::Event { kind: EventKind::Info, name: "user login".to_string(), fields },
    };

    let rendered = render_file(&record, None, FileStyle { show_timestamp: false, show_scope: true, format: FileFormat::Text });

    assert_eq!(rendered, "info:  user login {method=\"oauth\", user_id=42}");
}

#[test]
fn console_render_uses_padded_colon_prefixes() {
    let info = Record {
        id: RecordId(1),
        scope: None,
        time_ns: 0,
        kind: RecordKind::Event { kind: EventKind::Info, name: "server listening".to_string(), fields: Fields::new() },
    };
    let done = Record {
        id: RecordId(2),
        scope: Some(ScopeId(3)),
        time_ns: 0,
        kind: RecordKind::ScopeExit { outcome: Outcome::Success, duration_ns: 1_000_000 },
    };
    let scope = startup_scope(3);
    let style = ConsoleStyle { color: false, ..ConsoleStyle::default() };

    assert_eq!(render_console(&info, None, style), "info:  server listening");
    assert_eq!(render_console(&done, Some(&scope), style), "done:  startup#3 [success] (1.0ms)");
}

#[test]
fn jsonl_render_is_machine_readable() {
    let mut fields = Fields::new();
    fields.insert("user_id".to_string(), Value::Int(42));

    let record = Record {
        id: RecordId(7),
        scope: None,
        time_ns: 123,
        kind: RecordKind::Event { kind: EventKind::Info, name: "user login".to_string(), fields },
    };

    let rendered = render_jsonl(&record, None);
    let json: serde_json::Value = serde_json::from_str(&rendered).unwrap();

    assert_eq!(json["type"], "event");
    assert_eq!(json["level"], "info");
    assert_eq!(json["message"], "user login");
    assert_eq!(json["fields"]["user_id"]["value"], 42);
}

#[test]
fn jsonl_escapes_and_describes_scope_exits() {
    let scope = startup_scope(3);
    let done = Record {
        id: RecordId(9),
        scope: Some(ScopeId(3)),
        time_ns: 5,
        kind: RecordKind::ScopeExit { outcome: Outcome::Failure, duration_ns: 2_500_000 },
    };
    let json: serde_json::Value = serde_json::from_str(&render_jsonl(&done, Some(&scope))).unwrap();
    assert_eq!(json["type"], "scope_exit");
    assert_eq!(json["outcome"], "failure");
    assert_eq!(json["duration_ns"], 2_500_000);

    let quoted = Record {
        id: RecordId(10),
        scope: None,
        time_ns: 5,
        kind: RecordKind::Event { kind: EventKind::Warning, name: "say \"hi\"\n".to_string(), fields: Fields::new() },
    };
    let json: serde_json::Value = serde_json::from_str(&render_jsonl(&quoted, None)).unwrap();
    assert_eq!(json["message"], "say \"hi\"\n");
    assert_eq!(json["level"], "warn");
}

#[test]
fn durations_render_with_their_unit() {
    assert_eq!(format_duration_ns(999), "999ns");
    assert_eq!(format_duration_ns(1_000), "1us");
    assert_eq!(format_duration_ns(999_999), "999us");
    assert_eq!(format_duration_ns(1_000_000), "1.0ms");
    assert_eq!(format_duration_ns(3_200_000), "3.2ms");
    assert_eq!(format_duration_ns(18_400_000), "18.4ms");
    assert_eq!(format_duration_ns(2_500_000_000), "2.5s");
}

#[test]
fn utc_timestamps_render_exactly() {
    assert_eq!(format_timestamp_ns_utc(0), "1970-01-01 00:00:00.000");
    assert_eq!(format_timestamp_ns_utc(1_700_000_000_123_000_000), "2023-11-14 22:13:20.123");
    let mut s = String::new();
    push_datetime(&mut s, (2024, 2, 29, 23, 59, 7), 5, Some(3600));
    assert_eq!(s, "2024-02-29 23:59:07.005 +0100");
}

#[test]
fn file_lines_at_an_offset() {
    let record = Record {
        id: RecordId(1),
        scope: Some(ScopeId(4)),
        time_ns: 1_700_000_000_123_000_000,
        kind: RecordKind::Event { kind: EventKind::Error, name: "request failed".to_string(), fields: Fields::new() },
    };
    let scope = Scope { name: Some("request".to_string()), ..startup_scope(4) };
    let style = FileStyle { show_timestamp: true, show_scope: true, format: FileFormat::Text };
    let line = render_file_at_offset(&record, Some(&scope), style, Some(0));
    assert_eq!(line, "[2023-11-14 22:13:20.123 +0000] error: request failed (request#4)");
    let console = render_console_at_offset(&record, Some(&scope), ConsoleStyle { color: false, show_timestamp: false, ..ConsoleStyle::default() }, None);
    assert_eq!(console, "error: request failed (request#4)");
}

#[test]
fn scope_labels_and_exit_messages() {
    let scope = Scope {
        exit_messages: ExitMessages { success: Some("loaded".to_string()), failure: None, aborted: None },
        ..startup_scope(12)
    };
    assert_eq!(scope_label(&scope), "startup#12");
    assert_eq!(scope_exit_label(&scope, Outcome::Success), "startup#12 loaded");
    assert_eq!(scope_exit_label(&scope, Outcome::Failure), "startup#12");
    let unnamed = Scope { name: None, ..startup_scope(5) };
    assert_eq!(scope_label(&unnamed), "#5");
}

#[test]
fn jsonl_escapes_control_characters() {
    let record = Record {
        id: RecordId(1),
        scope: None,
        time_ns: 0,
        kind: RecordKind::Event { kind: EventKind::Info, name: "a\u{1}b\tc\\".to_string(), fields: Fields::new() },
    };
    let rendered = render_jsonl(&record, None);
    assert!(rendered.contains(r#""message":"a\u0001b\tc\\""#));
}

#[test]
fn utc_timestamps_follow_the_gregorian_calendar() {
    assert_eq!(format_timestamp_ns_utc(951_782_400_000_000_000), "2000-02-29 00:00:00.000");
    assert_eq!(format_timestamp_ns_utc(951_868_799_999_000_000), "2000-02-29 23:59:59.999");
    assert_eq!(format_timestamp_ns_utc(4_102_444_800_000_000_000), "2100-01-01 00:00:00.000");
    assert_eq!(format_timestamp_ns_utc(4_107_542_400_000_000_000), "2100-03-01 00:00:00.000");
}
