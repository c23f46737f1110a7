//! Rendering records as console lines, text-file lines and JSON lines.
pub mod canonical;
pub mod console;
pub mod field_text;
pub mod json;
pub mod timestamp;
pub mod tree;

use crate::base::event_kind::EventKind;
use crate::base::outcome::Outcome;
use crate::base::record::{Record, RecordKind, RecordKindView, RecordView};
use crate::base::scope::{exit_message_of, Scope};
use crate::text::{dec, push_decimal, push_str};
use field_text::{append_fields_text, fields_text};
use json::{outcome_str_lower, outcome_text_lower, record_json, render_jsonl};
use timestamp::{current_local_offset_seconds, local_timestamp_text, push_timestamp_ns_local, valid_offset};
use vstd::prelude::*;

verus! {

/// Rendering preferences for console output.
#[derive(Debug, Clone, Copy)]
pub struct ConsoleStyle {
    pub color: bool,
    pub show_scope: bool,
    pub show_scope_exit: bool,
    pub show_duration: bool,
    pub show_timestamp: bool,
}

/// Rendering preferences for file output.
#[derive(Debug, Clone, Copy)]
pub struct FileStyle {
    pub show_timestamp: bool,
    pub show_scope: bool,
    pub format: FileFormat,
}

/// Output format for file sinks.
#[derive(Debug, Clone, Copy, PartialEq, Eq, Structural)]
pub enum FileFormat {
    Text,
    Jsonl,
}

/// The default console style: colored, with scope labels, exit lines and
/// durations, without timestamps.
pub open spec fn default_console_style() -> ConsoleStyle {
    ConsoleStyle { color: true, show_scope: true, show_scope_exit: true, show_duration: true, show_timestamp: false }
}

/// The default file style: timestamps and scope labels in text format.
pub open spec fn default_file_style() -> FileStyle {
    FileStyle { show_timestamp: true, show_scope: true, format: FileFormat::Text }
}

impl Default for ConsoleStyle {
    fn default() -> (s: Self)
        ensures
            s == default_console_style(),
    {
        ConsoleStyle { color: true, show_scope: true, show_scope_exit: true, show_duration: true, show_timestamp: false }
    }
}

impl Default for FileStyle {
    fn default() -> (s: Self)
        ensures
            s == default_file_style(),
    {
        FileStyle { show_timestamp: true, show_scope: true, format: FileFormat::Text }
    }
}

/// `name#id`, or `#id` for an unnamed scope.
pub open spec fn scope_label_text(s: Scope) -> Seq<char> {
    match s.name {
        Some(n) => n@ + "#"@ + dec(s.id.0 as nat),
        None => "#"@ + dec(s.id.0 as nat),
    }
}

/// The scope label followed by the scope's non-empty exit message for `outcome`.
pub open spec fn scope_exit_label_text(s: Scope, outcome: Outcome) -> Seq<char> {
    scope_label_text(s) + match exit_message_of(s.exit_messages, outcome) {
        Some(m) => if m@.len() > 0 { " "@ + m@ } else { Seq::empty() },
        None => Seq::empty(),
    }
}

/// The level prefix of text lines, padded so messages align.
pub open spec fn level_prefix_text(kind: EventKind) -> Seq<char> {
    match kind {
        EventKind::Debug => "debug: "@,
        EventKind::Info => "info:  "@,
        EventKind::Warning => "warn:  "@,
        EventKind::Error => "error: "@,
    }
}

/// The prefix of scope-exit lines.
pub open spec fn done_prefix_text() -> Seq<char> {
    "done:  "@
}

/// The ANSI color that starts a level prefix.
pub open spec fn level_color(kind: EventKind) -> Seq<char> {
    match kind {
        EventKind::Debug => "\x1b[90m"@,
        EventKind::Info => "\x1b[32m"@,
        EventKind::Warning => "\x1b[33m"@,
        EventKind::Error => "\x1b[31m"@,
    }
}

/// The console level prefix, wrapped in its color when `color` is set.
pub open spec fn console_level_prefix_text(kind: EventKind, color: bool) -> Seq<char> {
    if color {
        level_color(kind) + level_prefix_text(kind) + "\x1b[0m"@
    } else {
        level_prefix_text(kind)
    }
}

/// The console exit prefix, in cyan when `color` is set.
pub open spec fn console_done_prefix_text(color: bool) -> Seq<char> {
    if color {
        "\x1b[36m"@ + done_prefix_text() + "\x1b[0m"@
    } else {
        done_prefix_text()
    }
}

/// A duration: `Nns` under a microsecond, `Nus` under a millisecond, then
/// milliseconds or seconds with one truncated decimal.
pub open spec fn duration_text(ns: u64) -> Seq<char> {
    if ns < 1_000 {
        dec(ns as nat) + "ns"@
    } else if ns < 1_000_000 {
        dec((ns / 1_000) as nat) + "us"@
    } else if ns < 1_000_000_000 {
        dec((ns / 1_000_000) as nat) + "."@ + dec(((ns / 100_000) % 10) as nat) + "ms"@
    } else {
        dec((ns / 1_000_000_000) as nat) + "."@ + dec(((ns / 100_000_000) % 10) as nat) + "s"@
    }
}

/// `[timestamp] ` when timestamps are shown.
pub open spec fn timestamp_part(show: bool, ts: Seq<char>) -> Seq<char> {
    if show {
        "["@ + ts + "] "@
    } else {
        Seq::empty()
    }
}

/// ` (label)` when scope labels are shown and the scope is known.
pub open spec fn scope_suffix(show: bool, scope: Option<Scope>) -> Seq<char> {
    if show && scope is Some {
        " ("@ + scope_label_text(scope.unwrap()) + ")"@
    } else {
        Seq::empty()
    }
}

/// What an exit line names: the scope's exit label, or `unknown-scope`.
pub open spec fn exit_target(scope: Option<Scope>, outcome: Outcome) -> Seq<char> {
    match scope {
        Some(s) => scope_exit_label_text(s, outcome),
        None => "unknown-scope"@,
    }
}

/// A console line for a record; `ts` is the timestamp text, shown only
/// with `show_timestamp`. Exit lines are empty when `show_scope_exit` is off.
pub open spec fn console_text(r: RecordView, scope: Option<Scope>, style: ConsoleStyle, ts: Seq<char>) -> Seq<char> {
    match r.kind {
        RecordKindView::Event { kind, name, fields } => timestamp_part(style.show_timestamp, ts)
            + console_level_prefix_text(kind, style.color) + name@ + fields_text(fields) + scope_suffix(
            style.show_scope,
            scope,
        ),
        RecordKindView::ScopeExit { outcome, duration_ns } => if !style.show_scope_exit {
            Seq::empty()
        } else {
            timestamp_part(style.show_timestamp, ts) + console_done_prefix_text(style.color) + exit_target(
                scope,
                outcome,
            ) + " ["@ + outcome_text_lower(outcome) + "]"@ + if style.show_duration {
                " ("@ + duration_text(duration_ns) + ")"@
            } else {
                Seq::empty()
            }
        },
    }
}

/// A text-file line for a record (or its JSON line in JSONL format); `ts`
/// is the timestamp text, shown only with `show_timestamp`.
pub open spec fn file_text(r: RecordView, scope: Option<Scope>, style: FileStyle, ts: Seq<char>) -> Seq<char> {
    if style.format == FileFormat::Jsonl {
        record_json(r, scope)
    } else {
        match r.kind {
            RecordKindView::Event { kind, name, fields } => timestamp_part(style.show_timestamp, ts)
                + level_prefix_text(kind) + name@ + fields_text(fields) + scope_suffix(style.show_scope, scope),
            RecordKindView::ScopeExit { outcome, duration_ns } => timestamp_part(style.show_timestamp, ts)
                + done_prefix_text() + exit_target(scope, outcome) + " ["@ + outcome_text_lower(outcome) + "]"@
                + " ("@ + duration_text(duration_ns) + ")"@,
        }
    }
}

/// The scope a reference option points to.
pub open spec fn deref_scope(scope: Option<&Scope>) -> Option<Scope> {
    match scope {
        Some(s) => Some(*s),
        None => None,
    }
}

/// `name#id`, or `#id` for an unnamed scope.
pub fn scope_label(scope: &Scope) -> (s: String)
    ensures
        s@ == scope_label_text(*scope),
{
    let mut s = String::new();
    match &scope.name {
        Some(n) => push_str(&mut s, n.as_str()),
        None => {},
    }
    push_str(&mut s, "#");
    push_decimal(&mut s, scope.id.0);
    assert(s@ =~= scope_label_text(*scope));
    s
}

/// The scope label followed by the scope's non-empty exit message for `outcome`.
pub fn scope_exit_label(scope: &Scope, outcome: Outcome) -> (s: String)
    ensures
        s@ == scope_exit_label_text(*scope, outcome),
{
    let mut s = scope_label(scope);
    let ghost label = s@;
    match scope.exit_message_for(outcome) {
        Some(msg) => {
            if !msg.is_empty() {
                push_str(&mut s, " ");
                push_str(&mut s, msg);
            }
        },
        None => {},
    }
    assert(s@ =~= scope_exit_label_text(*scope, outcome));
    s
}

/// The level prefix of text lines.
pub fn text_level_prefix(kind: EventKind) -> (s: &'static str)
    ensures
        s@ == level_prefix_text(kind),
{
    match kind {
        EventKind::Debug => "debug: ",
        EventKind::Info => "info:  ",
        EventKind::Warning => "warn:  ",
        EventKind::Error => "error: ",
    }
}

/// The prefix of scope-exit lines.
pub fn text_done_prefix() -> (s: &'static str)
    ensures
        s@ == done_prefix_text(),
{
    "done:  "
}

fn level_color_code(kind: EventKind) -> (s: &'static str)
    ensures
        s@ == level_color(kind),
{
    match kind {
        EventKind::Debug => "\x1b[90m",
        EventKind::Info => "\x1b[32m",
        EventKind::Warning => "\x1b[33m",
        EventKind::Error => "\x1b[31m",
    }
}

/// The console level prefix, wrapped in its color when `color` is set.
pub fn console_level_prefix(kind: EventKind, color: bool) -> (s: String)
    ensures
        s@ == console_level_prefix_text(kind, color),
{
    let mut s = String::new();
    if color {
        push_str(&mut s, level_color_code(kind));
    }
    push_str(&mut s, text_level_prefix(kind));
    if color {
        push_str(&mut s, "\x1b[0m");
    }
    assert(s@ =~= console_level_prefix_text(kind, color));
    s
}

/// The console exit prefix, in cyan when `color` is set.
pub fn console_done_prefix(outcome: Outcome, color: bool) -> (s: String)
    ensures
        s@ == console_done_prefix_text(color),
{
    let mut s = String::new();
    if color {
        push_str(&mut s, "\x1b[36m");
    }
    push_str(&mut s, text_done_prefix());
    if color {
        push_str(&mut s, "\x1b[0m");
    }
    assert(s@ =~= console_done_prefix_text(color));
    s
}

/// Appends a duration given in nanoseconds.
pub fn push_duration_ns(out: &mut String, ns: u64)
    ensures
        final(out)@ == old(out)@ + duration_text(ns),
{
    let ghost start = out@;
    if ns < 1_000 {
        push_decimal(out, ns);
        push_str(out, "ns");
    } else if ns < 1_000_000 {
        push_decimal(out, ns / 1_000);
        push_str(out, "us");
    } else if ns < 1_000_000_000 {
        push_decimal(out, ns / 1_000_000);
        push_str(out, ".");
        push_decimal(out, (ns / 100_000) % 10);
        push_str(out, "ms");
    } else {
        push_decimal(out, ns / 1_000_000_000);
        push_str(out, ".");
        push_decimal(out, (ns / 100_000_000) % 10);
        push_str(out, "s");
    }
    assert(out@ =~= start + duration_text(ns));
}

/// A duration given in nanoseconds.
pub fn format_duration_ns(ns: u64) -> (s: String)
    ensures
        s@ == duration_text(ns),
{
    let mut s = String::new();
    push_duration_ns(&mut s, ns);
    assert(s@ =~= duration_text(ns));
    s
}

fn push_timestamp_part(out: &mut String, show: bool, time_ns: u64, offset: Option<i32>)
    requires
        valid_offset(offset),
    ensures
        final(out)@ == old(out)@ + timestamp_part(show, local_timestamp_text(time_ns, offset)),
{
    if show {
        let ghost start = out@;
        push_str(out, "[");
        push_timestamp_ns_local(out, time_ns, offset);
        push_str(out, "] ");
        assert(out@ =~= start + timestamp_part(show, local_timestamp_text(time_ns, offset)));
    } else {
        assert(out@ =~= old(out)@ + timestamp_part(show, local_timestamp_text(time_ns, offset)));
    }
}

fn push_scope_suffix(out: &mut String, show: bool, scope: Option<&Scope>)
    ensures
        final(out)@ == old(out)@ + scope_suffix(show, deref_scope(scope)),
{
    if show {
        match scope {
            Some(s) => {
                let ghost start = out@;
                push_str(out, " (");
                let label = scope_label(s);
                push_str(out, label.as_str());
                push_str(out, ")");
                assert(out@ =~= start + scope_suffix(show, deref_scope(scope)));
                return;
            },
            None => {},
        }
    }
    assert(out@ =~= old(out)@ + scope_suffix(show, deref_scope(scope)));
}

fn push_exit_target(out: &mut String, scope: Option<&Scope>, outcome: Outcome)
    ensures
        final(out)@ == old(out)@ + exit_target(deref_scope(scope), outcome),
{
    match scope {
        Some(s) => {
            let label = scope_exit_label(s, outcome);
            push_str(out, label.as_str());
        },
        None => push_str(out, "unknown-scope"),
    }
}

fn push_outcome_tag(out: &mut String, outcome: Outcome)
    ensures
        final(out)@ == old(out)@ + " ["@ + outcome_text_lower(outcome) + "]"@,
{
    let ghost start = out@;
    push_str(out, " [");
    push_str(out, outcome_str_lower(outcome));
    push_str(out, "]");
    assert(out@ =~= start + " ["@ + outcome_text_lower(outcome) + "]"@);
}

fn push_duration_tag(out: &mut String, ns: u64)
    ensures
        final(out)@ == old(out)@ + " ("@ + duration_text(ns) + ")"@,
{
    let ghost start = out@;
    push_str(out, " (");
    push_duration_ns(out, ns);
    push_str(out, ")");
    assert(out@ =~= start + " ("@ + duration_text(ns) + ")"@);
}

/// A console line for a record, with timestamps in local time at `offset`.
pub fn render_console_at_offset(record: &Record, scope: Option<&Scope>, style: ConsoleStyle, offset: Option<i32>) -> (s:
    String)
    requires
        valid_offset(offset),
    ensures
        s@ == console_text(record@, deref_scope(scope), style, local_timestamp_text(record.time_ns, offset)),
{
    let ghost ts = local_timestamp_text(record.time_ns, offset);
    let mut out = String::new();
    match &record.kind {
        RecordKind::Event { kind, name, fields } => {
            push_timestamp_part(&mut out, style.show_timestamp, record.time_ns, offset);
            let prefix = console_level_prefix(*kind, style.color);
            push_str(&mut out, prefix.as_str());
            push_str(&mut out, name.as_str());
            append_fields_text(&mut out, fields);
            push_scope_suffix(&mut out, style.show_scope, scope);
            assert(out@ =~= console_text(record@, deref_scope(scope), style, ts));
        },
        RecordKind::ScopeExit { outcome, duration_ns } => {
            if !style.show_scope_exit {
                return String::new();
            }
            push_timestamp_part(&mut out, style.show_timestamp, record.time_ns, offset);
            let prefix = console_done_prefix(*outcome, style.color);
            push_str(&mut out, prefix.as_str());
            push_exit_target(&mut out, scope, *outcome);
            push_outcome_tag(&mut out, *outcome);
            if style.show_duration {
                push_duration_tag(&mut out, *duration_ns);
            }
            assert(out@ =~= console_text(record@, deref_scope(scope), style, ts));
        },
    }
    out
}

/// A console line for a record. Timestamps, when shown, are in the local
/// time of the machine at the moment of rendering.
pub fn render_console(record: &Record, scope: Option<&Scope>, style: ConsoleStyle) -> (s: String)
    ensures
        exists|offset: Option<i32>|
            valid_offset(offset) && s@ == console_text(
                record@,
                deref_scope(scope),
                style,
                local_timestamp_text(record.time_ns, offset),
            ),
{
    let offset = if style.show_timestamp {
        current_local_offset_seconds()
    } else {
        None
    };
    render_console_at_offset(record, scope, style, offset)
}

/// A file line for a record, with timestamps in local time at `offset`.
pub fn render_file_at_offset(record: &Record, scope: Option<&Scope>, style: FileStyle, offset: Option<i32>) -> (s:
    String)
    requires
        valid_offset(offset),
    ensures
        s@ == file_text(record@, deref_scope(scope), style, local_timestamp_text(record.time_ns, offset)),
{
    if style.format == FileFormat::Jsonl {
        return render_jsonl(record, scope);
    }
    let ghost ts = local_timestamp_text(record.time_ns, offset);
    let mut out = String::new();
    push_timestamp_part(&mut out, style.show_timestamp, record.time_ns, offset);
    match &record.kind {
        RecordKind::Event { kind, name, fields } => {
            push_str(&mut out, text_level_prefix(*kind));
            push_str(&mut out, name.as_str());
            append_fields_text(&mut out, fields);
            push_scope_suffix(&mut out, style.show_scope, scope);
            assert(out@ =~= file_text(record@, deref_scope(scope), style, ts));
        },
        RecordKind::ScopeExit { outcome, duration_ns } => {
            push_str(&mut out, text_done_prefix());
            push_exit_target(&mut out, scope, *outcome);
            push_outcome_tag(&mut out, *outcome);
            push_duration_tag(&mut out, *duration_ns);
            assert(out@ =~= file_text(record@, deref_scope(scope), style, ts));
        },
    }
    out
}

/// A file line for a record. Timestamps, when shown, are in the local time
/// of the machine at the moment of rendering.
pub fn render_file(record: &Record, scope: Option<&Scope>, style: FileStyle) -> (s: String)
    ensures
        exists|offset: Option<i32>|
            valid_offset(offset) && s@ == file_text(
                record@,
                deref_scope(scope),
                style,
                local_timestamp_text(record.time_ns, offset),
            ),
{
    let offset = if style.show_timestamp && style.format == FileFormat::Text {
        current_local_offset_seconds()
    } else {
        None
    };
    render_file_at_offset(record, scope, style, offset)
}

} // verus!
