//! JSON Lines rendering: one compact JSON object per record.
use crate::base::event_kind::EventKind;
use crate::base::id::ScopeId;
use crate::base::outcome::Outcome;
use crate::base::record::{Record, RecordKind, RecordKindView, RecordView};
use crate::base::scope::Scope;
use crate::base::value::{bool_text, push_bool, Value};
use crate::journal::fields::Fields;
use crate::text::{dec, int_dec, push_decimal, push_int_decimal, push_str};
use vstd::prelude::*;

verus! {

/// The lower-case hexadecimal digit for `d < 16`.
pub open spec fn hex_digit(d: u32) -> char {
    if d < 10 {
        (('0' as u32) + d) as char
    } else {
        (('a' as u32) + d - 10) as char
    }
}

/// How `serde_json` writes a character inside a string: `"` and `\` behind
/// a backslash; backspace, tab, line feed, form feed and carriage return as
/// `\b`, `\t`, `\n`, `\f`, `\r`; any other character below 0x20 as
/// `\u00XX` in lower-case hex; every other character as it is.
pub open spec fn json_escape_char(c: char) -> Seq<char> {
    if c == '"' {
        seq!['\\', '"']
    } else if c == '\\' {
        seq!['\\', '\\']
    } else if c == '\u{8}' {
        seq!['\\', 'b']
    } else if c == '\t' {
        seq!['\\', 't']
    } else if c == '\n' {
        seq!['\\', 'n']
    } else if c == '\u{c}' {
        seq!['\\', 'f']
    } else if c == '\r' {
        seq!['\\', 'r']
    } else if (c as u32) < 0x20 {
        seq!['\\', 'u', '0', '0', hex_digit((c as u32) / 16), hex_digit((c as u32) % 16)]
    } else {
        seq![c]
    }
}

/// The characters of `s`, each escaped for a JSON string.
pub open spec fn json_escaped(s: Seq<char>) -> Seq<char>
    decreases s.len(),
{
    if s.len() == 0 {
        Seq::empty()
    } else {
        json_escaped(s.drop_last()) + json_escape_char(s.last())
    }
}

/// A string as a JSON string literal: quoted and escaped as `serde_json` writes it.
pub open spec fn spec_json_string(s: Seq<char>) -> Seq<char> {
    seq!['"'] + json_escaped(s) + seq!['"']
}

/// `serde_json::to_string` of a string slice: the JSON string literal for
/// `s`, quoted, with the escapes of `json_escape_char`. Serializing a
/// string into memory does not fail in `serde_json`; its error arm is kept
/// only to name every outcome.
#[verifier::external_body]
fn json_string(s: &str) -> (r: String)
    ensures
        r@ == spec_json_string(s@),
{
    match serde_json::to_string(s) {
        Ok(text) => text,
        Err(_) => String::new(),
    }
}

/// The lower-case level name used in JSON and tags.
pub open spec fn level_text_lower(kind: EventKind) -> Seq<char> {
    match kind {
        EventKind::Debug => "debug"@,
        EventKind::Info => "info"@,
        EventKind::Warning => "warn"@,
        EventKind::Error => "error"@,
    }
}

/// The lower-case outcome name.
pub open spec fn outcome_text_lower(outcome: Outcome) -> Seq<char> {
    match outcome {
        Outcome::Success => "success"@,
        Outcome::Failure => "failure"@,
        Outcome::Aborted => "aborted"@,
    }
}

/// The lower-case level name used in JSON and tags.
pub fn level_str_lower(kind: EventKind) -> (s: &'static str)
    ensures
        s@ == level_text_lower(kind),
{
    match kind {
        EventKind::Debug => "debug",
        EventKind::Info => "info",
        EventKind::Warning => "warn",
        EventKind::Error => "error",
    }
}

/// The lower-case outcome name.
pub fn outcome_str_lower(outcome: Outcome) -> (s: &'static str)
    ensures
        s@ == outcome_text_lower(outcome),
{
    match outcome {
        Outcome::Success => "success",
        Outcome::Failure => "failure",
        Outcome::Aborted => "aborted",
    }
}

/// A number or `null`.
pub open spec fn opt_num_json(o: Option<u64>) -> Seq<char> {
    match o {
        Some(n) => dec(n as nat),
        None => "null"@,
    }
}

/// The number of an optional scope id, or `null`.
pub open spec fn opt_scope_json(o: Option<ScopeId>) -> Seq<char> {
    match o {
        Some(id) => dec(id.0 as nat),
        None => "null"@,
    }
}

/// A JSON string or `null`.
pub open spec fn opt_str_json(o: Option<String>) -> Seq<char> {
    match o {
        Some(s) => spec_json_string(s@),
        None => "null"@,
    }
}

/// A value tagged with its variant: `{"type":"Int","value":42}`.
pub open spec fn value_json(v: Value) -> Seq<char> {
    match v {
        Value::String(s) => "{\"type\":\"String\",\"value\":"@ + spec_json_string(s@) + "}"@,
        Value::Int(i) => "{\"type\":\"Int\",\"value\":"@ + int_dec(i as int) + "}"@,
        Value::Uint(u) => "{\"type\":\"Uint\",\"value\":"@ + dec(u as nat) + "}"@,
        Value::Float(f) => "{\"type\":\"Float\",\"value\":"@ + f.json@ + "}"@,
        Value::Bool(b) => "{\"type\":\"Bool\",\"value\":"@ + bool_text(b) + "}"@,
        Value::DurationMs(ms) => "{\"type\":\"DurationMs\",\"value\":"@ + dec(ms as nat) + "}"@,
        Value::Null => "{\"type\":\"Null\"}"@,
    }
}

/// `"key":value`.
pub open spec fn field_json(e: (String, Value)) -> Seq<char> {
    spec_json_string(e.0@) + ":"@ + value_json(e.1)
}

/// The fields' members joined with `,`, in the fields' order.
pub open spec fn join_fields_json(s: Seq<(String, Value)>) -> Seq<char>
    decreases s.len(),
{
    if s.len() == 0 {
        Seq::empty()
    } else if s.len() == 1 {
        field_json(s[0])
    } else {
        join_fields_json(s.drop_last()) + ","@ + field_json(s.last())
    }
}

/// The fields as a JSON object.
pub open spec fn fields_json(s: Seq<(String, Value)>) -> Seq<char> {
    "{"@ + join_fields_json(s) + "}"@
}

/// A scope as a JSON object.
pub open spec fn scope_json(s: Scope) -> Seq<char> {
    "{\"id\":"@ + dec(s.id.0 as nat) + ",\"parent\":"@ + opt_scope_json(s.parent) + ",\"entered_at\":"@ + dec(
        s.entered_at as nat,
    ) + ",\"exited_at\":"@ + opt_num_json(s.exited_at) + ",\"name\":"@ + opt_str_json(s.name) + "}"@
}

/// The members that describe what a record holds, each after a comma.
pub open spec fn kind_json(k: RecordKindView) -> Seq<char> {
    match k {
        RecordKindView::Event { kind, name, fields } => ",\"type\":\"event\",\"level\":\""@ + level_text_lower(kind)
            + "\",\"message\":"@ + spec_json_string(name@) + ",\"fields\":"@ + fields_json(fields),
        RecordKindView::ScopeExit { outcome, duration_ns } => ",\"type\":\"scope_exit\",\"outcome\":\""@
            + outcome_text_lower(outcome) + "\",\"duration_ns\":"@ + dec(duration_ns as nat),
    }
}

/// A record as one JSON line, with its scope when one is given.
pub open spec fn record_json(r: RecordView, scope: Option<Scope>) -> Seq<char> {
    "{\"id\":"@ + dec(r.id.0 as nat) + ",\"time_ns\":"@ + dec(r.time_ns as nat) + ",\"scope_id\":"@
        + opt_scope_json(r.scope) + kind_json(r.kind) + match scope {
        Some(s) => ",\"scope\":"@ + scope_json(s),
        None => Seq::empty(),
    } + "}"@
}

fn push_json_string(out: &mut String, s: &str)
    ensures
        final(out)@ == old(out)@ + spec_json_string(s@),
{
    let j = json_string(s);
    out.append(j.as_str());
}

fn push_opt_num(out: &mut String, o: Option<u64>)
    ensures
        final(out)@ == old(out)@ + opt_num_json(o),
{
    match o {
        Some(n) => push_decimal(out, n),
        None => push_str(out, "null"),
    }
}

fn push_opt_scope(out: &mut String, o: Option<ScopeId>)
    ensures
        final(out)@ == old(out)@ + opt_scope_json(o),
{
    match o {
        Some(id) => push_decimal(out, id.0),
        None => push_str(out, "null"),
    }
}

fn push_value_json(out: &mut String, v: &Value)
    ensures
        final(out)@ == old(out)@ + value_json(*v),
{
    let ghost start = out@;
    match v {
        Value::String(s) => {
            push_str(out, "{\"type\":\"String\",\"value\":");
            push_json_string(out, s.as_str());
            push_str(out, "}");
        },
        Value::Int(i) => {
            push_str(out, "{\"type\":\"Int\",\"value\":");
            push_int_decimal(out, *i);
            push_str(out, "}");
        },
        Value::Uint(u) => {
            push_str(out, "{\"type\":\"Uint\",\"value\":");
            push_decimal(out, *u);
            push_str(out, "}");
        },
        Value::Float(f) => {
            push_str(out, "{\"type\":\"Float\",\"value\":");
            push_str(out, f.json.as_str());
            push_str(out, "}");
        },
        Value::Bool(b) => {
            push_str(out, "{\"type\":\"Bool\",\"value\":");
            push_bool(out, *b);
            push_str(out, "}");
        },
        Value::DurationMs(ms) => {
            push_str(out, "{\"type\":\"DurationMs\",\"value\":");
            push_decimal(out, *ms);
            push_str(out, "}");
        },
        Value::Null => {
            push_str(out, "{\"type\":\"Null\"}");
        },
    }
    assert(out@ =~= start + value_json(*v));
}

fn push_fields_json(out: &mut String, fields: &Fields)
    ensures
        final(out)@ == old(out)@ + fields_json(fields@),
{
    let entries = fields.entries();
    let ghost start = out@;
    push_str(out, "{");
    let mut idx: usize = 0;
    while idx < entries.len()
        invariant
            idx <= entries@.len(),
            out@ == start + "{"@ + join_fields_json(entries@.take(idx as int)),
        decreases entries@.len() - idx,
    {
        if idx > 0 {
            push_str(out, ",");
        }
        push_json_string(out, entries[idx].0.as_str());
        push_str(out, ":");
        push_value_json(out, &entries[idx].1);
        proof {
            let t = entries@.take(idx + 1);
            assert(t.drop_last() =~= entries@.take(idx as int));
            assert(t.last() == entries@[idx as int]);
            if idx == 0 {
                assert(join_fields_json(entries@.take(0)) =~= Seq::<char>::empty());
            }
            assert(out@ =~= start + "{"@ + join_fields_json(t));
        }
        idx = idx + 1;
    }
    push_str(out, "}");
    assert(entries@.take(idx as int) =~= entries@);
    assert(out@ =~= start + fields_json(fields@));
}

fn push_scope_json(out: &mut String, s: &Scope)
    ensures
        final(out)@ == old(out)@ + scope_json(*s),
{
    let ghost start = out@;
    push_str(out, "{\"id\":");
    push_decimal(out, s.id.0);
    push_str(out, ",\"parent\":");
    push_opt_scope(out, s.parent);
    push_str(out, ",\"entered_at\":");
    push_decimal(out, s.entered_at);
    push_str(out, ",\"exited_at\":");
    push_opt_num(out, s.exited_at);
    push_str(out, ",\"name\":");
    match &s.name {
        Some(n) => push_json_string(out, n.as_str()),
        None => push_str(out, "null"),
    }
    push_str(out, "}");
    assert(out@ =~= start + scope_json(*s));
}

fn push_kind_json(out: &mut String, k: &RecordKind)
    ensures
        final(out)@ == old(out)@ + kind_json(k@),
{
    let ghost start = out@;
    match k {
        RecordKind::Event { kind, name, fields } => {
            push_str(out, ",\"type\":\"event\",\"level\":\"");
            push_str(out, level_str_lower(*kind));
            push_str(out, "\",\"message\":");
            push_json_string(out, name.as_str());
            push_str(out, ",\"fields\":");
            push_fields_json(out, fields);
        },
        RecordKind::ScopeExit { outcome, duration_ns } => {
            push_str(out, ",\"type\":\"scope_exit\",\"outcome\":\"");
            push_str(out, outcome_str_lower(*outcome));
            push_str(out, "\",\"duration_ns\":");
            push_decimal(out, *duration_ns);
        },
    }
    assert(out@ =~= start + kind_json(k@));
}

/// A record as one JSON line, with its scope when one is given.
pub fn render_jsonl(record: &Record, scope: Option<&Scope>) -> (s: String)
    ensures
        s@ == record_json(
            record@,
            match scope {
                Some(sc) => Some(*sc),
                None => None,
            },
        ),
{
    let mut out = String::new();
    push_str(&mut out, "{\"id\":");
    push_decimal(&mut out, record.id.0);
    push_str(&mut out, ",\"time_ns\":");
    push_decimal(&mut out, record.time_ns);
    push_str(&mut out, ",\"scope_id\":");
    push_opt_scope(&mut out, record.scope);
    push_kind_json(&mut out, &record.kind);
    let ghost with_kind = out@;
    match scope {
        Some(sc) => {
            push_str(&mut out, ",\"scope\":");
            push_scope_json(&mut out, sc);
        },
        None => {},
    }
    let ghost with_scope = out@;
    push_str(&mut out, "}");
    proof {
        let sc = match scope {
            Some(sc) => Some(*sc),
            None => None,
        };
        let tail = match sc {
            Some(s) => ",\"scope\":"@ + scope_json(s),
            None => Seq::<char>::empty(),
        };
        assert(with_scope =~= with_kind + tail);
        assert(out@ =~= record_json(record@, sc));
    }
    out
}

} // verus!
