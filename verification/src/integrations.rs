//! What the bridges from other logging frameworks decide: how their levels
//! map to event kinds, and how an event's fields become a message and
//! journal fields.
use crate::base::event_kind::EventKind;
use crate::base::value::{value_text, Value};
use crate::journal::fields::{insert_field, Fields};
use crate::text::str_eq;
use vstd::prelude::*;

verus! {

/// The five levels that logging frameworks share.
#[derive(Debug, Clone, Copy, PartialEq, Eq, Structural)]
pub enum ExternalLevel {
    Error,
    Warn,
    Info,
    Debug,
    Trace,
}

/// The event kind of a framework level: `Trace` folds into `Debug`.
pub open spec fn kind_of_level(level: ExternalLevel) -> EventKind {
    match level {
        ExternalLevel::Error => EventKind::Error,
        ExternalLevel::Warn => EventKind::Warning,
        ExternalLevel::Info => EventKind::Info,
        ExternalLevel::Debug => EventKind::Debug,
        ExternalLevel::Trace => EventKind::Debug,
    }
}

/// The event kind of a framework level.
pub fn map_level(level: ExternalLevel) -> (k: EventKind)
    ensures
        k == kind_of_level(level),
{
    match level {
        ExternalLevel::Error => EventKind::Error,
        ExternalLevel::Warn => EventKind::Warning,
        ExternalLevel::Info => EventKind::Info,
        ExternalLevel::Debug | ExternalLevel::Trace => EventKind::Debug,
    }
}

/// The verbosity of a framework level, from `Error` (1) to `Trace` (5).
pub open spec fn level_verbosity(level: ExternalLevel) -> nat {
    match level {
        ExternalLevel::Error => 1,
        ExternalLevel::Warn => 2,
        ExternalLevel::Info => 3,
        ExternalLevel::Debug => 4,
        ExternalLevel::Trace => 5,
    }
}

fn verbosity(level: ExternalLevel) -> (v: u8)
    ensures
        v == level_verbosity(level),
{
    match level {
        ExternalLevel::Error => 1,
        ExternalLevel::Warn => 2,
        ExternalLevel::Info => 3,
        ExternalLevel::Debug => 4,
        ExternalLevel::Trace => 5,
    }
}

/// Whether a framework event at `level` passes the framework's maximum
/// level `max`; `None` is a maximum that lets nothing through.
pub fn level_allowed(level: ExternalLevel, max: Option<ExternalLevel>) -> (b: bool)
    ensures
        b == (max matches Some(m) && level_verbosity(level) <= level_verbosity(m)),
{
    match max {
        Some(m) => verbosity(level) <= verbosity(m),
        None => false,
    }
}

/// The message and fields gathered from one framework event: the field
/// named `message` gives the message, every other field a journal field.
#[derive(Debug)]
pub struct EventVisitor {
    pub message: Option<String>,
    pub fields: Fields,
}

/// The visitor after field `name` with value `v`, whose text is `text`.
pub open spec fn visited(
    message: Option<String>,
    fields: Seq<(String, Value)>,
    name: String,
    v: Value,
    text: Seq<char>,
) -> (Option<Seq<char>>, Seq<(String, Value)>) {
    if name@ == "message"@ {
        (Some(text), fields)
    } else {
        (opt_view(message), insert_field(fields, name, v))
    }
}

/// The view of an optional string.
pub open spec fn opt_view(s: Option<String>) -> Option<Seq<char>> {
    match s {
        Some(t) => Some(t@),
        None => None,
    }
}

impl EventVisitor {
    /// No message and no fields yet.
    pub fn new() -> (v: Self)
        ensures
            v.message is None,
            v.fields@ == Seq::<(String, Value)>::empty(),
    {
        EventVisitor { message: None, fields: Fields::new() }
    }

    /// Take field `name` with value `value`: the `message` field sets the
    /// message to the value's text, any other is inserted as a field.
    pub fn record_value(&mut self, name: String, value: Value)
        ensures
            (opt_view(final(self).message), final(self).fields@) == visited(
                old(self).message,
                old(self).fields@,
                name,
                value,
                value_text(value),
            ),
    {
        if str_eq(name.as_str(), "message") {
            self.message = Some(value.to_text());
        } else {
            self.fields.insert(name, value);
        }
    }

    /// Take field `name` with text `value`, stored as a string value.
    pub fn record_str(&mut self, name: String, value: String)
        ensures
            (opt_view(final(self).message), final(self).fields@) == visited(
                old(self).message,
                old(self).fields@,
                name,
                Value::String(value),
                value@,
            ),
    {
        if str_eq(name.as_str(), "message") {
            self.message = Some(value);
        } else {
            self.fields.insert(name, Value::String(value));
        }
    }

    /// The message, or `fallback` when no `message` field came, with the
    /// fields.
    pub fn finish(self, fallback: String) -> (r: (String, Fields))
        ensures
            r.0@ == match self.message {
                Some(m) => m@,
                None => fallback@,
            },
            r.1@ == self.fields@,
    {
        let message = match self.message {
            Some(m) => m,
            None => fallback,
        };
        (message, self.fields)
    }
}

} // verus!
