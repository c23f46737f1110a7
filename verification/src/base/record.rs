//! Records: the append-only entries of the journal.
use super::event_kind::EventKind;
use super::id::{RecordId, ScopeId};
use super::outcome::Outcome;
use super::value::Value;
use crate::journal::fields::{field_lookup, Fields};
use vstd::prelude::*;

verus! {

/// What a record holds: an event, or the exit of a scope.
#[derive(Debug)]
pub enum RecordKind {
    Event { kind: EventKind, name: String, fields: Fields },
    ScopeExit { outcome: Outcome, duration_ns: u64 },
}

/// The abstract content of a `RecordKind`: fields are taken by their entries.
pub enum RecordKindView {
    Event { kind: EventKind, name: String, fields: Seq<(String, Value)> },
    ScopeExit { outcome: Outcome, duration_ns: u64 },
}

impl View for RecordKind {
    type V = RecordKindView;

    open spec fn view(&self) -> RecordKindView {
        match self {
            RecordKind::Event { kind, name, fields } => RecordKindView::Event {
                kind: *kind,
                name: *name,
                fields: fields@,
            },
            RecordKind::ScopeExit { outcome, duration_ns } => RecordKindView::ScopeExit {
                outcome: *outcome,
                duration_ns: *duration_ns,
            },
        }
    }
}

impl Clone for RecordKind {
    fn clone(&self) -> (r: Self)
        ensures
            r@ == self@,
    {
        match self {
            RecordKind::Event { kind, name, fields } => RecordKind::Event {
                kind: *kind,
                name: name.clone(),
                fields: fields.clone(),
            },
            RecordKind::ScopeExit { outcome, duration_ns } => RecordKind::ScopeExit {
                outcome: *outcome,
                duration_ns: *duration_ns,
            },
        }
    }
}

/// A single journal entry.
#[derive(Debug)]
pub struct Record {
    pub id: RecordId,
    pub scope: Option<ScopeId>,
    /// Nanoseconds since the Unix epoch when the record was created.
    pub time_ns: u64,
    pub kind: RecordKind,
}

/// The abstract content of a `Record`.
pub struct RecordView {
    pub id: RecordId,
    pub scope: Option<ScopeId>,
    pub time_ns: u64,
    pub kind: RecordKindView,
}

impl View for Record {
    type V = RecordView;

    open spec fn view(&self) -> RecordView {
        RecordView { id: self.id, scope: self.scope, time_ns: self.time_ns, kind: self.kind@ }
    }
}

impl Clone for Record {
    fn clone(&self) -> (r: Self)
        ensures
            r@ == self@,
    {
        Record { id: self.id, scope: self.scope, time_ns: self.time_ns, kind: self.kind.clone() }
    }
}

/// The record is a scope exit.
pub open spec fn is_scope_exit(r: RecordView) -> bool {
    r.kind is ScopeExit
}

impl Record {
    /// The fields of an event record; `None` for a scope exit.
    pub fn fields(&self) -> (r: Option<&Fields>)
        ensures
            match self.kind {
                RecordKind::Event { fields, .. } => r is Some && r.unwrap()@ == fields@,
                RecordKind::ScopeExit { .. } => r is None,
            },
    {
        match &self.kind {
            RecordKind::Event { fields, .. } => Some(fields),
            _ => None,
        }
    }

    /// The value of field `name` of an event record.
    pub fn get_field(&self, name: &str) -> (r: Option<&Value>)
        ensures
            match self.kind {
                RecordKind::Event { fields, .. } => match field_lookup(fields@, name@) {
                    Some(v) => r is Some && *r.unwrap() == v,
                    None => r is None,
                },
                RecordKind::ScopeExit { .. } => r is None,
            },
    {
        match self.fields() {
            Some(f) => f.get(name),
            None => None,
        }
    }
}

} // verus!
