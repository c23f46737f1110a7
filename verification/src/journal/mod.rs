//! The journal: the canonical, append-only execution history of scopes and
//! the records written in them.
pub mod buffer;
pub mod fields;
pub mod filter;
pub mod properties;
pub mod rotation;
pub mod utils;
pub mod writer;

use crate::base::event_kind::EventKind;
use crate::base::id::{advance_id, next_id, RecordId, ScopeId};
use crate::base::outcome::Outcome;
use crate::base::record::{Record, RecordKind, RecordKindView, RecordView};
use crate::base::value::Value;
use crate::base::scope::{no_exit_messages, scope_elapsed_ms, ExitMessages, Scope};
use crate::render::json::{record_json, render_jsonl};
use crate::seqs::{first_match, is_first, lemma_first_pos_found, lemma_first_pos_none};
use buffer::{
    finalize_in, finalized_scope, keep_newest, record_id_is, record_views, scope_id_is,
    set_messages_in, Buffer,
};
use fields::Fields;
use properties::{
    fresh_kept, ids_sound, journal_fresh, lemma_fresh_enter, lemma_fresh_exit, lemma_fresh_messages, lemma_fresh_record, lemma_fresh_trim,
};
use utils::{current_millis, current_nanos};
use vstd::prelude::*;

verus! {

/// The journal: records and scopes with the counters that hand out their ids
/// and the scope that new records and scopes fall under.
pub struct Journal {
    buffer: Buffer,
    next_scope_id: u64,
    next_record_id: u64,
    current_scope: Option<ScopeId>,
    ids_spent: Ghost<bool>,
}

/// The abstract state of a `Journal`.
pub struct JournalView {
    pub records: Seq<RecordView>,
    pub scopes: Seq<Scope>,
    pub next_scope_id: u64,
    pub next_record_id: u64,
    pub current_scope: Option<ScopeId>,
    /// An id counter has reached its last value; from then on the ids it
    /// hands out are no longer sure to be new.
    pub ids_spent: bool,
}

impl View for Journal {
    type V = JournalView;

    closed spec fn view(&self) -> JournalView {
        JournalView {
            records: self.buffer@.records,
            scopes: self.buffer@.scopes,
            next_scope_id: self.next_scope_id,
            next_record_id: self.next_record_id,
            current_scope: self.current_scope,
            ids_spent: self.ids_spent@,
        }
    }
}

/// The empty journal.
pub open spec fn empty_journal() -> JournalView {
    JournalView {
        records: Seq::empty(),
        scopes: Seq::empty(),
        next_scope_id: 0,
        next_record_id: 0,
        current_scope: None,
        ids_spent: false,
    }
}

/// A freshly entered scope.
pub open spec fn entered_scope(id: ScopeId, parent: Option<ScopeId>, at_ms: u64, name: Option<String>) -> Scope {
    Scope { id, parent, entered_at: at_ms, name, exited_at: None, exit_messages: no_exit_messages() }
}

/// The journal after entering a scope under `parent` at `at_ms`; with
/// `becomes_current` the new scope becomes the current scope.
pub open spec fn after_enter(
    v: JournalView,
    name: Option<String>,
    parent: Option<ScopeId>,
    at_ms: u64,
    becomes_current: bool,
) -> JournalView {
    JournalView {
        scopes: v.scopes.push(entered_scope(ScopeId(v.next_scope_id), parent, at_ms, name)),
        next_scope_id: next_id(v.next_scope_id),
        current_scope: if becomes_current { Some(ScopeId(v.next_scope_id)) } else { v.current_scope },
        ids_spent: v.ids_spent || next_id(v.next_scope_id) == u64::MAX,
        ..v
    }
}

/// An event record.
pub open spec fn event_record(
    id: RecordId,
    scope: Option<ScopeId>,
    time_ns: u64,
    kind: EventKind,
    name: String,
    fields: Seq<(String, Value)>,
) -> RecordView {
    RecordView { id, scope, time_ns, kind: RecordKindView::Event { kind, name, fields } }
}

/// The journal after recording an event in `scope` at `time_ns`.
pub open spec fn after_record(
    v: JournalView,
    kind: EventKind,
    name: String,
    fields: Seq<(String, Value)>,
    scope: Option<ScopeId>,
    time_ns: u64,
) -> JournalView {
    JournalView {
        records: v.records.push(event_record(RecordId(v.next_record_id), scope, time_ns, kind, name, fields)),
        next_record_id: next_id(v.next_record_id),
        ids_spent: v.ids_spent || next_id(v.next_record_id) == u64::MAX,
        ..v
    }
}

/// The duration a scope-exit record carries, in nanoseconds: the scope's
/// elapsed milliseconds times one million, truncated to 64 bits.
pub open spec fn exit_duration_ns(s: Scope) -> u64 {
    (scope_elapsed_ms(s, 0) * 1_000_000) as u64
}

/// The exit record of a finalized scope.
pub open spec fn exit_record(id: RecordId, time_ns: u64, outcome: Outcome, s: Scope) -> RecordView {
    RecordView {
        id,
        scope: Some(s.id),
        time_ns,
        kind: RecordKindView::ScopeExit { outcome, duration_ns: exit_duration_ns(s) },
    }
}

/// The journal after exiting scope `id` with `outcome` at `at_ms` / `time_ns`.
///
/// Only a scope that exists and has not exited yet is finalized: it gets
/// its exit time, an exit record is appended, and if it was the current
/// scope its parent becomes current. A record id is used up either way.
pub open spec fn after_exit(v: JournalView, id: ScopeId, outcome: Outcome, at_ms: u64, time_ns: u64) -> JournalView {
    match finalized_scope(v.scopes, id, at_ms) {
        Some(s) => JournalView {
            records: v.records.push(exit_record(RecordId(v.next_record_id), time_ns, outcome, s)),
            scopes: finalize_in(v.scopes, id, at_ms),
            next_record_id: next_id(v.next_record_id),
            current_scope: if v.current_scope == Some(id) { s.parent } else { v.current_scope },
            ids_spent: v.ids_spent || next_id(v.next_record_id) == u64::MAX,
            ..v
        },
        None => JournalView {
            next_record_id: next_id(v.next_record_id),
            ids_spent: v.ids_spent || next_id(v.next_record_id) == u64::MAX,
            ..v
        },
    }
}

/// The scope a record belongs to: the first scope with the record's scope id.
pub open spec fn scope_of_record(scopes: Seq<Scope>, r: RecordView) -> Option<Scope> {
    match r.scope {
        Some(id) => first_match(scopes, scope_id_is(id)),
        None => None,
    }
}

/// The first scope with id `id` in `scopes`.
pub fn find_scope(scopes: &Vec<Scope>, id: ScopeId) -> (r: Option<&Scope>)
    ensures
        match first_match(scopes@, scope_id_is(id)) {
            Some(s) => r is Some && *r.unwrap() == s,
            None => r is None,
        },
{
    let mut i: usize = 0;
    while i < scopes.len()
        invariant
            i <= scopes@.len(),
            forall|j: int| 0 <= j < i ==> !scope_id_is(id)(#[trigger] scopes@[j]),
        decreases scopes@.len() - i,
    {
        if scopes[i].id == id {
            proof {
                assert(is_first(scopes@, scope_id_is(id), i as int));
                lemma_first_pos_found(scopes@, scope_id_is(id), i as int);
            }
            return Some(&scopes[i]);
        }
        i = i + 1;
    }
    proof {
        lemma_first_pos_none(scopes@, scope_id_is(id));
    }
    None
}

impl Default for Journal {
    fn default() -> (j: Self)
        ensures
            j@ == empty_journal(),
    {
        Journal::new()
    }
}

impl Journal {
    /// The ids handed out are fresh unless a counter has reached its end.
    #[verifier::type_invariant]
    pub(crate) open spec fn ids_are_sound(self) -> bool {
        ids_sound(self@)
    }

    /// An empty journal: no records or scopes, ids from 0, no current scope.
    pub fn new() -> (j: Self)
        ensures
            j@ == empty_journal(),
            journal_fresh(j@),
    {
        Journal {
            buffer: Buffer::new(),
            next_scope_id: 0,
            next_record_id: 0,
            current_scope: None,
            ids_spent: Ghost(false),
        }
    }

    fn push_new_scope(&mut self, name: Option<String>, parent: Option<ScopeId>, at_ms: u64) -> (id: ScopeId)
        ensures
            id == ScopeId(old(self)@.next_scope_id),
            final(self)@ == after_enter(old(self)@, name, parent, at_ms, false),
    {
        proof {
            use_type_invariant(&*self);
            lemma_fresh_enter(old(self)@, name, parent, at_ms, false);
        }
        let id = ScopeId(self.next_scope_id);
        let next = advance_id(self.next_scope_id);
        let scope = Scope {
            id,
            parent,
            entered_at: at_ms,
            name,
            exited_at: None,
            exit_messages: ExitMessages::default(),
        };
        let mut buffer = Buffer::new();
        std::mem::swap(&mut buffer, &mut self.buffer);
        buffer.push_scope(scope);
        let ghost spent: bool = self.ids_spent@ || next == u64::MAX;
        *self = Journal {
            buffer,
            next_scope_id: next,
            next_record_id: self.next_record_id,
            current_scope: self.current_scope,
            ids_spent: Ghost(spent),
        };
        id
    }

    /// Enter a named scope under the current scope at `now_ms`; it becomes
    /// the current scope.
    pub fn enter_scope_at(&mut self, name: String, now_ms: u64) -> (id: ScopeId)
        ensures
            fresh_kept(old(self)@, final(self)@),
            id == ScopeId(old(self)@.next_scope_id),
            final(self)@ == after_enter(old(self)@, Some(name), old(self)@.current_scope, now_ms, true),
    {
        proof {
            lemma_fresh_enter(old(self)@, Some(name), old(self)@.current_scope, now_ms, true);
        }
        let parent = self.current_scope;
        let id = self.push_new_scope(Some(name), parent, now_ms);
        proof {
            use_type_invariant(&*self);
        }
        self.current_scope = Some(id);
        id
    }

    /// Enter a named scope under the current scope; it becomes the current scope.
    pub fn enter_scope(&mut self, name: String) -> (id: ScopeId)
        ensures
            fresh_kept(old(self)@, final(self)@),
            id == ScopeId(old(self)@.next_scope_id),
            final(self)@ == after_enter(
                old(self)@,
                Some(name),
                old(self)@.current_scope,
                final(self)@.scopes.last().entered_at,
                true,
            ),
    {
        let now = current_millis();
        self.enter_scope_at(name, now)
    }

    /// Enter a named scope under `parent` at `now_ms`; the current scope stays.
    pub fn enter_scope_with_parent_at(&mut self, name: String, parent: Option<ScopeId>, now_ms: u64) -> (id: ScopeId)
        ensures
            fresh_kept(old(self)@, final(self)@),
            id == ScopeId(old(self)@.next_scope_id),
            final(self)@ == after_enter(old(self)@, Some(name), parent, now_ms, false),
    {
        proof {
            lemma_fresh_enter(old(self)@, Some(name), parent, now_ms, false);
        }
        self.push_new_scope(Some(name), parent, now_ms)
    }

    /// Enter a named scope under `parent`; the current scope stays.
    pub fn enter_scope_with_parent(&mut self, name: String, parent: Option<ScopeId>) -> (id: ScopeId)
        ensures
            fresh_kept(old(self)@, final(self)@),
            id == ScopeId(old(self)@.next_scope_id),
            final(self)@ == after_enter(old(self)@, Some(name), parent, final(self)@.scopes.last().entered_at, false),
    {
        let now = current_millis();
        self.enter_scope_with_parent_at(name, parent, now)
    }

    /// Enter an unnamed scope at `now_ms` under `parent`, or under the
    /// current scope when `parent` is `None`; it becomes the current scope.
    pub fn enter_scope_unnamed_at(&mut self, parent: Option<ScopeId>, now_ms: u64) -> (id: ScopeId)
        ensures
            fresh_kept(old(self)@, final(self)@),
            id == ScopeId(old(self)@.next_scope_id),
            final(self)@ == after_enter(
                old(self)@,
                None,
                if parent is Some { parent } else { old(self)@.current_scope },
                now_ms,
                true,
            ),
    {
        proof {
            lemma_fresh_enter(old(self)@, None, if parent is Some { parent } else { old(self)@.current_scope }, now_ms, true);
        }
        let p = match parent {
            Some(p) => Some(p),
            None => self.current_scope,
        };
        let id = self.push_new_scope(None, p, now_ms);
        proof {
            use_type_invariant(&*self);
        }
        self.current_scope = Some(id);
        id
    }

    /// Enter an unnamed scope under `parent`, or under the current scope when
    /// `parent` is `None`; it becomes the current scope.
    pub fn enter_scope_unnamed(&mut self, parent: Option<ScopeId>) -> (id: ScopeId)
        ensures
            fresh_kept(old(self)@, final(self)@),
            id == ScopeId(old(self)@.next_scope_id),
            final(self)@ == after_enter(
                old(self)@,
                None,
                if parent is Some { parent } else { old(self)@.current_scope },
                final(self)@.scopes.last().entered_at,
                true,
            ),
    {
        let now = current_millis();
        self.enter_scope_unnamed_at(parent, now)
    }

    /// Merge per-outcome exit messages into scope `id`; `false` when no such scope exists.
    pub fn set_scope_exit_messages(&mut self, id: ScopeId, msgs: ExitMessages) -> (found: bool)
        ensures
            journal_fresh(old(self)@) ==> journal_fresh(final(self)@),
            found == (first_match(old(self)@.scopes, scope_id_is(id)) is Some),
            final(self)@ == (JournalView { scopes: set_messages_in(old(self)@.scopes, id, msgs), ..old(self)@ }),
    {
        proof {
            use_type_invariant(&*self);
            lemma_fresh_messages(old(self)@, id, msgs);
        }
        let mut buffer = Buffer::new();
        std::mem::swap(&mut buffer, &mut self.buffer);
        let found = buffer.set_scope_exit_messages(id, msgs);
        self.buffer = buffer;
        found
    }

    /// Record an event in the current scope at `now_ns`, returning its id,
    /// the record and the scope it belongs to.
    pub fn record_no_write_at(
        &mut self,
        kind: EventKind,
        name: String,
        fields: Fields,
        now_ns: u64,
    ) -> (r: (RecordId, Record, Option<Scope>))
        ensures
            fresh_kept(old(self)@, final(self)@),
            r.0 == RecordId(old(self)@.next_record_id),
            r.1@ == event_record(r.0, old(self)@.current_scope, now_ns, kind, name, fields@),
            r.2 == match old(self)@.current_scope {
                Some(sid) => first_match(old(self)@.scopes, scope_id_is(sid)),
                None => None,
            },
            final(self)@ == after_record(old(self)@, kind, name, fields@, old(self)@.current_scope, now_ns),
    {
        let scope_id = self.current_scope;
        self.record_no_write_in_scope_at(kind, name, fields, scope_id, now_ns)
    }

    /// Record an event in the current scope.
    pub fn record_no_write(&mut self, kind: EventKind, name: String, fields: Fields) -> (r: (
        RecordId,
        Record,
        Option<Scope>,
    ))
        ensures
            fresh_kept(old(self)@, final(self)@),
            r.0 == RecordId(old(self)@.next_record_id),
            r.1@ == event_record(r.0, old(self)@.current_scope, r.1.time_ns, kind, name, fields@),
            r.2 == match old(self)@.current_scope {
                Some(sid) => first_match(old(self)@.scopes, scope_id_is(sid)),
                None => None,
            },
            final(self)@ == after_record(old(self)@, kind, name, fields@, old(self)@.current_scope, r.1.time_ns),
    {
        let now = current_nanos();
        self.record_no_write_at(kind, name, fields, now)
    }

    /// Record an event in `scope_id` at `now_ns`.
    pub fn record_no_write_in_scope_at(
        &mut self,
        kind: EventKind,
        name: String,
        fields: Fields,
        scope_id: Option<ScopeId>,
        now_ns: u64,
    ) -> (r: (RecordId, Record, Option<Scope>))
        ensures
            fresh_kept(old(self)@, final(self)@),
            r.0 == RecordId(old(self)@.next_record_id),
            r.1@ == event_record(r.0, scope_id, now_ns, kind, name, fields@),
            r.2 == match scope_id {
                Some(sid) => first_match(old(self)@.scopes, scope_id_is(sid)),
                None => None,
            },
            final(self)@ == after_record(old(self)@, kind, name, fields@, scope_id, now_ns),
    {
        proof {
            use_type_invariant(&*self);
            lemma_fresh_record(old(self)@, kind, name, fields@, scope_id, now_ns);
        }
        let id = RecordId(self.next_record_id);
        let next = advance_id(self.next_record_id);
        let record = Record { id, scope: scope_id, time_ns: now_ns, kind: RecordKind::Event { kind, name, fields } };
        let scope = match scope_id {
            Some(sid) => self.buffer.get_scope_by_id(sid),
            None => None,
        };
        let copy = record.clone();
        let mut buffer = Buffer::new();
        std::mem::swap(&mut buffer, &mut self.buffer);
        buffer.push_record(record);
        let ghost spent: bool = self.ids_spent@ || next == u64::MAX;
        *self = Journal {
            buffer,
            next_scope_id: self.next_scope_id,
            next_record_id: next,
            current_scope: self.current_scope,
            ids_spent: Ghost(spent),
        };
        (id, copy, scope)
    }

    /// Record an event in `scope_id`.
    pub fn record_no_write_in_scope(
        &mut self,
        kind: EventKind,
        name: String,
        fields: Fields,
        scope_id: Option<ScopeId>,
    ) -> (r: (RecordId, Record, Option<Scope>))
        ensures
            fresh_kept(old(self)@, final(self)@),
            r.0 == RecordId(old(self)@.next_record_id),
            r.1@ == event_record(r.0, scope_id, r.1.time_ns, kind, name, fields@),
            r.2 == match scope_id {
                Some(sid) => first_match(old(self)@.scopes, scope_id_is(sid)),
                None => None,
            },
            final(self)@ == after_record(old(self)@, kind, name, fields@, scope_id, r.1.time_ns),
    {
        let now = current_nanos();
        self.record_no_write_in_scope_at(kind, name, fields, scope_id, now)
    }

    /// Exit scope `scope_id` with `outcome`, finalizing it at `now_ms` and
    /// stamping the exit record with `now_ns`.
    ///
    /// A scope is finalized at most once: exiting an unknown or already
    /// exited scope writes nothing and returns `None`.
    pub fn exit_scope_no_write_at(
        &mut self,
        scope_id: ScopeId,
        outcome: Outcome,
        now_ms: u64,
        now_ns: u64,
    ) -> (r: (RecordId, Option<(Record, Scope)>))
        ensures
            fresh_kept(old(self)@, final(self)@),
            r.0 == RecordId(old(self)@.next_record_id),
            final(self)@ == after_exit(old(self)@, scope_id, outcome, now_ms, now_ns),
            match finalized_scope(old(self)@.scopes, scope_id, now_ms) {
                Some(s) => r.1 matches Some(p) && p.1 == s && p.0@ == exit_record(r.0, now_ns, outcome, s),
                None => r.1 is None,
            },
    {
        proof {
            use_type_invariant(&*self);
            lemma_fresh_exit(old(self)@, scope_id, outcome, now_ms, now_ns);
        }
        let id = RecordId(self.next_record_id);
        let next = advance_id(self.next_record_id);
        let ghost spent: bool = self.ids_spent@ || next == u64::MAX;
        let mut buffer = Buffer::new();
        std::mem::swap(&mut buffer, &mut self.buffer);
        match buffer.finalize_scope_exit(scope_id, now_ms) {
            Some(scope) => {
                let ms = scope.elapsed_at(0);
                let duration_ns = ((ms as u128) * 1_000_000u128) as u64;
                let record = Record {
                    id,
                    scope: Some(scope_id),
                    time_ns: now_ns,
                    kind: RecordKind::ScopeExit { outcome, duration_ns },
                };
                let copy = record.clone();
                buffer.push_record(record);
                let current = if self.current_scope == Some(scope_id) {
                    scope.parent
                } else {
                    self.current_scope
                };
                *self = Journal {
                    buffer,
                    next_scope_id: self.next_scope_id,
                    next_record_id: next,
                    current_scope: current,
                    ids_spent: Ghost(spent),
                };
                (id, Some((copy, scope)))
            },
            None => {
                *self = Journal {
                    buffer,
                    next_scope_id: self.next_scope_id,
                    next_record_id: next,
                    current_scope: self.current_scope,
                    ids_spent: Ghost(spent),
                };
                (id, None)
            },
        }
    }

    /// Exit scope `scope_id` with `outcome` at the current time.
    pub fn exit_scope_no_write(&mut self, scope_id: ScopeId, outcome: Outcome) -> (r: (
        RecordId,
        Option<(Record, Scope)>,
    ))
        ensures
            fresh_kept(old(self)@, final(self)@),
            r.0 == RecordId(old(self)@.next_record_id),
            match r.1 {
                Some(p) => {
                    &&& p.1.exited_at is Some
                    &&& finalized_scope(old(self)@.scopes, scope_id, p.1.exited_at.unwrap()) == Some(p.1)
                    &&& p.0@ == exit_record(r.0, p.0.time_ns, outcome, p.1)
                    &&& final(self)@ == after_exit(old(self)@, scope_id, outcome, p.1.exited_at.unwrap(), p.0.time_ns)
                },
                None => {
                    &&& finalized_scope(old(self)@.scopes, scope_id, 0) is None
                    &&& final(self)@ == after_exit(old(self)@, scope_id, outcome, 0, 0)
                },
            },
    {
        let now_ms = current_millis();
        let now_ns = current_nanos();
        self.exit_scope_no_write_at(scope_id, outcome, now_ms, now_ns)
    }

    /// Record an event in the current scope, returning its id.
    pub fn record(&mut self, kind: EventKind, name: String, fields: Fields) -> (id: RecordId)
        ensures
            fresh_kept(old(self)@, final(self)@),
            id == RecordId(old(self)@.next_record_id),
            final(self)@ == after_record(
                old(self)@,
                kind,
                name,
                fields@,
                old(self)@.current_scope,
                final(self)@.records.last().time_ns,
            ),
    {
        let (id, _, _) = self.record_no_write(kind, name, fields);
        id
    }

    /// Exit scope `scope_id` with `outcome`, returning the id used for its exit record.
    pub fn exit_scope(&mut self, scope_id: ScopeId, outcome: Outcome) -> (id: RecordId)
        ensures
            fresh_kept(old(self)@, final(self)@),
            id == RecordId(old(self)@.next_record_id),
            exists|at_ms: u64, time_ns: u64|
                final(self)@ == after_exit(old(self)@, scope_id, outcome, at_ms, time_ns),
    {
        let (id, payload) = self.exit_scope_no_write(scope_id, outcome);
        proof {
            match payload {
                Some(p) => {
                    assert(self@ == after_exit(old(self)@, scope_id, outcome, p.1.exited_at.unwrap(), p.0.time_ns));
                },
                None => {
                    assert(self@ == after_exit(old(self)@, scope_id, outcome, 0, 0));
                },
            }
        }
        id
    }

    /// Drop the oldest records, keeping at most `max`.
    pub fn trim_records(&mut self, max: usize)
        ensures
            journal_fresh(old(self)@) ==> journal_fresh(final(self)@),
            final(self)@ == (JournalView { records: keep_newest(old(self)@.records, max as nat), ..old(self)@ }),
    {
        proof {
            use_type_invariant(&*self);
            lemma_fresh_trim(old(self)@, max as nat);
        }
        let mut buffer = Buffer::new();
        std::mem::swap(&mut buffer, &mut self.buffer);
        buffer.trim_records(max);
        self.buffer = buffer;
    }

    /// Drop the oldest scopes, keeping at most `max`.
    pub fn trim_scopes(&mut self, max: usize)
        ensures
            journal_fresh(old(self)@) ==> journal_fresh(final(self)@),
            final(self)@ == (JournalView { scopes: keep_newest(old(self)@.scopes, max as nat), ..old(self)@ }),
    {
        proof {
            use_type_invariant(&*self);
            lemma_fresh_trim(old(self)@, max as nat);
        }
        let mut buffer = Buffer::new();
        std::mem::swap(&mut buffer, &mut self.buffer);
        buffer.trim_scopes(max);
        self.buffer = buffer;
    }

    /// The first scope with id `id`.
    pub fn get_scope(&self, id: ScopeId) -> (r: Option<Scope>)
        ensures
            r == first_match(self@.scopes, scope_id_is(id)),
    {
        self.buffer.get_scope_by_id(id)
    }

    /// The first record with id `id`.
    pub fn get_record(&self, id: RecordId) -> (r: Option<Record>)
        ensures
            match first_match(self@.records, record_id_is(id)) {
                Some(v) => r is Some && r.unwrap()@ == v,
                None => r is None,
            },
    {
        self.buffer.get_record_by_id(id)
    }

    /// A copy of all records, oldest first.
    pub fn records(&self) -> (v: Vec<Record>)
        ensures
            record_views(v@) == self@.records,
    {
        self.buffer.records_snapshot()
    }

    /// A copy of all scopes, in the order they were entered.
    pub fn scopes(&self) -> (v: Vec<Scope>)
        ensures
            v@ == self@.scopes,
    {
        self.buffer.scopes_snapshot()
    }

    /// The records as JSON lines, oldest first, each with the scope it
    /// belongs to.
    pub fn records_jsonl(&self) -> (lines: Vec<String>)
        ensures
            lines@.len() == self@.records.len(),
            forall|i: int|
                0 <= i < lines@.len() ==> (#[trigger] lines@[i])@ == record_json(
                    self@.records[i],
                    scope_of_record(self@.scopes, self@.records[i]),
                ),
    {
        let records = self.buffer.records_snapshot();
        let scopes = self.buffer.scopes_snapshot();
        let mut lines: Vec<String> = Vec::new();
        let mut i: usize = 0;
        while i < records.len()
            invariant
                i <= records@.len(),
                record_views(records@) == self@.records,
                scopes@ == self@.scopes,
                lines@.len() == i,
                forall|k: int|
                    0 <= k < i ==> (#[trigger] lines@[k])@ == record_json(
                        self@.records[k],
                        scope_of_record(self@.scopes, self@.records[k]),
                    ),
            decreases records@.len() - i,
        {
            let record = &records[i];
            assert(record@ == self@.records[i as int]);
            let scope = match record.scope {
                Some(id) => find_scope(&scopes, id),
                None => None,
            };
            let line = render_jsonl(record, scope);
            lines.push(line);
            i = i + 1;
        }
        lines
    }

    /// Forget all records and scopes; the id counters keep counting.
    pub fn clear(&mut self)
        ensures
            journal_fresh(final(self)@),
            final(self)@ == (JournalView {
                records: Seq::empty(),
                scopes: Seq::empty(),
                current_scope: None,
                ..old(self)@
            }),
    {
        proof {
            use_type_invariant(&*self);
        }
        self.buffer = Buffer::new();
        self.current_scope = None;
    }
}

impl Journal {
    /// Enter a named scope under the current scope and guard it.
    pub fn scope_guard(&mut self, name: String) -> (g: ScopeGuard)
        ensures
            fresh_kept(old(self)@, final(self)@),
            g@ == (ScopeId(old(self)@.next_scope_id), false),
            final(self)@ == after_enter(
                old(self)@,
                Some(name),
                old(self)@.current_scope,
                final(self)@.scopes.last().entered_at,
                true,
            ),
    {
        let id = self.enter_scope(name);
        ScopeGuard::new(id)
    }
}

/// A guard for a journal scope: it remembers the scope and whether it has
/// been exited, so that the scope is exited once.
#[derive(Debug)]
pub struct ScopeGuard {
    scope_id: ScopeId,
    exited: bool,
}

impl View for ScopeGuard {
    type V = (ScopeId, bool);

    closed spec fn view(&self) -> (ScopeId, bool) {
        (self.scope_id, self.exited)
    }
}

impl ScopeGuard {
    /// Guard scope `scope_id`, not yet exited.
    pub fn new(scope_id: ScopeId) -> (g: Self)
        ensures
            g@ == (scope_id, false),
    {
        ScopeGuard { scope_id, exited: false }
    }

    /// The guarded scope's id.
    pub fn id(&self) -> (id: ScopeId)
        ensures
            id == self@.0,
    {
        self.scope_id
    }

    /// Whether the guarded scope has been exited through the guard.
    pub fn is_exited(&self) -> (b: bool)
        ensures
            b == self@.1,
    {
        self.exited
    }

    /// Exit the scope in `journal` with `outcome` unless the guard already
    /// did; later calls change nothing.
    pub fn exit(&mut self, journal: &mut Journal, outcome: Outcome)
        ensures
            final(self)@ == (old(self)@.0, true),
            fresh_kept(old(journal)@, final(journal)@),
            old(self)@.1 ==> final(journal)@ == old(journal)@,
            !old(self)@.1 ==> exists|at_ms: u64, t_ns: u64|
                final(journal)@ == #[trigger] after_exit(old(journal)@, old(self)@.0, outcome, at_ms, t_ns),
    {
        if !self.exited {
            journal.exit_scope(self.scope_id, outcome);
            self.exited = true;
        }
    }
}

} // verus!
