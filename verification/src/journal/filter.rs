//! Filters over the journal's scopes and records.
//!
//! Scope and event filters are predicates built from simple criteria and
//! combined with `and`, `or` and `not`; `Filter` pairs one of each.
use crate::base::event_kind::EventKind;
use crate::base::id::ScopeId;
use crate::base::outcome::Outcome;
use crate::base::record::{Record, RecordKind, RecordKindView, RecordView};
use crate::base::scope::Scope;
use crate::journal::buffer::{record_views, scope_id_is};
use crate::journal::{find_scope, Journal};
use crate::seqs::{first_match, is_first, lemma_first_pos_found, lemma_first_pos_none};
use crate::text::{contains_bytes, str_contains};
use vstd::prelude::*;

verus! {

/// A predicate over the journal's scopes.
#[derive(Debug)]
pub enum ScopeFilter {
    /// The scope's outcome is this one (a scope with no exit record counts as aborted).
    Outcome(Outcome),
    /// The scope's depth (0 for a root) is at most this.
    MaxDepth(usize),
    /// The scope's depth is at least this.
    MinDepth(usize),
    /// The scope's name contains this text, ignoring case.
    NameContains(String),
    /// The scope's name is exactly this.
    NameEquals(String),
    /// The scope has no name.
    Unnamed,
    /// The scope has a name.
    Named,
    /// The scope's parent is this scope.
    HasParent(ScopeId),
    /// The scope has no parent.
    IsRoot,
    /// The scope lasted longer than this many milliseconds.
    DurationAbove(u64),
    /// The scope lasted less than this many milliseconds.
    DurationBelow(u64),
    /// Both filters match.
    And(Box<ScopeFilter>, Box<ScopeFilter>),
    /// Either filter matches.
    Or(Box<ScopeFilter>, Box<ScopeFilter>),
    /// The filter does not match.
    Not(Box<ScopeFilter>),
    /// Every scope.
    Any,
    /// No scope.
    Never,
}

/// A predicate over the journal's event records.
#[derive(Debug)]
pub enum EventFilter {
    /// The event is of this kind.
    Kind(EventKind),
    /// The event's message contains this text, ignoring case.
    MessageContains(String),
    /// The event's message contains this text exactly.
    MessageContainsCaseSensitive(String),
    /// The event belongs to this scope.
    InScope(ScopeId),
    /// The event belongs to no scope.
    Unscoped,
    /// The event belongs to some scope.
    Scoped,
    /// Both filters match.
    And(Box<EventFilter>, Box<EventFilter>),
    /// Either filter matches.
    Or(Box<EventFilter>, Box<EventFilter>),
    /// The filter does not match.
    Not(Box<EventFilter>),
    /// Every event.
    Any,
    /// No event.
    Never,
}

/// A scope filter and an event filter, applied independently.
#[derive(Debug)]
pub struct Filter {
    pub scope_filter: ScopeFilter,
    pub event_filter: EventFilter,
}

/// What `str::to_lowercase` gives for `s`.
pub uninterp spec fn spec_lowercase(s: Seq<char>) -> Seq<char>;

/// Calls `str::to_lowercase`, whose result is the Unicode lowercase mapping
/// of `s`; only that it depends on `s` alone is claimed here.
#[verifier::external_body]
fn lowercase(s: &str) -> (r: String)
    ensures
        r@ == spec_lowercase(s@),
{
    s.to_lowercase()
}

/// `needle` occurs in `hay`, both taken in lowercase.
pub open spec fn contains_ignoring_case(hay: Seq<char>, needle: Seq<char>) -> bool {
    contains_bytes(utf8_of(spec_lowercase(hay)), utf8_of(spec_lowercase(needle)))
}

/// UTF-8 bytes of a character sequence.
pub open spec fn utf8_of(s: Seq<char>) -> Seq<u8> {
    crate::text::utf8(s)
}

fn contains_lowercase(hay: &str, needle: &str) -> (r: bool)
    ensures
        r == contains_ignoring_case(hay@, needle@),
{
    let h = lowercase(hay);
    let n = lowercase(needle);
    str_contains(h.as_str(), n.as_str())
}

/// The record predicate "is the exit record of scope `id`".
pub open spec fn is_exit_of(id: ScopeId) -> spec_fn(RecordView) -> bool {
    |r: RecordView| r.kind is ScopeExit && r.scope == Some(id)
}

/// The outcome of scope `id`: that of its first exit record, or `Aborted`
/// when it has none.
pub open spec fn outcome_in(records: Seq<RecordView>, id: ScopeId) -> Outcome {
    match first_match(records, is_exit_of(id)) {
        Some(r) => match r.kind {
            RecordKindView::ScopeExit { outcome, .. } => outcome,
            RecordKindView::Event { .. } => Outcome::Aborted,
        },
        None => Outcome::Aborted,
    }
}

/// The duration of scope `id` in whole milliseconds, from its first exit
/// record, or 0 when it has none.
pub open spec fn duration_ms_in(records: Seq<RecordView>, id: ScopeId) -> u64 {
    match first_match(records, is_exit_of(id)) {
        Some(r) => match r.kind {
            RecordKindView::ScopeExit { duration_ns, .. } => (duration_ns / 1_000_000) as u64,
            RecordKindView::Event { .. } => 0,
        },
        None => 0,
    }
}

/// The parent of the first scope with id `id`, if that scope is known.
pub open spec fn parent_in(scopes: Seq<Scope>, id: ScopeId) -> Option<ScopeId> {
    match first_match(scopes, scope_id_is(id)) {
        Some(s) => s.parent,
        None => None,
    }
}

/// The number of parent links followed from `cur`, at most `fuel`.
pub open spec fn chain_depth(scopes: Seq<Scope>, cur: Option<ScopeId>, fuel: nat) -> nat
    decreases fuel,
{
    match cur {
        None => 0,
        Some(pid) => if fuel == 0 {
            0
        } else {
            1 + chain_depth(scopes, parent_in(scopes, pid), (fuel - 1) as nat)
        },
    }
}

/// The depth of `s`: the number of parent links above it, each looked up
/// among `scopes`; a chain of links is followed at most as many times as
/// there are scopes, which is the whole chain for a scope of an acyclic
/// tree.
pub open spec fn scope_depth(scopes: Seq<Scope>, s: Scope) -> nat {
    chain_depth(scopes, s.parent, scopes.len())
}

/// What `f` says of scope `s`, given the journal's records and scopes.
pub open spec fn scope_matches(f: ScopeFilter, s: Scope, records: Seq<RecordView>, scopes: Seq<Scope>) -> bool
    decreases f,
{
    match f {
        ScopeFilter::Outcome(o) => outcome_in(records, s.id) == o,
        ScopeFilter::MaxDepth(max) => scope_depth(scopes, s) <= max,
        ScopeFilter::MinDepth(min) => scope_depth(scopes, s) >= min,
        ScopeFilter::NameContains(sub) => match s.name {
            Some(n) => contains_ignoring_case(n@, sub@),
            None => false,
        },
        ScopeFilter::NameEquals(e) => match s.name {
            Some(n) => n@ == e@,
            None => false,
        },
        ScopeFilter::Unnamed => s.name is None,
        ScopeFilter::Named => s.name is Some,
        ScopeFilter::HasParent(p) => s.parent == Some(p),
        ScopeFilter::IsRoot => s.parent is None,
        ScopeFilter::DurationAbove(t) => duration_ms_in(records, s.id) > t,
        ScopeFilter::DurationBelow(t) => duration_ms_in(records, s.id) < t,
        ScopeFilter::And(l, r) => scope_matches(*l, s, records, scopes) && scope_matches(*r, s, records, scopes),
        ScopeFilter::Or(l, r) => scope_matches(*l, s, records, scopes) || scope_matches(*r, s, records, scopes),
        ScopeFilter::Not(inner) => !scope_matches(*inner, s, records, scopes),
        ScopeFilter::Any => true,
        ScopeFilter::Never => false,
    }
}

/// What `f` says of the event `kind`/`message` in scope `scope`.
pub open spec fn event_fields_match(f: EventFilter, kind: EventKind, message: Seq<char>, scope: Option<ScopeId>) -> bool
    decreases f,
{
    match f {
        EventFilter::Kind(k) => kind == k,
        EventFilter::MessageContains(sub) => contains_ignoring_case(message, sub@),
        EventFilter::MessageContainsCaseSensitive(sub) => contains_bytes(utf8_of(message), utf8_of(sub@)),
        EventFilter::InScope(id) => scope == Some(id),
        EventFilter::Unscoped => scope is None,
        EventFilter::Scoped => scope is Some,
        EventFilter::And(l, r) => event_fields_match(*l, kind, message, scope) && event_fields_match(*r, kind, message, scope),
        EventFilter::Or(l, r) => event_fields_match(*l, kind, message, scope) || event_fields_match(*r, kind, message, scope),
        EventFilter::Not(inner) => !event_fields_match(*inner, kind, message, scope),
        EventFilter::Any => true,
        EventFilter::Never => false,
    }
}

/// What `f` says of record `r`: a scope-exit record never matches.
pub open spec fn event_matches(f: EventFilter, r: RecordView) -> bool {
    match r.kind {
        RecordKindView::Event { kind, name, .. } => event_fields_match(f, kind, name@, r.scope),
        RecordKindView::ScopeExit { .. } => false,
    }
}

fn first_exit(records: &Vec<Record>, id: ScopeId) -> (r: Option<&Record>)
    ensures
        match first_match(record_views(records@), is_exit_of(id)) {
            Some(v) => r is Some && r.unwrap()@ == v,
            None => r is None,
        },
{
    let ghost views = record_views(records@);
    let mut i: usize = 0;
    while i < records.len()
        invariant
            i <= records@.len(),
            views == record_views(records@),
            forall|j: int| 0 <= j < i ==> !is_exit_of(id)(#[trigger] views[j]),
        decreases records@.len() - i,
    {
        let is_exit = match &records[i].kind {
            RecordKind::ScopeExit { .. } => true,
            RecordKind::Event { .. } => false,
        };
        if is_exit && records[i].scope == Some(id) {
            proof {
                assert(is_first(views, is_exit_of(id), i as int));
                lemma_first_pos_found(views, is_exit_of(id), i as int);
            }
            return Some(&records[i]);
        }
        i = i + 1;
    }
    proof {
        lemma_first_pos_none(views, is_exit_of(id));
    }
    None
}

pub(crate) fn outcome_of_scope(records: &Vec<Record>, id: ScopeId) -> (o: Outcome)
    ensures
        o == outcome_in(record_views(records@), id),
{
    match first_exit(records, id) {
        Some(r) => match &r.kind {
            RecordKind::ScopeExit { outcome, .. } => *outcome,
            RecordKind::Event { .. } => Outcome::Aborted,
        },
        None => Outcome::Aborted,
    }
}

pub(crate) fn duration_ms_of_scope(records: &Vec<Record>, id: ScopeId) -> (d: u64)
    ensures
        d == duration_ms_in(record_views(records@), id),
{
    match first_exit(records, id) {
        Some(r) => match &r.kind {
            RecordKind::ScopeExit { duration_ns, .. } => *duration_ns / 1_000_000,
            RecordKind::Event { .. } => 0,
        },
        None => 0,
    }
}

fn depth_of_scope(scopes: &Vec<Scope>, s: &Scope) -> (d: usize)
    ensures
        d == scope_depth(scopes@, *s),
{
    let mut depth: usize = 0;
    let mut cur = s.parent;
    let mut fuel: usize = scopes.len();
    while fuel > 0 && cur.is_some()
        invariant
            depth + fuel == scopes@.len() <= usize::MAX,
            depth + chain_depth(scopes@, cur, fuel as nat) == scope_depth(scopes@, *s),
        decreases fuel,
    {
        let pid = cur.unwrap();
        depth = depth + 1;
        cur = match find_scope(scopes, pid) {
            Some(p) => p.parent,
            None => None,
        };
        fuel = fuel - 1;
    }
    depth
}

/// Combining scope filters: `a.and(b)` matches a scope exactly when both
/// match, `a.or(b)` when either does, and `a.not()` when `a` does not;
/// `not` twice gives back the same verdict.
pub proof fn lemma_scope_filter_logic(
    a: ScopeFilter,
    b: ScopeFilter,
    s: Scope,
    records: Seq<RecordView>,
    scopes: Seq<Scope>,
)
    ensures
        scope_matches(ScopeFilter::And(Box::new(a), Box::new(b)), s, records, scopes)
            == (scope_matches(a, s, records, scopes) && scope_matches(b, s, records, scopes)),
        scope_matches(ScopeFilter::Or(Box::new(a), Box::new(b)), s, records, scopes)
            == (scope_matches(a, s, records, scopes) || scope_matches(b, s, records, scopes)),
        scope_matches(ScopeFilter::Not(Box::new(a)), s, records, scopes) == !scope_matches(a, s, records, scopes),
        scope_matches(ScopeFilter::Not(Box::new(ScopeFilter::Not(Box::new(a)))), s, records, scopes)
            == scope_matches(a, s, records, scopes),
        scope_matches(ScopeFilter::Any, s, records, scopes),
        !scope_matches(ScopeFilter::Never, s, records, scopes),
{
    reveal_with_fuel(scope_matches, 2);
}

/// Combining event filters: `a.and(b)` matches an event exactly when both
/// match, `a.or(b)` when either does; `Any` matches every event and
/// `Never` none; no event filter, not even a negated one, matches a
/// scope-exit record.
pub proof fn lemma_event_filter_logic(a: EventFilter, b: EventFilter, r: RecordView)
    ensures
        r.kind is Event ==> event_matches(EventFilter::And(Box::new(a), Box::new(b)), r)
            == (event_matches(a, r) && event_matches(b, r)),
        r.kind is Event ==> event_matches(EventFilter::Or(Box::new(a), Box::new(b)), r)
            == (event_matches(a, r) || event_matches(b, r)),
        r.kind is Event ==> event_matches(EventFilter::Not(Box::new(a)), r) == !event_matches(a, r),
        r.kind is Event ==> event_matches(EventFilter::Any, r),
        !event_matches(EventFilter::Never, r),
        r.kind is ScopeExit ==> !event_matches(a, r) && !event_matches(EventFilter::Not(Box::new(a)), r),
{
}

impl ScopeFilter {
    /// Both this filter and `other`.
    pub fn and(self, other: ScopeFilter) -> (f: Self)
        ensures
            f == ScopeFilter::And(Box::new(self), Box::new(other)),
    {
        ScopeFilter::And(Box::new(self), Box::new(other))
    }

    /// This filter or `other`.
    pub fn or(self, other: ScopeFilter) -> (f: Self)
        ensures
            f == ScopeFilter::Or(Box::new(self), Box::new(other)),
    {
        ScopeFilter::Or(Box::new(self), Box::new(other))
    }

    /// The negation of this filter.
    pub fn not(self) -> (f: Self)
        ensures
            f == ScopeFilter::Not(Box::new(self)),
    {
        ScopeFilter::Not(Box::new(self))
    }

    pub(crate) fn matches_in(&self, scope: &Scope, records: &Vec<Record>, scopes: &Vec<Scope>) -> (b: bool)
        ensures
            b == scope_matches(*self, *scope, record_views(records@), scopes@),
        decreases self,
    {
        match self {
            ScopeFilter::Outcome(expected) => outcome_of_scope(records, scope.id) == *expected,
            ScopeFilter::MaxDepth(max) => depth_of_scope(scopes, scope) <= *max,
            ScopeFilter::MinDepth(min) => depth_of_scope(scopes, scope) >= *min,
            ScopeFilter::NameContains(sub) => match &scope.name {
                Some(n) => contains_lowercase(n.as_str(), sub.as_str()),
                None => false,
            },
            ScopeFilter::NameEquals(expected) => match &scope.name {
                Some(n) => *n == *expected,
                None => false,
            },
            ScopeFilter::Unnamed => scope.name.is_none(),
            ScopeFilter::Named => scope.name.is_some(),
            ScopeFilter::HasParent(p) => scope.parent == Some(*p),
            ScopeFilter::IsRoot => scope.parent.is_none(),
            ScopeFilter::DurationAbove(t) => duration_ms_of_scope(records, scope.id) > *t,
            ScopeFilter::DurationBelow(t) => duration_ms_of_scope(records, scope.id) < *t,
            ScopeFilter::And(l, r) => l.matches_in(scope, records, scopes) && r.matches_in(scope, records, scopes),
            ScopeFilter::Or(l, r) => l.matches_in(scope, records, scopes) || r.matches_in(scope, records, scopes),
            ScopeFilter::Not(inner) => !inner.matches_in(scope, records, scopes),
            ScopeFilter::Any => true,
            ScopeFilter::Never => false,
        }
    }

    /// Whether `scope` matches, with its outcome, duration and depth taken
    /// from `journal`.
    pub fn matches(&self, scope: &Scope, journal: &Journal) -> (b: bool)
        ensures
            b == scope_matches(*self, *scope, journal@.records, journal@.scopes),
    {
        let records = journal.records();
        let scopes = journal.scopes();
        self.matches_in(scope, &records, &scopes)
    }
}

impl EventFilter {
    /// Both this filter and `other`.
    pub fn and(self, other: EventFilter) -> (f: Self)
        ensures
            f == EventFilter::And(Box::new(self), Box::new(other)),
    {
        EventFilter::And(Box::new(self), Box::new(other))
    }

    /// This filter or `other`.
    pub fn or(self, other: EventFilter) -> (f: Self)
        ensures
            f == EventFilter::Or(Box::new(self), Box::new(other)),
    {
        EventFilter::Or(Box::new(self), Box::new(other))
    }

    /// The negation of this filter.
    pub fn not(self) -> (f: Self)
        ensures
            f == EventFilter::Not(Box::new(self)),
    {
        EventFilter::Not(Box::new(self))
    }

    fn matches_fields(&self, kind: EventKind, message: &str, scope: Option<ScopeId>) -> (b: bool)
        ensures
            b == event_fields_match(*self, kind, message@, scope),
        decreases self,
    {
        match self {
            EventFilter::Kind(k) => kind == *k,
            EventFilter::MessageContains(sub) => contains_lowercase(message, sub.as_str()),
            EventFilter::MessageContainsCaseSensitive(sub) => str_contains(message, sub.as_str()),
            EventFilter::InScope(id) => scope == Some(*id),
            EventFilter::Unscoped => scope.is_none(),
            EventFilter::Scoped => scope.is_some(),
            EventFilter::And(l, r) => l.matches_fields(kind, message, scope) && r.matches_fields(kind, message, scope),
            EventFilter::Or(l, r) => l.matches_fields(kind, message, scope) || r.matches_fields(kind, message, scope),
            EventFilter::Not(inner) => !inner.matches_fields(kind, message, scope),
            EventFilter::Any => true,
            EventFilter::Never => false,
        }
    }

    /// Whether `record` is an event that matches; scope-exit records never
    /// do.
    pub fn matches(&self, record: &Record) -> (b: bool)
        ensures
            b == event_matches(*self, record@),
    {
        match &record.kind {
            RecordKind::Event { kind, name, .. } => self.matches_fields(*kind, name.as_str(), record.scope),
            RecordKind::ScopeExit { .. } => false,
        }
    }
}

impl Filter {
    /// The filter made of `scope_filter` and `event_filter`.
    pub fn new(scope_filter: ScopeFilter, event_filter: EventFilter) -> (f: Self)
        ensures
            f.scope_filter == scope_filter,
            f.event_filter == event_filter,
    {
        Filter { scope_filter, event_filter }
    }

    /// A filter on scopes that lets every event through.
    pub fn scope(scope_filter: ScopeFilter) -> (f: Self)
        ensures
            f.scope_filter == scope_filter,
            f.event_filter == EventFilter::Any,
    {
        Filter { scope_filter, event_filter: EventFilter::Any }
    }

    /// A filter on events that lets every scope through.
    pub fn event(event_filter: EventFilter) -> (f: Self)
        ensures
            f.scope_filter == ScopeFilter::Any,
            f.event_filter == event_filter,
    {
        Filter { scope_filter: ScopeFilter::Any, event_filter }
    }

    /// The filter that lets everything through.
    pub fn any() -> (f: Self)
        ensures
            f.scope_filter == ScopeFilter::Any,
            f.event_filter == EventFilter::Any,
    {
        Filter { scope_filter: ScopeFilter::Any, event_filter: EventFilter::Any }
    }

    /// The filter that lets nothing through.
    pub fn none() -> (f: Self)
        ensures
            f.scope_filter == ScopeFilter::Never,
            f.event_filter == EventFilter::Never,
    {
        Filter { scope_filter: ScopeFilter::Never, event_filter: EventFilter::Never }
    }

    /// Both filters, scope filters and event filters combined separately.
    pub fn and(self, other: Filter) -> (f: Self)
        ensures
            f.scope_filter == ScopeFilter::And(Box::new(self.scope_filter), Box::new(other.scope_filter)),
            f.event_filter == EventFilter::And(Box::new(self.event_filter), Box::new(other.event_filter)),
    {
        Filter {
            scope_filter: self.scope_filter.and(other.scope_filter),
            event_filter: self.event_filter.and(other.event_filter),
        }
    }

    /// Either filter, scope filters and event filters combined separately.
    pub fn or(self, other: Filter) -> (f: Self)
        ensures
            f.scope_filter == ScopeFilter::Or(Box::new(self.scope_filter), Box::new(other.scope_filter)),
            f.event_filter == EventFilter::Or(Box::new(self.event_filter), Box::new(other.event_filter)),
    {
        Filter {
            scope_filter: self.scope_filter.or(other.scope_filter),
            event_filter: self.event_filter.or(other.event_filter),
        }
    }

    /// Whether `scope` passes the scope filter.
    pub fn matches_scope(&self, scope: &Scope, journal: &Journal) -> (b: bool)
        ensures
            b == scope_matches(self.scope_filter, *scope, journal@.records, journal@.scopes),
    {
        self.scope_filter.matches(scope, journal)
    }

    /// Whether `record` passes the event filter.
    pub fn matches_event(&self, record: &Record) -> (b: bool)
        ensures
            b == event_matches(self.event_filter, record@),
    {
        self.event_filter.matches(record)
    }
}

impl Default for Filter {
    fn default() -> (f: Self)
        ensures
            f.scope_filter == ScopeFilter::Any,
            f.event_filter == EventFilter::Any,
    {
        Filter::any()
    }
}


/// A parent filter looks at the scope's parent only: `HasParent(p)` matches
/// a scope exactly when its parent is `p`, whatever the scope's own id.
pub proof fn lemma_has_parent_matches(p: ScopeId, s: Scope, id: ScopeId, records: Seq<RecordView>, scopes: Seq<Scope>)
    ensures
        scope_matches(ScopeFilter::HasParent(p), s, records, scopes) <==> s.parent == Some(p),
        scope_matches(ScopeFilter::HasParent(p), Scope { id, ..s }, records, scopes) == scope_matches(
            ScopeFilter::HasParent(p),
            s,
            records,
            scopes,
        ),
{
}

} // verus!
