//! Properties of the journal that hold across its operations.
use crate::base::event_kind::EventKind;
use crate::base::id::ScopeId;
use crate::base::outcome::Outcome;
use crate::base::value::Value;
use crate::base::scope::ExitMessages;
use crate::journal::buffer::{finalized_scope, keep_newest, scope_id_is, set_messages_in};
use crate::base::scope::Scope;
use crate::journal::{after_enter, after_exit, after_record, empty_journal, exit_record, JournalView};
use crate::base::id::RecordId;
use crate::seqs::{first_pos, is_first, lemma_first_pos_found};
use vstd::prelude::*;

verus! {

/// `p` is a prefix of `s`.
pub open spec fn is_prefix<A>(p: Seq<A>, s: Seq<A>) -> bool {
    p.len() <= s.len() && s.take(p.len() as int) == p
}

proof fn lemma_first_pos_update<A>(s: Seq<A>, p: spec_fn(A) -> bool, i: int, x: A)
    requires
        first_pos(s, p) == Some(i),
        p(x),
    ensures
        first_pos(s.update(i, x), p) == Some(i),
{
    let k = choose|k: int| is_first(s, p, k);
    assert(is_first(s, p, k));
    assert(is_first(s, p, i));
    if k < i {
        assert(!p(s[k]));
    } else if i < k {
        assert(!p(s[i]));
    }
    assert(is_first(s.update(i, x), p, i));
    lemma_first_pos_found(s.update(i, x), p, i);
}

/// A scope is finalized at most once: a second exit of the same scope,
/// with any outcome and at any time, leaves the records and the scopes as
/// the first exit left them.
pub proof fn lemma_exit_finalizes_once(
    v: JournalView,
    id: ScopeId,
    first: Outcome,
    at_ms: u64,
    time_ns: u64,
    second: Outcome,
    at_ms2: u64,
    time_ns2: u64,
)
    ensures
        ({
            let once = after_exit(v, id, first, at_ms, time_ns);
            let twice = after_exit(once, id, second, at_ms2, time_ns2);
            twice.records == once.records && twice.scopes == once.scopes
        }),
{
    let once = after_exit(v, id, first, at_ms, time_ns);
    match finalized_scope(v.scopes, id, at_ms) {
        Some(s) => {
            let i = first_pos(v.scopes, scope_id_is(id)).unwrap();
            lemma_first_pos_update(v.scopes, scope_id_is(id), i, s);
            assert(once.scopes == v.scopes.update(i, s));
            assert(finalized_scope(once.scopes, id, at_ms2) is None);
        },
        None => {
            assert(once.scopes == v.scopes);
            match first_pos(v.scopes, scope_id_is(id)) {
                Some(i) => {
                    assert(finalized_scope(once.scopes, id, at_ms2) is None);
                },
                None => {},
            }
        },
    }
}

/// Exiting a scope that is open appends exactly one record, its exit
/// record with the outcome; exiting any other scope appends nothing.
pub proof fn lemma_exit_appends_one_record(v: JournalView, id: ScopeId, outcome: Outcome, at_ms: u64, time_ns: u64)
    ensures
        ({
            let after = after_exit(v, id, outcome, at_ms, time_ns);
            match finalized_scope(v.scopes, id, at_ms) {
                Some(s) => after.records == v.records.push(
                    exit_record(RecordId(v.next_record_id), time_ns, outcome, s),
                ) && s.id == id && s.exited_at == Some(at_ms),
                None => after.records == v.records,
            }
        }),
{
    match first_pos(v.scopes, scope_id_is(id)) {
        Some(i) => {
            let k = choose|k: int| is_first(v.scopes, scope_id_is(id), k);
            assert(is_first(v.scopes, scope_id_is(id), k));
        },
        None => {},
    }
}

/// Records are append-only: entering a scope, recording an event and
/// exiting a scope each keep every earlier record in place, adding at most
/// one at the end.
pub proof fn lemma_records_append_only(
    v: JournalView,
    name: Option<String>,
    parent: Option<ScopeId>,
    at_ms: u64,
    becomes_current: bool,
    kind: EventKind,
    message: String,
    fields: Seq<(String, Value)>,
    scope: Option<ScopeId>,
    time_ns: u64,
    id: ScopeId,
    outcome: Outcome,
)
    ensures
        after_enter(v, name, parent, at_ms, becomes_current).records == v.records,
        is_prefix(v.records, after_record(v, kind, message, fields, scope, time_ns).records),
        after_record(v, kind, message, fields, scope, time_ns).records.len() == v.records.len() + 1,
        is_prefix(v.records, after_exit(v, id, outcome, at_ms, time_ns).records),
        after_exit(v, id, outcome, at_ms, time_ns).records.len() <= v.records.len() + 1,
{
    let r = after_record(v, kind, message, fields, scope, time_ns).records;
    assert(r.take(v.records.len() as int) =~= v.records);
    let e = after_exit(v, id, outcome, at_ms, time_ns).records;
    assert(e.take(v.records.len() as int) =~= v.records);
}

/// Trimming keeps the newest `max` elements, oldest dropped first: the
/// result is a suffix of at most `max` elements, all of them when there
/// are no more than `max`.
pub proof fn lemma_keep_newest<A>(s: Seq<A>, max: nat)
    ensures
        keep_newest(s, max).len() == if s.len() > max { max } else { s.len() },
        keep_newest(s, max) == s.skip(s.len() - keep_newest(s, max).len()),
        s.len() <= max ==> keep_newest(s, max) == s,
{
    if s.len() <= max {
        assert(s.skip(0) =~= s);
    }
}

/// Entering scopes hands out distinct ids: a scope entered after another,
/// without the id counter wrapping, has a larger id.
pub proof fn lemma_scope_ids_increase(
    v: JournalView,
    name1: Option<String>,
    parent1: Option<ScopeId>,
    at1: u64,
    cur1: bool,
    name2: Option<String>,
    parent2: Option<ScopeId>,
    at2: u64,
    cur2: bool,
)
    requires
        v.next_scope_id < u64::MAX,
    ensures
        ({
            let v1 = after_enter(v, name1, parent1, at1, cur1);
            let v2 = after_enter(v1, name2, parent2, at2, cur2);
            v2.scopes[v.scopes.len() as int].id.0 < v2.scopes[v.scopes.len() + 1int].id.0
        }),
{
}

/// No two scopes share an id.
pub open spec fn distinct_ids(scopes: Seq<Scope>) -> bool {
    forall|i: int, j: int| 0 <= i < j < scopes.len() ==> scopes[i].id != scopes[j].id
}

/// The journal's scopes have distinct ids, all below the next id it hands
/// out.
pub open spec fn ids_fresh(v: JournalView) -> bool {
    &&& distinct_ids(v.scopes)
    &&& forall|i: int| 0 <= i < v.scopes.len() ==> (#[trigger] v.scopes[i]).id.0 < v.next_scope_id
}

/// Scope ids are unique: they are so in the empty journal, and entering a
/// scope (while the id counter has not reached its end), recording an
/// event, exiting a scope and trimming scopes keep them so.
pub proof fn lemma_scope_ids_unique(
    v: JournalView,
    name: Option<String>,
    parent: Option<ScopeId>,
    at_ms: u64,
    becomes_current: bool,
    kind: EventKind,
    message: String,
    fields: Seq<(String, Value)>,
    scope: Option<ScopeId>,
    time_ns: u64,
    id: ScopeId,
    outcome: Outcome,
    max: nat,
)
    requires
        ids_fresh(v),
    ensures
        ids_fresh(empty_journal()),
        v.next_scope_id < u64::MAX ==> ids_fresh(after_enter(v, name, parent, at_ms, becomes_current)),
        ids_fresh(after_record(v, kind, message, fields, scope, time_ns)),
        ids_fresh(after_exit(v, id, outcome, at_ms, time_ns)),
        ids_fresh(JournalView { scopes: keep_newest(v.scopes, max), ..v }),
{
    let e = after_exit(v, id, outcome, at_ms, time_ns);
    match finalized_scope(v.scopes, id, at_ms) {
        Some(s) => {
            let i = first_pos(v.scopes, scope_id_is(id)).unwrap();
            let k = choose|k: int| is_first(v.scopes, scope_id_is(id), k);
            assert(is_first(v.scopes, scope_id_is(id), k));
            assert(e.scopes == v.scopes.update(i, s));
            assert forall|a: int, b: int| 0 <= a < b < e.scopes.len() implies e.scopes[a].id != e.scopes[b].id by {
                assert(e.scopes[a].id == v.scopes[a].id);
                assert(e.scopes[b].id == v.scopes[b].id);
            }
            assert forall|a: int| 0 <= a < e.scopes.len() implies (#[trigger] e.scopes[a]).id.0 < e.next_scope_id by {
                assert(e.scopes[a].id == v.scopes[a].id);
            }
        },
        None => {},
    }
    let t = keep_newest(v.scopes, max);
    if v.scopes.len() > max {
        let d = v.scopes.len() - max;
        assert forall|a: int, b: int| 0 <= a < b < t.len() implies t[a].id != t[b].id by {
            assert(t[a] == v.scopes[a + d]);
            assert(t[b] == v.scopes[b + d]);
        }
        assert forall|a: int| 0 <= a < t.len() implies (#[trigger] t[a]).id.0 < v.next_scope_id by {
            assert(t[a] == v.scopes[a + d]);
        }
    }
    let n = after_enter(v, name, parent, at_ms, becomes_current);
    if v.next_scope_id < u64::MAX {
        assert forall|a: int, b: int| 0 <= a < b < n.scopes.len() implies n.scopes[a].id != n.scopes[b].id by {
            if b == v.scopes.len() {
                assert(v.scopes[a].id.0 < v.next_scope_id);
            }
        }
    }
}

/// The journal's records have distinct ids, all below the next id it
/// hands out.
pub open spec fn record_ids_fresh(v: JournalView) -> bool {
    &&& forall|i: int, j: int| 0 <= i < j < v.records.len() ==> v.records[i].id != v.records[j].id
    &&& forall|i: int| 0 <= i < v.records.len() ==> (#[trigger] v.records[i]).id.0 < v.next_record_id
}

/// Scope ids and record ids are both fresh.
pub open spec fn journal_fresh(v: JournalView) -> bool {
    ids_fresh(v) && record_ids_fresh(v)
}

/// Record ids are unique: they are so in the empty journal, and entering a
/// scope, recording an event and exiting a scope (while the record id
/// counter has not reached its end) and trimming records keep them so.
pub proof fn lemma_record_ids_unique(
    v: JournalView,
    name: Option<String>,
    parent: Option<ScopeId>,
    at_ms: u64,
    becomes_current: bool,
    kind: EventKind,
    message: String,
    fields: Seq<(String, Value)>,
    scope: Option<ScopeId>,
    time_ns: u64,
    id: ScopeId,
    outcome: Outcome,
    max: nat,
)
    requires
        record_ids_fresh(v),
    ensures
        record_ids_fresh(empty_journal()),
        record_ids_fresh(after_enter(v, name, parent, at_ms, becomes_current)),
        v.next_record_id < u64::MAX ==> record_ids_fresh(after_record(v, kind, message, fields, scope, time_ns)),
        v.next_record_id < u64::MAX ==> record_ids_fresh(after_exit(v, id, outcome, at_ms, time_ns)),
        record_ids_fresh(JournalView { records: keep_newest(v.records, max), ..v }),
{
    if v.next_record_id < u64::MAX {
        let r = after_record(v, kind, message, fields, scope, time_ns);
        assert forall|a: int, b: int| 0 <= a < b < r.records.len() implies r.records[a].id != r.records[b].id by {
            if b == v.records.len() {
                assert(v.records[a].id.0 < v.next_record_id);
            }
        }
        let e = after_exit(v, id, outcome, at_ms, time_ns);
        assert forall|a: int, b: int| 0 <= a < b < e.records.len() implies e.records[a].id != e.records[b].id by {
            if b == v.records.len() {
                assert(v.records[a].id.0 < v.next_record_id);
            }
        }
        assert forall|a: int| 0 <= a < e.records.len() implies (#[trigger] e.records[a]).id.0 < e.next_record_id by {
            if a < v.records.len() {
                assert(e.records[a] == v.records[a]);
            }
        }
    }
    let t = keep_newest(v.records, max);
    if v.records.len() > max {
        let d = v.records.len() - max;
        assert forall|a: int, b: int| 0 <= a < b < t.len() implies t[a].id != t[b].id by {
            assert(t[a] == v.records[a + d]);
            assert(t[b] == v.records[b + d]);
        }
        assert forall|a: int| 0 <= a < t.len() implies (#[trigger] t[a]).id.0 < v.next_record_id by {
            assert(t[a] == v.records[a + d]);
        }
    }
}

/// In a journal with fresh ids, a newly entered scope is the one an exit
/// of its id finds: the first exit appends exactly one exit record, of that
/// scope with the outcome, and any later exit of it appends nothing.
pub proof fn lemma_enter_then_exit_once(
    v: JournalView,
    name: Option<String>,
    parent: Option<ScopeId>,
    at_ms: u64,
    becomes_current: bool,
    outcome: Outcome,
    exit_ms: u64,
    exit_ns: u64,
    later: Outcome,
    later_ms: u64,
    later_ns: u64,
)
    requires
        ids_fresh(v),
        v.next_scope_id < u64::MAX,
    ensures
        ({
            let id = ScopeId(v.next_scope_id);
            let entered = after_enter(v, name, parent, at_ms, becomes_current);
            let exited = after_exit(entered, id, outcome, exit_ms, exit_ns);
            &&& exited.records == entered.records.push(
                exit_record(
                    RecordId(entered.next_record_id),
                    exit_ns,
                    outcome,
                    Scope { exited_at: Some(exit_ms), ..crate::journal::entered_scope(id, parent, at_ms, name) },
                ),
            )
            &&& after_exit(exited, id, later, later_ms, later_ns).records == exited.records
        }),
{
    let id = ScopeId(v.next_scope_id);
    let entered = after_enter(v, name, parent, at_ms, becomes_current);
    let k = v.scopes.len() as int;
    assert forall|j: int| 0 <= j < k implies !scope_id_is(id)(#[trigger] entered.scopes[j]) by {
        assert(entered.scopes[j] == v.scopes[j]);
        assert(v.scopes[j].id.0 < v.next_scope_id);
    }
    assert(is_first(entered.scopes, scope_id_is(id), k));
    lemma_first_pos_found(entered.scopes, scope_id_is(id), k);
    lemma_exit_appends_one_record(entered, id, outcome, exit_ms, exit_ns);
    lemma_exit_finalizes_once(entered, id, outcome, exit_ms, exit_ns, later, later_ms, later_ns);
}

/// Fresh ids stay fresh from `old` to `new`, as long as neither id counter
/// of `old` has reached its end.
pub open spec fn fresh_kept(old: JournalView, new: JournalView) -> bool {
    journal_fresh(old) && old.next_scope_id < u64::MAX && old.next_record_id < u64::MAX ==> journal_fresh(new)
}

/// The ids handed out so far are fresh and neither counter has reached its
/// last value, unless a counter has once reached it.
pub open spec fn ids_sound(v: JournalView) -> bool {
    v.ids_spent || (journal_fresh(v) && v.next_scope_id < u64::MAX && v.next_record_id < u64::MAX)
}

/// Entering a scope keeps ids fresh.
pub proof fn lemma_fresh_enter(v: JournalView, name: Option<String>, parent: Option<ScopeId>, at_ms: u64, becomes_current: bool)
    ensures
        fresh_kept(v, after_enter(v, name, parent, at_ms, becomes_current)),
{
    if journal_fresh(v) {
        lemma_scope_ids_unique(v, name, parent, at_ms, becomes_current, EventKind::Info, arbitrary(), Seq::empty(), None, 0, ScopeId(0), Outcome::Success, 0);
        lemma_record_ids_unique(v, name, parent, at_ms, becomes_current, EventKind::Info, arbitrary(), Seq::empty(), None, 0, ScopeId(0), Outcome::Success, 0);
    }
}

/// Recording an event keeps ids fresh.
pub proof fn lemma_fresh_record(
    v: JournalView,
    kind: EventKind,
    message: String,
    fields: Seq<(String, Value)>,
    scope: Option<ScopeId>,
    time_ns: u64,
)
    ensures
        fresh_kept(v, after_record(v, kind, message, fields, scope, time_ns)),
{
    if journal_fresh(v) {
        lemma_scope_ids_unique(v, None, None, 0, false, kind, message, fields, scope, time_ns, ScopeId(0), Outcome::Success, 0);
        lemma_record_ids_unique(v, None, None, 0, false, kind, message, fields, scope, time_ns, ScopeId(0), Outcome::Success, 0);
    }
}

/// Exiting a scope keeps ids fresh.
pub proof fn lemma_fresh_exit(v: JournalView, id: ScopeId, outcome: Outcome, at_ms: u64, time_ns: u64)
    ensures
        fresh_kept(v, after_exit(v, id, outcome, at_ms, time_ns)),
{
    if journal_fresh(v) {
        lemma_scope_ids_unique(v, None, None, at_ms, false, EventKind::Info, arbitrary(), Seq::empty(), None, time_ns, id, outcome, 0);
        lemma_record_ids_unique(v, None, None, at_ms, false, EventKind::Info, arbitrary(), Seq::empty(), None, time_ns, id, outcome, 0);
    }
}

/// Trimming records or scopes keeps ids fresh.
pub proof fn lemma_fresh_trim(v: JournalView, max: nat)
    ensures
        journal_fresh(v) ==> journal_fresh(JournalView { records: keep_newest(v.records, max), ..v }),
        journal_fresh(v) ==> journal_fresh(JournalView { scopes: keep_newest(v.scopes, max), ..v }),
{
    if journal_fresh(v) {
        lemma_scope_ids_unique(v, None, None, 0, false, EventKind::Info, arbitrary(), Seq::empty(), None, 0, ScopeId(0), Outcome::Success, max);
        lemma_record_ids_unique(v, None, None, 0, false, EventKind::Info, arbitrary(), Seq::empty(), None, 0, ScopeId(0), Outcome::Success, max);
    }
}

/// Setting exit messages keeps ids fresh: only the messages change.
pub proof fn lemma_fresh_messages(v: JournalView, id: ScopeId, msgs: ExitMessages)
    ensures
        journal_fresh(v) ==> journal_fresh(JournalView { scopes: set_messages_in(v.scopes, id, msgs), ..v }),
{
    let t = set_messages_in(v.scopes, id, msgs);
    assert forall|a: int| 0 <= a < t.len() implies (#[trigger] t[a]).id == v.scopes[a].id by {}
    if journal_fresh(v) {
        assert forall|a: int, b: int| 0 <= a < b < t.len() implies t[a].id != t[b].id by {
            assert(t[a].id == v.scopes[a].id);
            assert(t[b].id == v.scopes[b].id);
        }
    }
}

} // verus!
