//! Storage for the journal's records and scopes.
use crate::base::id::{RecordId, ScopeId};
use crate::base::record::{Record, RecordView};
use crate::base::scope::{ExitMessages, Scope};
use crate::seqs::{first_match, first_pos, is_first, lemma_first_pos_found, lemma_first_pos_none};
use vstd::prelude::*;

verus! {

/// Buffer for journal records and scopes.
///
/// Records are append-only up to the retention cap, where the oldest are
/// evicted. Scopes are created once on enter and finalized once on exit by
/// filling `exited_at`.
#[derive(Debug)]
pub struct Buffer {
    records: Vec<Record>,
    scopes: Vec<Scope>,
}

/// The abstract content of a `Buffer`.
pub struct BufferView {
    pub records: Seq<RecordView>,
    pub scopes: Seq<Scope>,
}

/// The views of a sequence of records.
pub open spec fn record_views(s: Seq<Record>) -> Seq<RecordView> {
    s.map_values(|r: Record| r@)
}

impl View for Buffer {
    type V = BufferView;

    closed spec fn view(&self) -> BufferView {
        BufferView { records: record_views(self.records@), scopes: self.scopes@ }
    }
}

/// The scope predicate "has id `id`".
pub open spec fn scope_id_is(id: ScopeId) -> spec_fn(Scope) -> bool {
    |s: Scope| s.id == id
}

/// The record predicate "has id `id`".
pub open spec fn record_id_is(id: RecordId) -> spec_fn(RecordView) -> bool {
    |r: RecordView| r.id == id
}

/// Exit messages where each message given in `new` replaces the one in `old`.
pub open spec fn merge_exit_messages(old: ExitMessages, new: ExitMessages) -> ExitMessages {
    ExitMessages {
        success: if new.success is Some { new.success } else { old.success },
        failure: if new.failure is Some { new.failure } else { old.failure },
        aborted: if new.aborted is Some { new.aborted } else { old.aborted },
    }
}

/// The scopes after merging `msgs` into the first scope with id `id`.
pub open spec fn set_messages_in(scopes: Seq<Scope>, id: ScopeId, msgs: ExitMessages) -> Seq<Scope> {
    match first_pos(scopes, scope_id_is(id)) {
        Some(i) => scopes.update(
            i,
            Scope { exit_messages: merge_exit_messages(scopes[i].exit_messages, msgs), ..scopes[i] },
        ),
        None => scopes,
    }
}

/// The scope finalized by an exit at `at_ms`: the first scope with id `id`,
/// provided it has not exited yet.
pub open spec fn finalized_scope(scopes: Seq<Scope>, id: ScopeId, at_ms: u64) -> Option<Scope> {
    match first_pos(scopes, scope_id_is(id)) {
        Some(i) => if scopes[i].exited_at is None {
            Some(Scope { exited_at: Some(at_ms), ..scopes[i] })
        } else {
            None
        },
        None => None,
    }
}

/// The scopes after finalizing scope `id` at `at_ms`.
pub open spec fn finalize_in(scopes: Seq<Scope>, id: ScopeId, at_ms: u64) -> Seq<Scope> {
    match finalized_scope(scopes, id, at_ms) {
        Some(s) => scopes.update(first_pos(scopes, scope_id_is(id)).unwrap(), s),
        None => scopes,
    }
}

/// The newest `max` elements of `s`, oldest dropped first.
pub open spec fn keep_newest<A>(s: Seq<A>, max: nat) -> Seq<A> {
    if s.len() > max {
        s.skip(s.len() - max)
    } else {
        s
    }
}

/// Views of records distribute over `push`.
pub proof fn lemma_record_views_push(s: Seq<Record>, r: Record)
    ensures
        record_views(s.push(r)) == record_views(s).push(r@),
{
    assert(record_views(s.push(r)) =~= record_views(s).push(r@));
}

/// Views of records distribute over `skip`.
pub proof fn lemma_record_views_skip(s: Seq<Record>, n: int)
    requires
        0 <= n <= s.len(),
    ensures
        record_views(s.skip(n)) == record_views(s).skip(n),
{
    assert(record_views(s.skip(n)) =~= record_views(s).skip(n));
}

/// Copies of the records of `v` from position `start` on.
pub fn copy_records_from(v: &Vec<Record>, start: usize) -> (r: Vec<Record>)
    requires
        start <= v@.len(),
    ensures
        record_views(r@) == record_views(v@.skip(start as int)),
{
    let mut out: Vec<Record> = Vec::new();
    let mut i: usize = start;
    while i < v.len()
        invariant
            start <= i <= v@.len(),
            record_views(out@) == record_views(v@.subrange(start as int, i as int)),
        decreases v@.len() - i,
    {
        let c = v[i].clone();
        proof {
            lemma_record_views_push(out@, c);
            lemma_record_views_push(v@.subrange(start as int, i as int), v@[i as int]);
            assert(v@.subrange(start as int, i as int).push(v@[i as int]) =~= v@.subrange(start as int, i + 1));
        }
        out.push(c);
        i = i + 1;
    }
    assert(v@.subrange(start as int, i as int) =~= v@.skip(start as int));
    out
}

/// Copies of the scopes of `v` from position `start` on.
pub fn copy_scopes_from(v: &Vec<Scope>, start: usize) -> (r: Vec<Scope>)
    requires
        start <= v@.len(),
    ensures
        r@ == v@.skip(start as int),
{
    let mut out: Vec<Scope> = Vec::new();
    let mut i: usize = start;
    while i < v.len()
        invariant
            start <= i <= v@.len(),
            out@ == v@.subrange(start as int, i as int),
        decreases v@.len() - i,
    {
        out.push(v[i].clone());
        i = i + 1;
        assert(out@ =~= v@.subrange(start as int, i as int));
    }
    assert(v@.subrange(start as int, i as int) =~= v@.skip(start as int));
    out
}

impl Buffer {
    /// An empty buffer.
    pub fn new() -> (b: Self)
        ensures
            b@.records == Seq::<RecordView>::empty(),
            b@.scopes == Seq::<Scope>::empty(),
    {
        let b = Buffer { records: Vec::new(), scopes: Vec::new() };
        assert(b@.records =~= Seq::<RecordView>::empty());
        b
    }

    /// An empty buffer with room reserved for `records` records and `scopes` scopes.
    pub fn with_capacity(records: usize, scopes: usize) -> (b: Self)
        ensures
            b@.records == Seq::<RecordView>::empty(),
            b@.scopes == Seq::<Scope>::empty(),
    {
        let b = Buffer { records: Vec::with_capacity(records), scopes: Vec::with_capacity(scopes) };
        assert(b@.records =~= Seq::<RecordView>::empty());
        b
    }

    /// Append a record.
    pub fn push_record(&mut self, record: Record)
        ensures
            final(self)@.records == old(self)@.records.push(record@),
            final(self)@.scopes == old(self)@.scopes,
    {
        self.records.push(record);
        assert(self@.records =~= old(self)@.records.push(record@));
    }

    /// Append a scope.
    pub fn push_scope(&mut self, scope: Scope)
        ensures
            final(self)@.records == old(self)@.records,
            final(self)@.scopes == old(self)@.scopes.push(scope),
    {
        self.scopes.push(scope);
    }

    /// The record at position `idx`.
    pub fn get_record(&self, idx: usize) -> (r: Option<Record>)
        ensures
            idx < self@.records.len() ==> r is Some && r.unwrap()@ == self@.records[idx as int],
            idx >= self@.records.len() ==> r is None,
    {
        if idx < self.records.len() {
            Some(self.records[idx].clone())
        } else {
            None
        }
    }

    /// The scope at position `idx`.
    pub fn get_scope(&self, idx: usize) -> (r: Option<Scope>)
        ensures
            idx < self@.scopes.len() ==> r == Some(self@.scopes[idx as int]),
            idx >= self@.scopes.len() ==> r is None,
    {
        if idx < self.scopes.len() {
            Some(self.scopes[idx].clone())
        } else {
            None
        }
    }

    fn record_position(&self, id: RecordId) -> (r: Option<usize>)
        ensures
            match r {
                Some(i) => first_pos(self@.records, record_id_is(id)) == Some(i as int),
                None => first_pos(self@.records, record_id_is(id)) is None,
            },
    {
        let mut i: usize = 0;
        while i < self.records.len()
            invariant
                i <= self.records@.len(),
                forall|j: int| 0 <= j < i ==> !record_id_is(id)(#[trigger] self@.records[j]),
            decreases self.records@.len() - i,
        {
            if self.records[i].id == id {
                proof {
                    assert(is_first(self@.records, record_id_is(id), i as int));
                    lemma_first_pos_found(self@.records, record_id_is(id), i as int);
                }
                return Some(i);
            }
            i = i + 1;
        }
        proof {
            lemma_first_pos_none(self@.records, record_id_is(id));
        }
        None
    }

    fn scope_position(&self, id: ScopeId) -> (r: Option<usize>)
        ensures
            match r {
                Some(i) => first_pos(self@.scopes, scope_id_is(id)) == Some(i as int),
                None => first_pos(self@.scopes, scope_id_is(id)) is None,
            },
    {
        let mut i: usize = 0;
        while i < self.scopes.len()
            invariant
                i <= self.scopes@.len(),
                forall|j: int| 0 <= j < i ==> !scope_id_is(id)(#[trigger] self@.scopes[j]),
            decreases self.scopes@.len() - i,
        {
            if self.scopes[i].id == id {
                proof {
                    assert(is_first(self@.scopes, scope_id_is(id), i as int));
                    lemma_first_pos_found(self@.scopes, scope_id_is(id), i as int);
                }
                return Some(i);
            }
            i = i + 1;
        }
        proof {
            lemma_first_pos_none(self@.scopes, scope_id_is(id));
        }
        None
    }

    /// The first record with id `id`.
    pub fn get_record_by_id(&self, id: RecordId) -> (r: Option<Record>)
        ensures
            match first_match(self@.records, record_id_is(id)) {
                Some(v) => r is Some && r.unwrap()@ == v,
                None => r is None,
            },
    {
        match self.record_position(id) {
            Some(i) => Some(self.records[i].clone()),
            None => None,
        }
    }

    /// The first scope with id `id`.
    pub fn get_scope_by_id(&self, id: ScopeId) -> (r: Option<Scope>)
        ensures
            r == first_match(self@.scopes, scope_id_is(id)),
    {
        match self.scope_position(id) {
            Some(i) => Some(self.scopes[i].clone()),
            None => None,
        }
    }

    /// Set per-outcome exit messages for an existing scope: each message given
    /// replaces the scope's message for that outcome, the others stay.
    ///
    /// Returns `true` if the scope existed and was updated, `false` otherwise.
    pub fn set_scope_exit_messages(&mut self, id: ScopeId, msgs: ExitMessages) -> (found: bool)
        ensures
            found == (first_pos(old(self)@.scopes, scope_id_is(id)) is Some),
            final(self)@.scopes == set_messages_in(old(self)@.scopes, id, msgs),
            final(self)@.records == old(self)@.records,
    {
        match self.scope_position(id) {
            Some(i) => {
                let mut scope = self.scopes[i].clone();
                if msgs.success.is_some() {
                    scope.exit_messages.success = msgs.success;
                }
                if msgs.failure.is_some() {
                    scope.exit_messages.failure = msgs.failure;
                }
                if msgs.aborted.is_some() {
                    scope.exit_messages.aborted = msgs.aborted;
                }
                self.scopes.set(i, scope);
                assert(self@.records =~= old(self)@.records);
                true
            },
            None => false,
        }
    }

    /// Finalize (close) a scope by setting `exited_at` if it has not been set.
    ///
    /// Returns the updated scope, or `None` if the scope does not exist or
    /// was already finalized.
    pub fn finalize_scope_exit(&mut self, id: ScopeId, exited_at_millis: u64) -> (r: Option<Scope>)
        ensures
            r == finalized_scope(old(self)@.scopes, id, exited_at_millis),
            final(self)@.scopes == finalize_in(old(self)@.scopes, id, exited_at_millis),
            final(self)@.records == old(self)@.records,
    {
        match self.scope_position(id) {
            Some(i) => {
                if self.scopes[i].exited_at.is_some() {
                    return None;
                }
                let mut scope = self.scopes[i].clone();
                scope.exited_at = Some(exited_at_millis);
                let result = scope.clone();
                self.scopes.set(i, scope);
                assert(self@.records =~= old(self)@.records);
                Some(result)
            },
            None => None,
        }
    }

    /// The number of records.
    pub fn records_len(&self) -> (n: usize)
        ensures
            n == self@.records.len(),
    {
        self.records.len()
    }

    /// The number of scopes.
    pub fn scopes_len(&self) -> (n: usize)
        ensures
            n == self@.scopes.len(),
    {
        self.scopes.len()
    }

    /// A copy of all records.
    pub fn records_snapshot(&self) -> (v: Vec<Record>)
        ensures
            record_views(v@) == self@.records,
    {
        let v = copy_records_from(&self.records, 0);
        assert(self.records@.skip(0) =~= self.records@);
        v
    }

    /// A copy of all scopes.
    pub fn scopes_snapshot(&self) -> (v: Vec<Scope>)
        ensures
            v@ == self@.scopes,
    {
        let v = copy_scopes_from(&self.scopes, 0);
        assert(self.scopes@.skip(0) =~= self.scopes@);
        v
    }

    /// Drop the oldest records, keeping at most `max`.
    pub fn trim_records(&mut self, max: usize)
        ensures
            final(self)@.records == keep_newest(old(self)@.records, max as nat),
            final(self)@.scopes == old(self)@.scopes,
    {
        let len = self.records.len();
        if len > max {
            let kept = copy_records_from(&self.records, len - max);
            self.records = kept;
            proof {
                lemma_record_views_skip(old(self).records@, (len - max) as int);
            }
            assert(self@.records =~= keep_newest(old(self)@.records, max as nat));
        }
    }

    /// Drop the oldest scopes, keeping at most `max`.
    pub fn trim_scopes(&mut self, max: usize)
        ensures
            final(self)@.scopes == keep_newest(old(self)@.scopes, max as nat),
            final(self)@.records == old(self)@.records,
    {
        let len = self.scopes.len();
        if len > max {
            let kept = copy_scopes_from(&self.scopes, len - max);
            self.scopes = kept;
            assert(self@.scopes =~= keep_newest(old(self)@.scopes, max as nat));
            assert(self@.records =~= old(self)@.records);
        }
    }

    /// Remove all records and scopes.
    pub fn clear(&mut self)
        ensures
            final(self)@.records == Seq::<RecordView>::empty(),
            final(self)@.scopes == Seq::<Scope>::empty(),
    {
        self.records.clear();
        self.scopes.clear();
        assert(self@.records =~= Seq::<RecordView>::empty());
    }
}

} // verus!
