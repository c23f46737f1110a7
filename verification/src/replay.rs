//! Replay helpers: views of the journal by scope, level and outcome, the
//! scope tree, and the slowest and failed scopes.
use crate::base::event_kind::EventKind;
use crate::base::id::ScopeId;
use crate::base::outcome::Outcome;
use crate::base::record::{Record, RecordKind, RecordKindView, RecordView};
use crate::base::scope::Scope;
use crate::journal::buffer::{lemma_record_views_push, record_views, scope_id_is};
use crate::journal::find_scope;
use crate::journal::properties::distinct_ids;
use crate::seqs::{
    filt, first_match, lemma_filt_all, lemma_filt_complete, lemma_filt_concat, lemma_filt_none, lemma_filt_sound,
    lemma_filt_take_step,
};
use crate::text::{dec, push_decimal, push_str, repeat_char};
use vstd::prelude::*;

verus! {

/// A scope with the tree of its child scopes.
#[derive(Debug)]
pub struct ScopeNode {
    pub scope: Scope,
    pub children: Vec<ScopeNode>,
}

/// A finalized scope with its outcome and duration.
#[derive(Debug)]
pub struct ScopeOutcome {
    pub scope: Scope,
    pub outcome: Outcome,
    pub duration_ns: u64,
}

impl Clone for ScopeOutcome {
    fn clone(&self) -> (r: Self)
        ensures
            r == *self,
    {
        ScopeOutcome { scope: self.scope.clone(), outcome: self.outcome, duration_ns: self.duration_ns }
    }
}

/// The record predicate "belongs to scope `id`".
pub open spec fn belongs_to(id: ScopeId) -> spec_fn(RecordView) -> bool {
    |r: RecordView| r.scope == Some(id)
}

/// The record predicate "is an event of kind `level`".
pub open spec fn is_event_of(level: EventKind) -> spec_fn(RecordView) -> bool {
    |r: RecordView| r.kind matches RecordKindView::Event { kind, .. } && kind == level
}

/// The records that belong to scope `scope_id`, in order.
pub fn records_for_scope(records: &[Record], scope_id: ScopeId) -> (r: Vec<Record>)
    ensures
        record_views(r@) == filt(record_views(records@), belongs_to(scope_id)),
{
    let ghost views = record_views(records@);
    let mut out: Vec<Record> = Vec::new();
    let mut i: usize = 0;
    while i < records.len()
        invariant
            i <= records@.len(),
            views == record_views(records@),
            record_views(out@) == filt(views.take(i as int), belongs_to(scope_id)),
        decreases records@.len() - i,
    {
        proof {
            lemma_filt_take_step(views, belongs_to(scope_id), i as int);
        }
        if records[i].scope == Some(scope_id) {
            let c = records[i].clone();
            proof {
                lemma_record_views_push(out@, c);
            }
            out.push(c);
        }
        i = i + 1;
    }
    assert(views.take(i as int) =~= views);
    out
}

/// The event records of kind `level`, in order.
pub fn records_at_level(records: &[Record], level: EventKind) -> (r: Vec<Record>)
    ensures
        record_views(r@) == filt(record_views(records@), is_event_of(level)),
{
    let ghost views = record_views(records@);
    let mut out: Vec<Record> = Vec::new();
    let mut i: usize = 0;
    while i < records.len()
        invariant
            i <= records@.len(),
            views == record_views(records@),
            record_views(out@) == filt(views.take(i as int), is_event_of(level)),
        decreases records@.len() - i,
    {
        proof {
            lemma_filt_take_step(views, is_event_of(level), i as int);
        }
        let matches = match &records[i].kind {
            RecordKind::Event { kind, .. } => *kind == level,
            RecordKind::ScopeExit { .. } => false,
        };
        if matches {
            let c = records[i].clone();
            proof {
                lemma_record_views_push(out@, c);
            }
            out.push(c);
        }
        i = i + 1;
    }
    assert(views.take(i as int) =~= views);
    out
}

/// The outcome summary a record gives: an exit record of a scope that is
/// in `scopes` (the first with its id) gives that scope, the outcome and
/// the duration.
pub open spec fn outcome_of(r: RecordView, scopes: Seq<Scope>) -> Option<ScopeOutcome> {
    match r.kind {
        RecordKindView::ScopeExit { outcome, duration_ns } => match r.scope {
            Some(id) => match first_match(scopes, scope_id_is(id)) {
                Some(s) => Some(ScopeOutcome { scope: s, outcome, duration_ns }),
                None => None,
            },
            None => None,
        },
        RecordKindView::Event { .. } => None,
    }
}

/// The outcome summaries of the records, in record order.
pub open spec fn outcomes(s: Seq<RecordView>, scopes: Seq<Scope>) -> Seq<ScopeOutcome>
    decreases s.len(),
{
    if s.len() == 0 {
        Seq::empty()
    } else {
        match outcome_of(s.last(), scopes) {
            Some(o) => outcomes(s.drop_last(), scopes).push(o),
            None => outcomes(s.drop_last(), scopes),
        }
    }
}

/// The outcome summary of each scope-exit record whose scope is known, in
/// record order.
pub fn scope_outcomes(records: &[Record], scopes: &[Scope]) -> (r: Vec<ScopeOutcome>)
    ensures
        r@ == outcomes(record_views(records@), scopes@),
{
    let ghost views = record_views(records@);
    let scope_vec = slice_to_vec(scopes);
    let mut out: Vec<ScopeOutcome> = Vec::new();
    let mut i: usize = 0;
    while i < records.len()
        invariant
            i <= records@.len(),
            views == record_views(records@),
            scope_vec@ == scopes@,
            out@ == outcomes(views.take(i as int), scopes@),
        decreases records@.len() - i,
    {
        proof {
            assert(views.take(i + 1).drop_last() =~= views.take(i as int));
            assert(views.take(i + 1).last() == records@[i as int]@);
        }
        let record = &records[i];
        match &record.kind {
            RecordKind::ScopeExit { outcome, duration_ns } => match record.scope {
                Some(id) => match find_scope(&scope_vec, id) {
                    Some(s) => {
                        out.push(ScopeOutcome { scope: s.clone(), outcome: *outcome, duration_ns: *duration_ns });
                    },
                    None => {},
                },
                None => {},
            },
            RecordKind::Event { .. } => {},
        }
        i = i + 1;
    }
    assert(views.take(i as int) =~= views);
    out
}

/// Copies of the scopes of a slice.
pub fn slice_to_vec(scopes: &[Scope]) -> (v: Vec<Scope>)
    ensures
        v@ == scopes@,
{
    let mut v: Vec<Scope> = Vec::new();
    let mut i: usize = 0;
    while i < scopes.len()
        invariant
            i <= scopes@.len(),
            v@ == scopes@.take(i as int),
        decreases scopes@.len() - i,
    {
        v.push(scopes[i].clone());
        i = i + 1;
        assert(v@ =~= scopes@.take(i as int));
    }
    assert(scopes@.take(i as int) =~= scopes@);
    v
}

/// The summary predicate "failed".
pub open spec fn is_failure() -> spec_fn(ScopeOutcome) -> bool {
    |o: ScopeOutcome| o.outcome == Outcome::Failure
}

/// The summaries of the scopes that failed, in record order.
pub fn failed_scopes(records: &[Record], scopes: &[Scope]) -> (r: Vec<ScopeOutcome>)
    ensures
        r@ == filt(outcomes(record_views(records@), scopes@), is_failure()),
{
    let all = scope_outcomes(records, scopes);
    let mut out: Vec<ScopeOutcome> = Vec::new();
    let mut i: usize = 0;
    while i < all.len()
        invariant
            i <= all@.len(),
            out@ == filt(all@.take(i as int), is_failure()),
        decreases all@.len() - i,
    {
        proof {
            lemma_filt_take_step(all@, is_failure(), i as int);
        }
        if all[i].outcome == Outcome::Failure {
            out.push(all[i].clone());
        }
        i = i + 1;
    }
    assert(all@.take(i as int) =~= all@);
    out
}

/// The position at or after `i` where `e` goes in `s` sorted by decreasing
/// duration: before the first summary that is strictly shorter.
pub open spec fn slower_pos(s: Seq<ScopeOutcome>, e: ScopeOutcome, i: int) -> int
    decreases s.len() - i,
{
    if i >= s.len() || i < 0 {
        s.len() as int
    } else if s[i].duration_ns < e.duration_ns {
        i
    } else {
        slower_pos(s, e, i + 1)
    }
}

/// Summaries stably sorted by decreasing duration: each inserted in turn
/// after the earlier ones that are at least as long.
pub open spec fn sort_slowest(s: Seq<ScopeOutcome>) -> Seq<ScopeOutcome>
    decreases s.len(),
{
    if s.len() == 0 {
        s
    } else {
        let sorted = sort_slowest(s.drop_last());
        sorted.insert(slower_pos(sorted, s.last(), 0), s.last())
    }
}

/// Durations never increase along `s`.
pub open spec fn slowest_first(s: Seq<ScopeOutcome>) -> bool {
    forall|i: int, j: int| 0 <= i < j < s.len() ==> s[i].duration_ns >= s[j].duration_ns
}

proof fn lemma_slower_pos_props(s: Seq<ScopeOutcome>, e: ScopeOutcome, i: int)
    requires
        0 <= i <= s.len(),
    ensures
        i <= slower_pos(s, e, i) <= s.len(),
        forall|k: int| i <= k < slower_pos(s, e, i) ==> s[k].duration_ns >= e.duration_ns,
        slower_pos(s, e, i) < s.len() ==> s[slower_pos(s, e, i)].duration_ns < e.duration_ns,
    decreases s.len() - i,
{
    if i < s.len() && s[i].duration_ns >= e.duration_ns {
        lemma_slower_pos_props(s, e, i + 1);
    }
}

/// The summaries sorted for `slowest_scopes` are the same summaries,
/// slowest first.
pub proof fn lemma_sort_slowest(s: Seq<ScopeOutcome>)
    ensures
        sort_slowest(s).len() == s.len(),
        sort_slowest(s).to_multiset() =~= s.to_multiset(),
        slowest_first(sort_slowest(s)),
    decreases s.len(),
{
    if s.len() > 0 {
        let rest = s.drop_last();
        let e = s.last();
        lemma_sort_slowest(rest);
        let sorted = sort_slowest(rest);
        let p = slower_pos(sorted, e, 0);
        lemma_slower_pos_props(sorted, e, 0);
        let out = sorted.insert(p, e);
        assert(out == sort_slowest(s));
        assert(s =~= rest.push(e));
        vstd::seq_lib::to_multiset_build(rest, e);
        vstd::seq_lib::to_multiset_insert(sorted, p, e);
        vstd::seq_lib::to_multiset_len(sorted);
        vstd::seq_lib::to_multiset_len(rest);
        assert forall|i: int, j: int| 0 <= i < j < out.len() implies out[i].duration_ns >= out[j].duration_ns by {
            if i == p {
                // Everything after the insertion point is shorter than `e`.
                assert(sorted[p].duration_ns < e.duration_ns);
                assert(sorted[p].duration_ns >= sorted[j - 1].duration_ns || p == j - 1);
            }
        }
    }
}

/// The summary predicate "lasted `d` nanoseconds".
pub open spec fn lasted(d: u64) -> spec_fn(ScopeOutcome) -> bool {
    |o: ScopeOutcome| o.duration_ns == d
}

/// The sort for `slowest_scopes` is stable: the summaries of any one
/// duration come out in the order they went in.
pub proof fn lemma_sort_slowest_stable(s: Seq<ScopeOutcome>, d: u64)
    ensures
        filt(sort_slowest(s), lasted(d)) == filt(s, lasted(d)),
    decreases s.len(),
{
    if s.len() > 0 {
        let rest = s.drop_last();
        let e = s.last();
        lemma_sort_slowest_stable(rest, d);
        lemma_sort_slowest(rest);
        let sorted = sort_slowest(rest);
        let p = slower_pos(sorted, e, 0);
        lemma_slower_pos_props(sorted, e, 0);
        let head = sorted.take(p);
        let tail = sorted.skip(p);
        assert(sorted.insert(p, e) =~= head + (seq![e] + tail));
        lemma_filt_concat(head, seq![e] + tail, lasted(d));
        lemma_filt_concat(seq![e], tail, lasted(d));
        assert(sorted =~= head + tail);
        lemma_filt_concat(head, tail, lasted(d));
        let one = seq![e];
        assert(one.drop_last() =~= Seq::<ScopeOutcome>::empty());
        assert(filt(one.drop_last(), lasted(d)) == Seq::<ScopeOutcome>::empty());
        assert(one.last() == e);
        if e.duration_ns == d {
            assert forall|k: int| 0 <= k < tail.len() implies !lasted(d)(#[trigger] tail[k]) by {
                assert(tail[k] == sorted[p + k]);
                if p + k > p {
                    assert(sorted[p].duration_ns >= sorted[p + k].duration_ns);
                }
            }
            lemma_filt_none(tail, lasted(d));
            assert(filt(one, lasted(d)) =~= seq![e]);
            assert(filt(sorted, lasted(d)) =~= filt(head, lasted(d)));
            assert(filt(sorted.insert(p, e), lasted(d)) =~= filt(sorted, lasted(d)).push(e));
        } else {
            assert(filt(one, lasted(d)) =~= Seq::<ScopeOutcome>::empty());
            assert(filt(sorted.insert(p, e), lasted(d)) =~= filt(sorted, lasted(d)));
        }
    }
}

/// The first `limit` elements of `s`, or all of them.
pub open spec fn take_at_most<A>(s: Seq<A>, limit: nat) -> Seq<A> {
    if s.len() > limit {
        s.take(limit as int)
    } else {
        s
    }
}

/// The `limit` slowest scope summaries, slowest first; summaries of equal
/// duration keep their record order.
pub fn slowest_scopes(records: &[Record], scopes: &[Scope], limit: usize) -> (r: Vec<ScopeOutcome>)
    ensures
        r@ == take_at_most(sort_slowest(outcomes(record_views(records@), scopes@)), limit as nat),
{
    let all = scope_outcomes(records, scopes);
    let mut sorted: Vec<ScopeOutcome> = Vec::new();
    let mut i: usize = 0;
    while i < all.len()
        invariant
            i <= all@.len(),
            sorted@ == sort_slowest(all@.take(i as int)),
        decreases all@.len() - i,
    {
        let e = all[i].clone();
        let mut k: usize = 0;
        while k < sorted.len() && sorted[k].duration_ns >= e.duration_ns
            invariant
                k <= sorted@.len(),
                slower_pos(sorted@, e, 0) == slower_pos(sorted@, e, k as int),
            decreases sorted@.len() - k,
        {
            k = k + 1;
        }
        proof {
            lemma_slower_pos_props(sorted@, e, k as int);
            assert(all@.take(i + 1).drop_last() =~= all@.take(i as int));
            assert(all@.take(i + 1).last() == e);
        }
        sorted.insert(k, e);
        i = i + 1;
    }
    assert(all@.take(i as int) =~= all@);
    if sorted.len() > limit {
        sorted.truncate(limit);
    }
    sorted
}

/// `failed_scopes` gives only summaries of failed scopes, each one of the
/// summaries `scope_outcomes` gives.
pub proof fn lemma_failed_are_failures(records: Seq<RecordView>, scopes: Seq<Scope>)
    ensures
        ({
            let all = outcomes(records, scopes);
            let failed = filt(all, is_failure());
            forall|k: int| 0 <= k < failed.len() ==> #[trigger] failed[k].outcome == Outcome::Failure && all.contains(
                failed[k],
            )
        }),
{
    lemma_filt_sound(outcomes(records, scopes), is_failure());
}

/// `slowest_scopes` gives `limit` summaries, or all when there are fewer,
/// slowest first, each one of the summaries `scope_outcomes` gives.
pub proof fn lemma_slowest_scopes(records: Seq<RecordView>, scopes: Seq<Scope>, limit: nat)
    ensures
        ({
            let all = outcomes(records, scopes);
            let r = take_at_most(sort_slowest(all), limit);
            &&& r.len() == if all.len() > limit { limit } else { all.len() }
            &&& slowest_first(r)
            &&& forall|k: int| 0 <= k < r.len() ==> all.contains(#[trigger] r[k])
        }),
{
    let all = outcomes(records, scopes);
    let sorted = sort_slowest(all);
    lemma_sort_slowest(all);
    let r = take_at_most(sorted, limit);
    assert forall|k: int| 0 <= k < r.len() implies all.contains(#[trigger] r[k]) by {
        assert(r[k] == sorted[k]);
        vstd::seq_lib::to_multiset_contains(sorted, sorted[k]);
        assert(sorted.contains(sorted[k]));
        assert(all.to_multiset().count(sorted[k]) > 0);
        vstd::seq_lib::to_multiset_contains(all, sorted[k]);
    }
}

/// The scope predicate "is a child of scope `id`".
pub open spec fn child_of(id: ScopeId) -> spec_fn(Scope) -> bool {
    |s: Scope| s.parent == Some(id)
}

/// The scope predicate "has no parent".
pub open spec fn is_root() -> spec_fn(Scope) -> bool {
    |s: Scope| s.parent is None
}

/// `n` is the tree of scope `s` in `scopes`, built `fuel` levels deep: its
/// children are the scopes whose parent is `s`, in order, each with its own
/// tree one level less deep; at depth zero the children are left out.
pub open spec fn node_built(n: ScopeNode, scopes: Seq<Scope>, s: Scope, fuel: nat) -> bool
    decreases fuel,
{
    &&& n.scope == s
    &&& if fuel == 0 {
        n.children@.len() == 0
    } else {
        &&& n.children@.len() == filt(scopes, child_of(s.id)).len()
        &&& forall|i: int|
            0 <= i < n.children@.len() ==> node_built(
                #[trigger] n.children@[i],
                scopes,
                filt(scopes, child_of(s.id))[i],
                (fuel - 1) as nat,
            )
    }
}

/// `forest` holds the trees of `tops`, in order, built `fuel` levels deep.
pub open spec fn forest_built(forest: Seq<ScopeNode>, scopes: Seq<Scope>, tops: Seq<Scope>, fuel: nat) -> bool {
    &&& forest.len() == tops.len()
    &&& forall|i: int| 0 <= i < forest.len() ==> node_built(#[trigger] forest[i], scopes, tops[i], fuel)
}

fn children_exec(scopes: &[Scope], id: ScopeId) -> (r: Vec<Scope>)
    ensures
        r@ == filt(scopes@, child_of(id)),
{
    let mut out: Vec<Scope> = Vec::new();
    let mut i: usize = 0;
    while i < scopes.len()
        invariant
            i <= scopes@.len(),
            out@ == filt(scopes@.take(i as int), child_of(id)),
        decreases scopes@.len() - i,
    {
        proof {
            lemma_filt_take_step(scopes@, child_of(id), i as int);
        }
        if scopes[i].parent == Some(id) {
            out.push(scopes[i].clone());
        }
        i = i + 1;
    }
    assert(scopes@.take(i as int) =~= scopes@);
    out
}

fn roots_exec(scopes: &[Scope]) -> (r: Vec<Scope>)
    ensures
        r@ == filt(scopes@, is_root()),
{
    let mut out: Vec<Scope> = Vec::new();
    let mut i: usize = 0;
    while i < scopes.len()
        invariant
            i <= scopes@.len(),
            out@ == filt(scopes@.take(i as int), is_root()),
        decreases scopes@.len() - i,
    {
        proof {
            lemma_filt_take_step(scopes@, is_root(), i as int);
        }
        if scopes[i].parent.is_none() {
            out.push(scopes[i].clone());
        }
        i = i + 1;
    }
    assert(scopes@.take(i as int) =~= scopes@);
    out
}

fn build_node(scope: &Scope, scopes: &[Scope], fuel: usize) -> (n: ScopeNode)
    ensures
        node_built(n, scopes@, *scope, fuel as nat),
    decreases fuel,
{
    if fuel == 0 {
        return ScopeNode { scope: scope.clone(), children: Vec::new() };
    }
    let kids = children_exec(scopes, scope.id);
    let mut children: Vec<ScopeNode> = Vec::new();
    let mut i: usize = 0;
    while i < kids.len()
        invariant
            fuel > 0,
            i <= kids@.len(),
            kids@ == filt(scopes@, child_of(scope.id)),
            children@.len() == i,
            forall|k: int|
                0 <= k < i ==> node_built(#[trigger] children@[k], scopes@, kids@[k], (fuel - 1) as nat),
        decreases kids@.len() - i,
    {
        let child = build_node(&kids[i], scopes, fuel - 1);
        children.push(child);
        i = i + 1;
    }
    ScopeNode { scope: scope.clone(), children }
}

/// The scope forest: a tree for each scope without a parent, in order.
/// Trees are built as deep as there are scopes, which, with distinct ids,
/// is deeper than any chain of parents.
pub fn scope_tree(scopes: &[Scope]) -> (forest: Vec<ScopeNode>)
    ensures
        forest_built(forest@, scopes@, filt(scopes@, is_root()), scopes@.len()),
{
    let tops = roots_exec(scopes);
    let fuel = scopes.len();
    let mut forest: Vec<ScopeNode> = Vec::new();
    let mut i: usize = 0;
    while i < tops.len()
        invariant
            i <= tops@.len(),
            fuel == scopes@.len(),
            tops@ == filt(scopes@, is_root()),
            forest@.len() == i,
            forall|k: int| 0 <= k < i ==> node_built(#[trigger] forest@[k], scopes@, tops@[k], fuel as nat),
        decreases tops@.len() - i,
    {
        let node = build_node(&tops[i], scopes, fuel);
        forest.push(node);
        i = i + 1;
    }
    forest
}

/// `c` is a chain of scopes from a root down through children.
pub open spec fn is_chain(scopes: Seq<Scope>, c: Seq<Scope>) -> bool {
    &&& c.len() >= 1
    &&& c[0].parent is None
    &&& forall|i: int| 0 <= i < c.len() ==> scopes.contains(#[trigger] c[i])
    &&& forall|i: int| 1 <= i < c.len() ==> (#[trigger] c[i]).parent == Some(c[i - 1].id)
}

/// `n` and every node under it, down to `fuel` levels, holds all the
/// children its scope has in `scopes`; at `fuel` the scope has none.
pub open spec fn node_complete(n: ScopeNode, scopes: Seq<Scope>, fuel: nat) -> bool
    decreases fuel,
{
    &&& n.children@.len() == filt(scopes, child_of(n.scope.id)).len()
    &&& fuel > 0 ==> forall|i: int|
        0 <= i < n.children@.len() ==> node_complete(#[trigger] n.children@[i], scopes, (fuel - 1) as nat)
}

proof fn lemma_same_id_same_scope(scopes: Seq<Scope>, a: Scope, b: Scope)
    requires
        distinct_ids(scopes),
        scopes.contains(a),
        scopes.contains(b),
        a.id == b.id,
    ensures
        a == b,
{
    let p = choose|p: int| 0 <= p < scopes.len() && scopes[p] == a;
    let q = choose|q: int| 0 <= q < scopes.len() && scopes[q] == b;
    if p < q {
        assert(scopes[p].id != scopes[q].id);
    } else if q < p {
        assert(scopes[q].id != scopes[p].id);
    }
}

proof fn lemma_chain_entries_differ(scopes: Seq<Scope>, c: Seq<Scope>, i: int, j: int)
    requires
        distinct_ids(scopes),
        is_chain(scopes, c),
        0 <= i < j < c.len(),
    ensures
        c[i] != c[j],
    decreases i,
{
    if c[i] == c[j] {
        if i == 0 {
            assert(c[j].parent == Some(c[j - 1].id));
        } else {
            assert(c[i].parent == Some(c[i - 1].id));
            assert(c[j].parent == Some(c[j - 1].id));
            lemma_same_id_same_scope(scopes, c[i - 1], c[j - 1]);
            lemma_chain_entries_differ(scopes, c, i - 1, j - 1);
        }
    }
}

proof fn lemma_chain_bound(scopes: Seq<Scope>, c: Seq<Scope>)
    requires
        distinct_ids(scopes),
        is_chain(scopes, c),
    ensures
        c.len() <= scopes.len(),
{
    assert forall|i: int, j: int| 0 <= i < c.len() && 0 <= j < c.len() && i != j implies c[i] != c[j] by {
        if i < j {
            lemma_chain_entries_differ(scopes, c, i, j);
        } else {
            lemma_chain_entries_differ(scopes, c, j, i);
        }
    }
    assert(c.no_duplicates());
    c.unique_seq_to_set();
    scopes.lemma_cardinality_of_set();
    vstd::seq_lib::seq_to_set_is_finite(scopes);
    assert(c.to_set().subset_of(scopes.to_set()));
    vstd::set_lib::lemma_len_subset(c.to_set(), scopes.to_set());
}

proof fn lemma_node_complete(n: ScopeNode, scopes: Seq<Scope>, c: Seq<Scope>, fuel: nat)
    requires
        distinct_ids(scopes),
        is_chain(scopes, c),
        node_built(n, scopes, c.last(), fuel),
        c.len() + fuel == scopes.len() + 1,
    ensures
        node_complete(n, scopes, fuel),
    decreases fuel,
{
    if fuel == 0 {
        lemma_chain_bound(scopes, c);
    } else {
        let kids = filt(scopes, child_of(c.last().id));
        lemma_filt_sound(scopes, child_of(c.last().id));
        assert forall|i: int| 0 <= i < n.children@.len() implies node_complete(
            #[trigger] n.children@[i],
            scopes,
            (fuel - 1) as nat,
        ) by {
            let longer = c.push(kids[i]);
            assert(child_of(c.last().id)(kids[i]));
            assert(is_chain(scopes, longer)) by {
                assert forall|k: int| 1 <= k < longer.len() implies (#[trigger] longer[k]).parent == Some(
                    longer[k - 1].id,
                ) by {
                    if k < c.len() {
                        assert(longer[k] == c[k]);
                    }
                }
            }
            lemma_node_complete(n.children@[i], scopes, longer, (fuel - 1) as nat);
        }
    }
}

/// With distinct scope ids, `scope_tree` loses no scope: every chain of
/// children from a root is shorter than the number of scopes, so each node
/// of the forest, at every depth, holds all the children its scope has.
pub proof fn lemma_scope_tree_complete(forest: Seq<ScopeNode>, scopes: Seq<Scope>)
    requires
        distinct_ids(scopes),
        forest_built(forest, scopes, filt(scopes, is_root()), scopes.len()),
    ensures
        forall|i: int| 0 <= i < forest.len() ==> node_complete(#[trigger] forest[i], scopes, scopes.len()),
{
    let roots = filt(scopes, is_root());
    lemma_filt_sound(scopes, is_root());
    assert forall|i: int| 0 <= i < forest.len() implies node_complete(#[trigger] forest[i], scopes, scopes.len()) by {
        let c = seq![roots[i]];
        assert(is_root()(roots[i]));
        assert(is_chain(scopes, c));
        lemma_node_complete(forest[i], scopes, c, scopes.len());
    }
}

/// One line of the tree text: indentation, `name#id` (`unnamed` for an
/// unnamed scope), newline.
pub open spec fn tree_line(s: Scope, depth: nat) -> Seq<char> {
    repeat_char(' ', 2 * depth) + match s.name {
        Some(n) => n@,
        None => "unnamed"@,
    } + "#"@ + dec(s.id.0 as nat) + "\n"@
}

/// The text of the tree of `s` at `depth`, built `fuel` levels deep: its
/// line, then the text of each child one level deeper.
pub open spec fn node_text(scopes: Seq<Scope>, s: Scope, depth: nat, fuel: nat) -> Seq<char>
    decreases fuel, 0nat, 0nat,
{
    tree_line(s, depth) + if fuel == 0 {
        Seq::empty()
    } else {
        forest_text(scopes, filt(scopes, child_of(s.id)), depth + 1, (fuel - 1) as nat)
    }
}

/// The texts of the trees of `tops`, in order.
pub open spec fn forest_text(scopes: Seq<Scope>, tops: Seq<Scope>, depth: nat, fuel: nat) -> Seq<char>
    decreases fuel, 1nat, tops.len(),
{
    if tops.len() == 0 {
        Seq::empty()
    } else {
        forest_text(scopes, tops.drop_last(), depth, fuel) + node_text(scopes, tops.last(), depth, fuel)
    }
}

fn push_indent(out: &mut String, depth: usize)
    ensures
        final(out)@ == old(out)@ + repeat_char(' ', 2 * depth as nat),
{
    let ghost start = out@;
    let mut k: usize = 0;
    while k < depth
        invariant
            k <= depth,
            out@ == start + repeat_char(' ', 2 * k as nat),
        decreases depth - k,
    {
        out.push(' ');
        out.push(' ');
        k = k + 1;
        assert(out@ =~= start + repeat_char(' ', 2 * k as nat));
    }
}

fn push_tree_line(out: &mut String, s: &Scope, depth: usize)
    ensures
        final(out)@ == old(out)@ + tree_line(*s, depth as nat),
{
    let ghost start = out@;
    push_indent(out, depth);
    match &s.name {
        Some(n) => push_str(out, n.as_str()),
        None => push_str(out, "unnamed"),
    }
    push_str(out, "#");
    push_decimal(out, s.id.0);
    push_str(out, "\n");
    assert(out@ =~= start + tree_line(*s, depth as nat));
}

fn push_node_text(out: &mut String, scopes: &[Scope], s: &Scope, depth: usize, fuel: usize)
    requires
        depth + fuel <= scopes@.len() <= usize::MAX,
    ensures
        final(out)@ == old(out)@ + node_text(scopes@, *s, depth as nat, fuel as nat),
    decreases fuel, 0nat, 0nat,
{
    push_tree_line(out, s, depth);
    if fuel > 0 {
        let kids = children_exec(scopes, s.id);
        push_forest_text(out, scopes, &kids, depth + 1, fuel - 1);
    } else {
        assert(out@ =~= old(out)@ + node_text(scopes@, *s, depth as nat, fuel as nat));
    }
    assert(out@ =~= old(out)@ + node_text(scopes@, *s, depth as nat, fuel as nat));
}

fn push_forest_text(out: &mut String, scopes: &[Scope], tops: &Vec<Scope>, depth: usize, fuel: usize)
    requires
        depth + fuel <= scopes@.len() <= usize::MAX,
    ensures
        final(out)@ == old(out)@ + forest_text(scopes@, tops@, depth as nat, fuel as nat),
    decreases fuel, 1nat, tops@.len(),
{
    let ghost start = out@;
    let mut i: usize = 0;
    while i < tops.len()
        invariant
            i <= tops@.len(),
            depth + fuel <= scopes@.len() <= usize::MAX,
            out@ == start + forest_text(scopes@, tops@.take(i as int), depth as nat, fuel as nat),
        decreases tops@.len() - i,
    {
        push_node_text(out, scopes, &tops[i], depth, fuel);
        proof {
            assert(tops@.take(i + 1).drop_last() =~= tops@.take(i as int));
            assert(tops@.take(i + 1).last() == tops@[i as int]);
        }
        i = i + 1;
    }
    assert(tops@.take(i as int) =~= tops@);
}

/// The scope forest as text, one scope per line, children indented two
/// spaces under their parent.
pub fn render_scope_tree(scopes: &[Scope]) -> (s: String)
    ensures
        s@ == forest_text(scopes@, filt(scopes@, is_root()), 0, scopes@.len()),
{
    let tops = roots_exec(scopes);
    let mut out = String::new();
    push_forest_text(&mut out, scopes, &tops, 0, scopes.len());
    assert(out@ =~= forest_text(scopes@, filt(scopes@, is_root()), 0, scopes@.len()));
    out
}


/// The records at a level are exactly the events of that kind: every record
/// kept is an event whose kind is `level`, every such event of `records` is
/// kept, nothing else is, and when all records are such events they are all
/// kept, in order.
pub proof fn lemma_records_at_level_exact(records: Seq<RecordView>, level: EventKind)
    ensures
        forall|k: int|
            0 <= k < filt(records, is_event_of(level)).len() ==> ((#[trigger] filt(records, is_event_of(level))[k]).kind
                matches RecordKindView::Event { kind, .. } && kind == level),
        forall|j: int|
            0 <= j < records.len() && (records[j].kind matches RecordKindView::Event { kind, .. } && kind == level)
                ==> filt(records, is_event_of(level)).contains(#[trigger] records[j]),
        forall|j: int|
            0 <= j < records.len() && !(records[j].kind matches RecordKindView::Event { kind, .. } && kind == level)
                ==> !filt(records, is_event_of(level)).contains(#[trigger] records[j]),
        (forall|j: int|
            0 <= j < records.len() ==> ((#[trigger] records[j]).kind matches RecordKindView::Event { kind, .. } && kind
                == level)) ==> filt(records, is_event_of(level)) == records,
{
    let p = is_event_of(level);
    lemma_filt_sound(records, p);
    assert forall|j: int|
        0 <= j < records.len() && (records[j].kind matches RecordKindView::Event { kind, .. } && kind == level)
            implies filt(records, p).contains(#[trigger] records[j]) by {
        lemma_filt_complete(records, p, j);
    }
    assert forall|j: int|
        0 <= j < records.len() && !(records[j].kind matches RecordKindView::Event { kind, .. } && kind == level)
            implies !filt(records, p).contains(#[trigger] records[j]) by {
        if filt(records, p).contains(records[j]) {
            let k = choose|k: int| 0 <= k < filt(records, p).len() && filt(records, p)[k] == records[j];
            assert(p(filt(records, p)[k]));
        }
    }
    if forall|j: int|
        0 <= j < records.len() ==> ((#[trigger] records[j]).kind matches RecordKindView::Event { kind, .. } && kind
            == level) {
        lemma_filt_all(records, p);
    }
}

} // verus!
