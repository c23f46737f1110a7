//! The journal as a tree of scope headers with their events, and as a
//! session summary, both as lines of text in the canonical format.
use crate::base::id::ScopeId;
use crate::base::outcome::Outcome;
use crate::base::record::{Record, RecordKind, RecordKindView, RecordView};
use crate::base::scope::Scope;
use crate::journal::buffer::record_views;
use crate::journal::filter::{
    duration_ms_in, duration_ms_of_scope, event_matches, outcome_in, outcome_of_scope, scope_matches, EventFilter,
    Filter, ScopeFilter,
};
use crate::journal::utils::{is_local_stamp, millis_to_local};
use crate::journal::Journal;
use crate::render::canonical::{
    bullet_for, event_line_parts, header_text, outcome_label, outcome_name, platform_bullet, render_event, scope_header,
    RenderConfig,
};
use crate::seqs::{filt, lemma_filt_take_step};
use crate::text::{dec, push_decimal, push_str, push_zero_padded, zero_pad};
use vstd::prelude::*;

verus! {

/// The views of a sequence of strings.
pub open spec fn string_views(s: Seq<String>) -> Seq<Seq<char>> {
    s.map_values(|l: String| l@)
}

/// The scope filter of an optional filter; no filter matches everything.
pub open spec fn scope_filter_of(f: Option<&Filter>) -> ScopeFilter {
    match f {
        Some(g) => g.scope_filter,
        None => ScopeFilter::Any,
    }
}

/// The event filter of an optional filter; no filter matches everything.
pub open spec fn event_filter_of(f: Option<&Filter>) -> EventFilter {
    match f {
        Some(g) => g.event_filter,
        None => EventFilter::Any,
    }
}

/// The scope predicate "passes `f`", given the journal's records and scopes.
pub open spec fn passes_scope_filter(
    f: ScopeFilter,
    records: Seq<RecordView>,
    scopes: Seq<Scope>,
) -> spec_fn(Scope) -> bool {
    |s: Scope| scope_matches(f, s, records, scopes)
}

/// The scopes that pass `f`, in the order they were entered.
pub open spec fn matched_scopes(f: ScopeFilter, records: Seq<RecordView>, scopes: Seq<Scope>) -> Seq<Scope> {
    filt(scopes, passes_scope_filter(f, records, scopes))
}

/// The line of an event record one level deep, after `bullet`; nothing for
/// a scope exit.
pub open spec fn tree_event_line(r: RecordView, bullet: Seq<char>) -> Seq<char> {
    match r.kind {
        RecordKindView::Event { kind, name, .. } => event_line_parts(bullet, 2, kind, name@),
        RecordKindView::ScopeExit { .. } => Seq::empty(),
    }
}

/// The event lines under scope `id`: its events that pass `f`, in order.
pub open spec fn scope_event_lines(rs: Seq<RecordView>, id: ScopeId, f: EventFilter, bullet: Seq<char>) -> Seq<
    Seq<char>,
>
    decreases rs.len(),
{
    if rs.len() == 0 {
        Seq::empty()
    } else {
        let prev = scope_event_lines(rs.drop_last(), id, f, bullet);
        let r = rs.last();
        if r.scope == Some(id) && event_matches(f, r) {
            prev.push(tree_event_line(r, bullet))
        } else {
            prev
        }
    }
}

/// The header of `s` with the timestamp `t`.
pub open spec fn tree_header(records: Seq<RecordView>, s: Scope, t: Seq<char>) -> Seq<char> {
    header_text(s.name, s.id, outcome_in(records, s.id), duration_ms_in(records, s.id), Some(t))
}

/// The tree lines: for each scope, its header (with the local timestamp
/// `tss[i]`) and then its event lines.
pub open spec fn tree_lines(
    records: Seq<RecordView>,
    matched: Seq<Scope>,
    f: EventFilter,
    tss: Seq<Seq<char>>,
    bullet: Seq<char>,
) -> Seq<Seq<char>>
    decreases matched.len(),
{
    if matched.len() == 0 {
        Seq::empty()
    } else {
        let k = matched.len() - 1;
        tree_lines(records, matched.drop_last(), f, tss.take(k), bullet) + seq![tree_header(records, matched[k], tss[k])]
            + scope_event_lines(records, matched[k].id, f, bullet)
    }
}

fn push_scope_events(
    lines: &mut Vec<String>,
    records: &Vec<Record>,
    id: ScopeId,
    f: &Filter,
    config: &RenderConfig,
)
    requires
        config.indent_size == 2,
    ensures
        string_views(final(lines)@) == string_views(old(lines)@) + scope_event_lines(
            record_views(records@),
            id,
            f.event_filter,
            config.bullet@,
        ),
{
    let ghost views = record_views(records@);
    let ghost start = string_views(lines@);
    let mut j: usize = 0;
    while j < records.len()
        invariant
            j <= records@.len(),
            views == record_views(records@),
                config.indent_size == 2,
            string_views(lines@) == start + scope_event_lines(views.take(j as int), id, f.event_filter, config.bullet@),
        decreases records@.len() - j,
    {
        proof {
            assert(views.take(j + 1).drop_last() =~= views.take(j as int));
            assert(views.take(j + 1).last() == records@[j as int]@);
        }
        let r = &records[j];
        if r.scope == Some(id) && f.matches_event(r) {
            match render_event(r, config, 1) {
                Some(ev) => {
                    let ghost prev = lines@;
                    proof {
                        assert(ev.main@ == tree_event_line(r@, config.bullet@));
                    }
                    lines.push(ev.main);
                    assert(string_views(lines@) =~= string_views(prev).push(tree_event_line(r@, config.bullet@)));
                    assert(string_views(lines@) =~= start + scope_event_lines(
                        views.take(j + 1),
                        id,
                        f.event_filter,
                        config.bullet@,
                    ));
                },
                None => {
                    assert(false);
                },
            }
        } else {
            assert(string_views(lines@) =~= start + scope_event_lines(views.take(j + 1), id, f.event_filter, config.bullet@));
        }
        j = j + 1;
    }
    assert(views.take(j as int) =~= views);
}

/// The journal as a tree: the header of each scope that passes the scope
/// filter, each followed by its events that pass the event filter, one
/// level deep. Headers begin with the scope's start in local time, as the
/// machine's time zone gives it. Without a filter, everything passes.
pub fn journal_tree_lines(journal: &Journal, color: bool, filter: Option<&Filter>, windows: bool) -> (lines: Vec<
    String,
>)
    ensures
        exists|tss: Seq<Seq<char>>|
            local_starts(matched_scopes(scope_filter_of(filter), journal@.records, journal@.scopes), tss)
                && string_views(lines@) == tree_lines(
                journal@.records,
                matched_scopes(scope_filter_of(filter), journal@.records, journal@.scopes),
                event_filter_of(filter),
                tss,
                platform_bullet(windows),
            ),
{
    let default_filter = Filter::any();
    let f = match filter {
        Some(g) => g,
        None => &default_filter,
    };
    let mut config = RenderConfig::for_platform(windows);
    config.color = color;
    let records = journal.records();
    let scopes = journal.scopes();
    let ghost views = record_views(records@);
    let ghost pred = passes_scope_filter(f.scope_filter, views, scopes@);
    let ghost mut tss: Seq<Seq<char>> = Seq::empty();
    let mut lines: Vec<String> = Vec::new();
    let mut i: usize = 0;
    while i < scopes.len()
        invariant
            i <= scopes@.len(),
            views == record_views(records@),
            views == journal@.records,
            scopes@ == journal@.scopes,
            pred == passes_scope_filter(f.scope_filter, views, scopes@),
            f.scope_filter == scope_filter_of(filter),
            f.event_filter == event_filter_of(filter),
            config.bullet@ == platform_bullet(windows),
            config.indent_size == 2,
            local_starts(filt(scopes@.take(i as int), pred), tss),
            string_views(lines@) == tree_lines(views, filt(scopes@.take(i as int), pred), f.event_filter, tss, platform_bullet(windows)),
        decreases scopes@.len() - i,
    {
        proof {
            lemma_filt_take_step(scopes@, pred, i as int);
        }
        let s = &scopes[i];
        if f.scope_filter.matches_in(s, &records, &scopes) {
            let ts = millis_to_local(s.entered_at);
            let outcome = outcome_of_scope(&records, s.id);
            let duration_ms = duration_ms_of_scope(&records, s.id);
            let h = scope_header(s, outcome, duration_ms, Some(ts.as_str()));
            let ghost before = filt(scopes@.take(i as int), pred);
            let ghost old_tss = tss;
            let ghost prev = lines@;
            proof {
                tss = tss.push(ts@);
                assert(tss.take(before.len() as int) =~= old_tss);
                assert(h.header@ == tree_header(views, *s, ts@));
            }
            lines.push(h.header);
            assert(string_views(lines@) =~= string_views(prev).push(tree_header(views, *s, ts@)));
            push_scope_events(&mut lines, &records, s.id, f, &config);
            proof {
                let after = before.push(*s);
                assert(after.drop_last() =~= before);
                assert(after[after.len() - 1] == *s);
                assert(tss[tss.len() - 1] == ts@);
                assert(local_starts(after, tss)) by {
                    assert forall|k: int| #![trigger tss[k]] 0 <= k < after.len() implies is_local_stamp(
                        after[k].entered_at,
                        tss[k],
                    ) by {
                        if k < before.len() {
                            assert(tss[k] == old_tss[k]);
                            assert(after[k] == before[k]);
                        }
                    }
                }
                assert(string_views(lines@) =~= tree_lines(views, after, f.event_filter, tss, platform_bullet(windows)));
            }
        }
        i = i + 1;
    }
    assert(scopes@.take(i as int) =~= scopes@);
    assert(string_views(lines@) == tree_lines(
        journal@.records,
        matched_scopes(scope_filter_of(filter), journal@.records, journal@.scopes),
        event_filter_of(filter),
        tss,
        platform_bullet(windows),
    ));
    lines
}

/// `tss[i]` is the local start time of `scopes[i]`, for each scope.
pub open spec fn local_starts(scopes: Seq<Scope>, tss: Seq<Seq<char>>) -> bool {
    &&& tss.len() == scopes.len()
    &&& forall|i: int| #![trigger tss[i]] 0 <= i < scopes.len() ==> is_local_stamp(scopes[i].entered_at, tss[i])
}

/// The record predicate "is an event that passes `f`".
pub open spec fn passes_event_filter(f: EventFilter) -> spec_fn(RecordView) -> bool {
    |r: RecordView| event_matches(f, r)
}

/// The scope predicate "ended with outcome `o`".
pub open spec fn has_outcome(records: Seq<RecordView>, o: Outcome) -> spec_fn(Scope) -> bool {
    |s: Scope| outcome_in(records, s.id) == o
}

/// `a + b`, or `u64::MAX` when that does not fit.
pub open spec fn sat_add(a: u64, b: u64) -> u64 {
    if a + b > u64::MAX {
        u64::MAX
    } else {
        (a + b) as u64
    }
}

/// The durations of the scopes in milliseconds, summed; the total stops at
/// `u64::MAX`.
pub open spec fn total_duration_ms(records: Seq<RecordView>, ss: Seq<Scope>) -> u64
    decreases ss.len(),
{
    if ss.len() == 0 {
        0
    } else {
        sat_add(total_duration_ms(records, ss.drop_last()), duration_ms_in(records, ss.last().id))
    }
}

/// The counting lines of the summary.
pub open spec fn summary_head(records: Seq<RecordView>, m: Seq<Scope>, n_events: nat) -> Seq<Seq<char>> {
    seq![
        "Session summary: "@ + dec(m.len()) + " scopes, "@ + dec(n_events) + " events"@,
        "  Successful scopes: "@ + dec(filt(m, has_outcome(records, Outcome::Success)).len()),
        "  Failed scopes: "@ + dec(filt(m, has_outcome(records, Outcome::Failure)).len()),
        "  Aborted scopes: "@ + dec(filt(m, has_outcome(records, Outcome::Aborted)).len()),
        "  Total duration: "@ + dec(total_duration_ms(records, m) as nat) + "ms"@,
    ]
}

/// The per-scope lines: each scope's header, indented, with the local
/// timestamp `tss[i]`.
pub open spec fn header_lines(records: Seq<RecordView>, m: Seq<Scope>, tss: Seq<Seq<char>>) -> Seq<Seq<char>> {
    Seq::new(m.len(), |i: int| "  "@ + tree_header(records, m[i], tss[i]))
}

/// The summary of the scopes that pass `sf` and the events that pass `ef`.
pub open spec fn summary_text(
    records: Seq<RecordView>,
    scopes: Seq<Scope>,
    sf: ScopeFilter,
    ef: EventFilter,
    per_scope: bool,
    tss: Seq<Seq<char>>,
) -> Seq<Seq<char>> {
    let m = matched_scopes(sf, records, scopes);
    let head = summary_head(records, m, filt(records, passes_event_filter(ef)).len());
    if per_scope {
        head + seq!["\nPer-scope summary:"@] + header_lines(records, m, tss)
    } else {
        head
    }
}

fn matched_scope_list(f: &ScopeFilter, records: &Vec<Record>, scopes: &Vec<Scope>) -> (m: Vec<Scope>)
    ensures
        m@ == matched_scopes(*f, record_views(records@), scopes@),
{
    let ghost pred = passes_scope_filter(*f, record_views(records@), scopes@);
    let mut m: Vec<Scope> = Vec::new();
    let mut i: usize = 0;
    while i < scopes.len()
        invariant
            i <= scopes@.len(),
            pred == passes_scope_filter(*f, record_views(records@), scopes@),
            m@ == filt(scopes@.take(i as int), pred),
        decreases scopes@.len() - i,
    {
        proof {
            lemma_filt_take_step(scopes@, pred, i as int);
        }
        if f.matches_in(&scopes[i], records, scopes) {
            m.push(scopes[i].clone());
        }
        i = i + 1;
    }
    assert(scopes@.take(i as int) =~= scopes@);
    m
}

fn count_events(records: &Vec<Record>, f: &EventFilter) -> (n: usize)
    ensures
        n == filt(record_views(records@), passes_event_filter(*f)).len(),
{
    let ghost views = record_views(records@);
    let mut n: usize = 0;
    let mut i: usize = 0;
    while i < records.len()
        invariant
            i <= records@.len(),
            views == record_views(records@),
            n == filt(views.take(i as int), passes_event_filter(*f)).len(),
            n <= i,
        decreases records@.len() - i,
    {
        proof {
            lemma_filt_take_step(views, passes_event_filter(*f), i as int);
        }
        if f.matches(&records[i]) {
            n = n + 1;
        }
        i = i + 1;
    }
    assert(views.take(i as int) =~= views);
    n
}

fn count_outcome(m: &Vec<Scope>, records: &Vec<Record>, o: Outcome) -> (n: usize)
    ensures
        n == filt(m@, has_outcome(record_views(records@), o)).len(),
{
    let ghost p = has_outcome(record_views(records@), o);
    let mut n: usize = 0;
    let mut i: usize = 0;
    while i < m.len()
        invariant
            i <= m@.len(),
            p == has_outcome(record_views(records@), o),
            n == filt(m@.take(i as int), p).len(),
            n <= i,
        decreases m@.len() - i,
    {
        proof {
            lemma_filt_take_step(m@, p, i as int);
        }
        if outcome_of_scope(records, m[i].id) == o {
            n = n + 1;
        }
        i = i + 1;
    }
    assert(m@.take(i as int) =~= m@);
    n
}

fn total_duration(m: &Vec<Scope>, records: &Vec<Record>) -> (t: u64)
    ensures
        t == total_duration_ms(record_views(records@), m@),
{
    let mut t: u64 = 0;
    let mut i: usize = 0;
    while i < m.len()
        invariant
            i <= m@.len(),
            t == total_duration_ms(record_views(records@), m@.take(i as int)),
        decreases m@.len() - i,
    {
        proof {
            assert(m@.take(i + 1).drop_last() =~= m@.take(i as int));
        }
        t = t.saturating_add(duration_ms_of_scope(records, m[i].id));
        i = i + 1;
    }
    assert(m@.take(i as int) =~= m@);
    t
}

fn count_line(label: &str, n: usize) -> (s: String)
    ensures
        s@ == label@ + dec(n as nat),
{
    let mut s = String::new();
    push_str(&mut s, label);
    push_decimal(&mut s, n as u64);
    s
}

/// The session summary: how many scopes pass the scope filter and how many
/// events pass the event filter, how those scopes ended, their total
/// duration (stopping at `u64::MAX`) and, with `per_scope`, the header of
/// each, with its start in local time. Without a filter, everything passes.
pub fn summary_lines(journal: &Journal, color: bool, filter: Option<&Filter>, per_scope: bool) -> (lines: Vec<String>)
    ensures
        exists|tss: Seq<Seq<char>>|
            local_starts(if per_scope { matched_scopes(scope_filter_of(filter), journal@.records, journal@.scopes) } else { Seq::empty() }, tss)
                && string_views(lines@) == summary_text(
                journal@.records,
                journal@.scopes,
                scope_filter_of(filter),
                event_filter_of(filter),
                per_scope,
                tss,
            ),
{
    let default_filter = Filter::any();
    let f = match filter {
        Some(g) => g,
        None => &default_filter,
    };
    let records = journal.records();
    let scopes = journal.scopes();
    let ghost views = record_views(records@);
    let m = matched_scope_list(&f.scope_filter, &records, &scopes);
    let n_events = count_events(&records, &f.event_filter);
    let success = count_outcome(&m, &records, Outcome::Success);
    let failure = count_outcome(&m, &records, Outcome::Failure);
    let aborted = count_outcome(&m, &records, Outcome::Aborted);
    let total = total_duration(&m, &records);
    let mut lines: Vec<String> = Vec::new();
    let mut first = String::new();
    push_str(&mut first, "Session summary: ");
    push_decimal(&mut first, m.len() as u64);
    push_str(&mut first, " scopes, ");
    push_decimal(&mut first, n_events as u64);
    push_str(&mut first, " events");
    lines.push(first);
    lines.push(count_line("  Successful scopes: ", success));
    lines.push(count_line("  Failed scopes: ", failure));
    lines.push(count_line("  Aborted scopes: ", aborted));
    let mut last = String::new();
    push_str(&mut last, "  Total duration: ");
    push_decimal(&mut last, total);
    push_str(&mut last, "ms");
    lines.push(last);
    let ghost head = string_views(lines@);
    assert(head =~= summary_head(views, m@, n_events as nat));
    let ghost mut tss: Seq<Seq<char>> = Seq::empty();
    if per_scope {
        lines.push(String::from_str("\nPer-scope summary:"));
        let mut i: usize = 0;
        while i < m.len()
            invariant
                i <= m@.len(),
                views == record_views(records@),
                local_starts(m@.take(i as int), tss),
                string_views(lines@) == head + seq!["\nPer-scope summary:"@] + header_lines(
                    views,
                    m@.take(i as int),
                    tss,
                ),
            decreases m@.len() - i,
        {
            let s = &m[i];
            let ts = millis_to_local(s.entered_at);
            let h = scope_header(s, outcome_of_scope(&records, s.id), duration_ms_of_scope(&records, s.id), Some(ts.as_str()));
            let mut line = String::new();
            push_str(&mut line, "  ");
            push_str(&mut line, h.header.as_str());
            let ghost prev = lines@;
            lines.push(line);
            proof {
                tss = tss.push(ts@);
                assert(string_views(lines@) =~= string_views(prev).push("  "@ + tree_header(views, m@[i as int], ts@)));
                assert(header_lines(views, m@.take(i + 1), tss) =~= header_lines(views, m@.take(i as int), tss.drop_last()).push(
                    "  "@ + tree_header(views, m@[i as int], ts@),
                ));
                assert(tss.drop_last() =~= tss.take(i as int));
                assert(local_starts(m@.take(i + 1), tss)) by {
                    assert forall|k: int| #![trigger tss[k]] 0 <= k < i + 1 implies is_local_stamp(
                        m@.take(i + 1)[k].entered_at,
                        tss[k],
                    ) by {
                        if k < i {
                            assert(tss[k] == tss.drop_last()[k]);
                        }
                    }
                }
            }
            i = i + 1;
        }
        assert(m@.take(i as int) =~= m@);
        assert(local_starts(m@, tss));
    }
    assert(local_starts(if per_scope { matched_scopes(scope_filter_of(filter), journal@.records, journal@.scopes) } else { Seq::empty() }, tss)
        && string_views(lines@) == summary_text(
        journal@.records,
        journal@.scopes,
        scope_filter_of(filter),
        event_filter_of(filter),
        per_scope,
        tss,
    ));
    lines
}


/// Milliseconds as seconds to three places: `S.mmm`.
pub open spec fn seconds_text(ms: u64) -> Seq<char> {
    dec((ms / 1000) as nat) + "."@ + zero_pad((ms % 1000) as nat, 3)
}

/// The line that opens scope `s` in the journal file, `t` being its start
/// in local time: `[t] Scope N (Outcome) [S.mmms]`, with the outcome and
/// duration of its first exit record.
pub open spec fn file_header(records: Seq<RecordView>, s: Scope, t: Seq<char>) -> Seq<char> {
    "["@ + t + "] Scope "@ + dec(s.id.0 as nat) + " ("@ + outcome_name(outcome_in(records, s.id)) + ") ["@
        + seconds_text(duration_ms_in(records, s.id)) + "s]"@
}

/// The journal-file line of an event, `  • message`; nothing for a scope exit.
pub open spec fn file_event_line(r: RecordView, bullet: Seq<char>) -> Seq<char> {
    match r.kind {
        RecordKindView::Event { name, .. } => "  "@ + bullet + " "@ + name@,
        RecordKindView::ScopeExit { .. } => Seq::empty(),
    }
}

/// The journal-file lines of the events recorded in scope `id`, in order.
pub open spec fn file_event_lines(rs: Seq<RecordView>, id: ScopeId, bullet: Seq<char>) -> Seq<Seq<char>>
    decreases rs.len(),
{
    if rs.len() == 0 {
        Seq::empty()
    } else {
        let prev = file_event_lines(rs.drop_last(), id, bullet);
        let r = rs.last();
        if r.scope == Some(id) && r.kind is Event {
            prev.push(file_event_line(r, bullet))
        } else {
            prev
        }
    }
}

/// The journal file: for each scope, its opening line (with its local start
/// time `tss[i]`) and then the lines of its events.
pub open spec fn file_lines(records: Seq<RecordView>, scopes: Seq<Scope>, tss: Seq<Seq<char>>, bullet: Seq<char>) -> Seq<
    Seq<char>,
>
    decreases scopes.len(),
{
    if scopes.len() == 0 {
        Seq::empty()
    } else {
        let k = scopes.len() - 1;
        file_lines(records, scopes.drop_last(), tss.take(k), bullet) + seq![file_header(records, scopes[k], tss[k])]
            + file_event_lines(records, scopes[k].id, bullet)
    }
}

fn push_file_events(lines: &mut Vec<String>, records: &Vec<Record>, id: ScopeId, bullet: &str)
    ensures
        string_views(final(lines)@) == string_views(old(lines)@) + file_event_lines(record_views(records@), id, bullet@),
{
    let ghost views = record_views(records@);
    let ghost start = string_views(lines@);
    let mut j: usize = 0;
    while j < records.len()
        invariant
            j <= records@.len(),
            views == record_views(records@),
            string_views(lines@) == start + file_event_lines(views.take(j as int), id, bullet@),
        decreases records@.len() - j,
    {
        proof {
            assert(views.take(j + 1).drop_last() =~= views.take(j as int));
            assert(views.take(j + 1).last() == records@[j as int]@);
        }
        let r = &records[j];
        if r.scope == Some(id) {
            match &r.kind {
                RecordKind::Event { name, .. } => {
                    let mut line = String::new();
                    push_str(&mut line, "  ");
                    push_str(&mut line, bullet);
                    push_str(&mut line, " ");
                    push_str(&mut line, name.as_str());
                    let ghost prev = lines@;
                    proof {
                        assert(line@ =~= file_event_line(r@, bullet@));
                    }
                    lines.push(line);
                    assert(string_views(lines@) =~= string_views(prev).push(file_event_line(r@, bullet@)));
                },
                RecordKind::ScopeExit { .. } => {},
            }
        }
        assert(string_views(lines@) =~= start + file_event_lines(views.take(j + 1), id, bullet@));
        j = j + 1;
    }
    assert(views.take(j as int) =~= views);
}

fn file_header_line(records: &Vec<Record>, s: &Scope, ts: &str) -> (h: String)
    ensures
        h@ == file_header(record_views(records@), *s, ts@),
{
    let ms = duration_ms_of_scope(records, s.id);
    let mut h = String::new();
    push_str(&mut h, "[");
    push_str(&mut h, ts);
    push_str(&mut h, "] Scope ");
    push_decimal(&mut h, s.id.0);
    push_str(&mut h, " (");
    push_str(&mut h, outcome_label(outcome_of_scope(records, s.id)));
    push_str(&mut h, ") [");
    push_decimal(&mut h, ms / 1000);
    push_str(&mut h, ".");
    push_zero_padded(&mut h, ms % 1000, 3);
    push_str(&mut h, "s]");
    assert(h@ =~= file_header(record_views(records@), *s, ts@));
    h
}

/// The journal as the lines of its file: each scope in the order it was
/// entered, opened by `[start] Scope N (Outcome) [S.mmms]` with its start in
/// local time, then `  • message` for each event recorded in it (`*` in
/// place of `•` on Windows).
pub fn journal_file_lines(journal: &Journal, windows: bool) -> (lines: Vec<String>)
    ensures
        exists|tss: Seq<Seq<char>>|
            local_starts(journal@.scopes, tss) && string_views(lines@) == file_lines(
                journal@.records,
                journal@.scopes,
                tss,
                platform_bullet(windows),
            ),
{
    let bullet = bullet_for(windows);
    let records = journal.records();
    let scopes = journal.scopes();
    let ghost views = record_views(records@);
    let ghost mut tss: Seq<Seq<char>> = Seq::empty();
    let mut lines: Vec<String> = Vec::new();
    let mut i: usize = 0;
    while i < scopes.len()
        invariant
            i <= scopes@.len(),
            views == record_views(records@),
            bullet@ == platform_bullet(windows),
            local_starts(scopes@.take(i as int), tss),
            string_views(lines@) == file_lines(views, scopes@.take(i as int), tss, bullet@),
        decreases scopes@.len() - i,
    {
        let s = &scopes[i];
        let ts = millis_to_local(s.entered_at);
        let h = file_header_line(&records, s, ts.as_str());
        let ghost old_tss = tss;
        let ghost prev = lines@;
        proof {
            tss = tss.push(ts@);
        }
        lines.push(h);
        assert(string_views(lines@) =~= string_views(prev).push(file_header(views, *s, ts@)));
        push_file_events(&mut lines, &records, s.id, bullet);
        proof {
            let before = scopes@.take(i as int);
            let after = scopes@.take(i + 1);
            assert(after.drop_last() =~= before);
            assert(after[i as int] == *s);
            assert(tss.take(i as int) =~= old_tss);
            assert(local_starts(after, tss)) by {
                assert forall|k: int| #![trigger tss[k]] 0 <= k < after.len() implies is_local_stamp(
                    after[k].entered_at,
                    tss[k],
                ) by {
                    if k < i {
                        assert(tss[k] == old_tss[k]);
                    }
                }
            }
            assert(string_views(lines@) =~= file_lines(views, after, tss, bullet@));
        }
        i = i + 1;
    }
    assert(scopes@.take(i as int) =~= scopes@);
    lines
}

} // verus!
