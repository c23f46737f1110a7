use eventline::journal::fields::Fields;
use eventline::{EventFilter, EventKind, Filter, Journal, Outcome, ScopeFilter, ScopeId};

#[test]
fn test_outcome_filter() {
    let mut journal = Journal::new();
    let scope = journal.enter_scope_unnamed(None);
    journal.exit_scope(scope, Outcome::Success);

    let filter = ScopeFilter::Outcome(Outcome::Success);
    let scopes = journal.scopes();
    let scope_obj = &scopes[0];
    assert!(filter.matches(scope_obj, &journal));

    let filter = ScopeFilter::Outcome(Outcome::Failure);
    assert!(!filter.matches(scope_obj, &journal));
}

#[test]
fn test_event_kind_filter() {
    let mut journal = Journal::new();
    journal.record(EventKind::Warning, "test warning".to_string(), Fields::new());

    let filter = EventFilter::Kind(EventKind::Warning);
    let records = journal.records();
    let record = &records[0];
    assert!(filter.matches(record));

    let filter = EventFilter::Kind(EventKind::Error);
    assert!(!filter.matches(record));
}

#[test]
fn test_combined_filters() {
    let mut journal = Journal::new();
    let scope = journal.enter_scope("test".to_string());
    journal.record_no_write_in_scope(EventKind::Warning, "warning message".to_string(), Fields::new(), Some(scope));
    journal.exit_scope(scope, Outcome::Failure);

    let scopes = journal.scopes();
    let records = journal.records();
    let scope_obj = &scopes[0];
    let record = &records[0];

    let filter = ScopeFilter::Outcome(Outcome::Failure).and(ScopeFilter::NameEquals("test".to_string()));
    assert!(filter.matches(scope_obj, &journal));

    let filter = EventFilter::Kind(EventKind::Warning).or(EventFilter::Kind(EventKind::Error));
    assert!(filter.matches(record));

    let filter = ScopeFilter::Outcome(Outcome::Success).not();
    assert!(filter.matches(scope_obj, &journal));
}

#[test]
fn test_depth_filter() {
    let mut journal = Journal::new();
    let root = journal.enter_scope_unnamed(None);
    let child = journal.enter_scope_unnamed(Some(root));
    let _grandchild = journal.enter_scope_unnamed(Some(child));

    let scopes = journal.scopes();
    let root_scope = &scopes[0];
    let child_scope = &scopes[1];
    let grandchild_scope = &scopes[2];

    let filter = ScopeFilter::MaxDepth(1);
    assert!(filter.matches(root_scope, &journal));
    assert!(filter.matches(child_scope, &journal));
    assert!(!filter.matches(grandchild_scope, &journal));

    let filter = ScopeFilter::MinDepth(1);
    assert!(!filter.matches(root_scope, &journal));
    assert!(filter.matches(child_scope, &journal));
    assert!(filter.matches(grandchild_scope, &journal));
}

#[test]
fn test_message_filter() {
    let mut journal = Journal::new();
    journal.record(EventKind::Info, "This is a test MESSAGE".to_string(), Fields::new());

    let records = journal.records();
    let record = &records[0];

    let filter = EventFilter::MessageContains("test".to_string());
    assert!(filter.matches(record));

    let filter = EventFilter::MessageContains("TEST".to_string());
    assert!(filter.matches(record));

    let filter = EventFilter::MessageContainsCaseSensitive("MESSAGE".to_string());
    assert!(filter.matches(record));

    let filter = EventFilter::MessageContainsCaseSensitive("message".to_string());
    assert!(!filter.matches(record));
}

#[test]
fn filter_logic_and_defaults() {
    let mut journal = Journal::new();
    let scope = journal.enter_scope("work".to_string());
    journal.record(EventKind::Error, "Disk FULL".to_string(), Fields::new());
    journal.exit_scope(scope, Outcome::Failure);
    let scopes = journal.scopes();
    let records = journal.records();

    let any = Filter::default();
    assert!(any.matches_scope(&scopes[0], &journal));
    assert!(any.matches_event(&records[0]));
    // A scope-exit record never passes an event filter, not even `Any`.
    assert!(!any.matches_event(&records[1]));

    let none = Filter::none();
    assert!(!none.matches_scope(&scopes[0], &journal));
    assert!(!none.matches_event(&records[0]));

    let f = Filter::scope(ScopeFilter::NameContains("WOR".to_string()))
        .and(Filter::event(EventFilter::MessageContains("full".to_string())));
    assert!(f.matches_scope(&scopes[0], &journal));
    assert!(f.matches_event(&records[0]));

    assert!(ScopeFilter::Named.matches(&scopes[0], &journal));
    assert!(!ScopeFilter::Unnamed.matches(&scopes[0], &journal));
    assert!(ScopeFilter::IsRoot.matches(&scopes[0], &journal));
    assert!(!ScopeFilter::HasParent(ScopeId(7)).matches(&scopes[0], &journal));
    assert!(EventFilter::InScope(scope).matches(&records[0]));
    assert!(EventFilter::Scoped.matches(&records[0]));
    assert!(!EventFilter::Unscoped.matches(&records[0]));
    assert!(!EventFilter::Never.matches(&records[0]));
    assert!(!EventFilter::Kind(EventKind::Error).not().matches(&records[0]));
}

#[test]
fn duration_filters_use_whole_milliseconds() {
    let mut journal = Journal::new();
    let scope = journal.enter_scope_unnamed_at(None, 1_000);
    journal.exit_scope_no_write_at(scope, Outcome::Success, 1_250, 5);
    let scopes = journal.scopes();
    assert!(ScopeFilter::DurationAbove(249).matches(&scopes[0], &journal));
    assert!(!ScopeFilter::DurationAbove(250).matches(&scopes[0], &journal));
    assert!(ScopeFilter::DurationBelow(251).matches(&scopes[0], &journal));
    assert!(!ScopeFilter::DurationBelow(250).matches(&scopes[0], &journal));
}

#[test]
fn scope_without_exit_counts_as_aborted() {
    let mut journal = Journal::new();
    journal.enter_scope_unnamed(None);
    let scopes = journal.scopes();
    assert!(ScopeFilter::Outcome(Outcome::Aborted).matches(&scopes[0], &journal));
    assert!(ScopeFilter::DurationBelow(1).matches(&scopes[0], &journal));
}
