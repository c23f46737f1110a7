use eventline::replay::{
    failed_scopes, records_at_level, records_for_scope, render_scope_tree, scope_outcomes, scope_tree, slowest_scopes,
};
use eventline::journal::fields::Fields;
use eventline::{EventKind, Outcome, Record, RecordId, RecordKind, Scope, ScopeId};

fn scope(id: u64, parent: Option<u64>, name: &str) -> Scope {
    Scope {
        id: ScopeId(id),
        parent: parent.map(ScopeId),
        entered_at: 0,
        name: Some(name.to_string()),
        exited_at: Some(1),
        exit_messages: Default::default(),
    }
}

fn exit_record(id: u64, scope: u64, outcome: Outcome, duration_ns: u64) -> Record {
    Record {
        id: RecordId(id),
        scope: Some(ScopeId(scope)),
        time_ns: id,
        kind: RecordKind::ScopeExit { outcome, duration_ns },
    }
}

fn event(id: u64, scope: Option<u64>, kind: EventKind, name: &str) -> Record {
    Record {
        id: RecordId(id),
        scope: scope.map(ScopeId),
        time_ns: id,
        kind: RecordKind::Event { kind, name: name.to_string(), fields: Fields::new() },
    }
}

#[test]
fn scope_tree_preserves_parent_child_relationships() {
    let scopes = vec![scope(1, None, "root"), scope(2, Some(1), "child")];
    let tree = scope_tree(&scopes);

    assert_eq!(tree.len(), 1);
    assert_eq!(tree[0].children.len(), 1);
    assert_eq!(tree[0].children[0].scope.id, ScopeId(2));
    assert_eq!(render_scope_tree(&scopes), "root#1\n  child#2\n");
}

#[test]
fn failed_and_slowest_scope_helpers_use_exit_records() {
    let scopes = vec![scope(1, None, "fast"), scope(2, None, "slow")];
    let records = vec![exit_record(1, 1, Outcome::Success, 10), exit_record(2, 2, Outcome::Failure, 20)];

    let failed = failed_scopes(&records, &scopes);
    assert_eq!(failed.len(), 1);
    assert_eq!(failed[0].scope.id, ScopeId(2));

    let slowest = slowest_scopes(&records, &scopes, 1);
    assert_eq!(slowest.len(), 1);
    assert_eq!(slowest[0].scope.id, ScopeId(2));
}

#[test]
fn slowest_scopes_sort_stably_and_cap_the_count() {
    let scopes = vec![scope(1, None, "a"), scope(2, None, "b"), scope(3, None, "c"), scope(4, None, "d")];
    let records = vec![
        exit_record(1, 1, Outcome::Success, 5),
        exit_record(2, 2, Outcome::Success, 30),
        exit_record(3, 3, Outcome::Aborted, 5),
        exit_record(4, 4, Outcome::Failure, 30),
        exit_record(5, 99, Outcome::Failure, 100),
    ];
    let all = slowest_scopes(&records, &scopes, 10);
    let order: Vec<u64> = all.iter().map(|s| s.scope.id.0).collect();
    assert_eq!(order, vec![2, 4, 1, 3]);
    assert_eq!(slowest_scopes(&records, &scopes, 3).len(), 3);
    assert!(slowest_scopes(&records, &scopes, 0).is_empty());
    // The exit of an unknown scope gives no summary.
    assert_eq!(scope_outcomes(&records, &scopes).len(), 4);
}

#[test]
fn records_by_scope_and_level() {
    let records = vec![
        event(1, Some(1), EventKind::Info, "one"),
        event(2, None, EventKind::Error, "two"),
        event(3, Some(1), EventKind::Error, "three"),
        exit_record(4, 1, Outcome::Success, 1),
    ];
    let in_scope = records_for_scope(&records, ScopeId(1));
    assert_eq!(in_scope.iter().map(|r| r.id.0).collect::<Vec<_>>(), vec![1, 3, 4]);
    let errors = records_at_level(&records, EventKind::Error);
    assert_eq!(errors.iter().map(|r| r.id.0).collect::<Vec<_>>(), vec![2, 3]);
}

#[test]
fn scope_tree_text_for_deeper_forests() {
    let mut unnamed = scope(3, Some(2), "x");
    unnamed.name = None;
    let scopes = vec![scope(1, None, "a"), scope(2, Some(1), "b"), unnamed, scope(4, None, "d")];
    assert_eq!(render_scope_tree(&scopes), "a#1\n  b#2\n    unnamed#3\nd#4\n");
    let tree = scope_tree(&scopes);
    assert_eq!(tree.len(), 2);
    assert_eq!(tree[0].children[0].children[0].scope.id, ScopeId(3));
    assert!(tree[1].children.is_empty());
}
