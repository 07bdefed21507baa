use plexo_sdk::errors::SDKError;
use plexo_sdk::loader::Fetched;
use plexo_sdk::loader::LoaderScope;
use plexo_sdk::tasks::Task;
use plexo_sdk::tasks::TaskPriority;
use plexo_sdk::tasks::TaskStatus;

fn record(id: u128, title: &str) -> Task {
    Task {
        id,
        created_at: 0,
        updated_at: 0,
        title: title.to_string(),
        description: None,
        owner_id: 1,
        status: TaskStatus::Unset,
        priority: TaskPriority::Unset,
        due_date: None,
        project_id: None,
        lead_id: None,
        count: 0,
        parent_id: None,
    }
}

#[test]
fn loading_a_key_twice_pends_one_fetch_of_it() {
    let mut scope: LoaderScope<Task> = LoaderScope::new();
    assert!(!scope.load(7));
    assert!(!scope.load(7));
    let batch = scope.drain();
    assert_eq!(batch, vec![7]);
    let second = scope.drain();
    assert!(second.is_empty());
}

#[test]
fn distinct_keys_pend_in_arrival_order_without_duplicates() {
    let mut scope: LoaderScope<Task> = LoaderScope::new();
    scope.load(2);
    scope.load(5);
    scope.load(2);
    scope.load(9);
    scope.load(5);
    assert_eq!(scope.drain(), vec![2, 5, 9]);
}

#[test]
fn partial_miss_resolves_present_and_missing_keys_independently() {
    let mut scope: LoaderScope<Task> = LoaderScope::new();
    scope.load(1);
    scope.load(2);
    let batch = scope.drain();
    let rows = vec![Fetched { key: 1, value: record(1, "found") }];
    scope.resolve(batch, rows);
    let a = scope.get(1).expect("key 1 must be resolved");
    let b = scope.get(2).expect("key 2 must be resolved");
    assert_eq!(a.as_ref().map(|t| t.title.as_str()), Some("found"));
    assert!(b.is_none());
}

#[test]
fn resolved_keys_are_served_from_the_cache() {
    let mut scope: LoaderScope<Task> = LoaderScope::new();
    scope.load(4);
    let batch = scope.drain();
    scope.resolve(batch, vec![Fetched { key: 4, value: record(4, "cached") }]);
    // a later load of the same key is answered without pending a new fetch
    assert!(scope.load(4));
    assert!(scope.drain().is_empty());
    let v = scope.get(4).unwrap();
    assert_eq!(v.as_ref().map(|t| t.id), Some(4));
}

#[test]
fn unresolved_keys_are_not_readable() {
    let mut scope: LoaderScope<Task> = LoaderScope::new();
    scope.load(11);
    assert!(scope.get(11).is_none());
}

#[test]
fn first_matching_row_wins_for_a_key() {
    let mut scope: LoaderScope<Task> = LoaderScope::new();
    scope.load(3);
    let batch = scope.drain();
    let rows = vec![
        Fetched { key: 3, value: record(3, "first") },
        Fetched { key: 3, value: record(3, "second") },
    ];
    scope.resolve(batch, rows);
    let v = scope.get(3).unwrap();
    assert_eq!(v.as_ref().map(|t| t.title.as_str()), Some("first"));
}

#[test]
fn resolving_one_batch_leaves_other_cache_entries_alone() {
    let mut scope: LoaderScope<Task> = LoaderScope::new();
    scope.load(1);
    let batch = scope.drain();
    scope.resolve(batch, vec![Fetched { key: 1, value: record(1, "one") }]);
    scope.load(2);
    let batch = scope.drain();
    scope.resolve(batch, vec![]);
    let one = scope.get(1).unwrap();
    assert_eq!(one.as_ref().map(|t| t.id), Some(1));
    assert!(scope.get(2).unwrap().is_none());
}

#[test]
fn outstanding_counts_the_unanswered_lookups() {
    let mut scope: LoaderScope<Task> = LoaderScope::new();
    assert_eq!(scope.outstanding(), 0);
    scope.load(1);
    scope.load(2);
    scope.load(1);
    assert_eq!(scope.outstanding(), 2);
    let batch = scope.drain();
    assert_eq!(scope.outstanding(), 0);
    scope.resolve(batch, vec![]);
    assert_eq!(scope.outstanding(), 0);
}

#[test]
fn failed_batch_resolves_nothing_and_reports_one_error() {
    let mut scope: LoaderScope<Task> = LoaderScope::new();
    scope.load(1);
    scope.load(2);
    let batch = scope.drain();
    // the one underlying fetch failed: abandon the batch
    let e = scope.fail_batch(batch);
    assert_eq!(e, SDKError::BatchFetchFailed);
    // no handle was resolved with stale data
    assert!(scope.get(1).is_none());
    assert!(scope.get(2).is_none());
    assert_eq!(scope.outstanding(), 0);
}
