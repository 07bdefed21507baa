use plexo_sdk::commons::SQLComparison;
use plexo_sdk::commons::SortOrder;
use plexo_sdk::errors::SDKError;
use plexo_sdk::executor::execute_query;
use plexo_sdk::executor::find_task;
use plexo_sdk::executor::remove_task;
use plexo_sdk::executor::task_matches_exec;
use plexo_sdk::filter::FilterNode;
use plexo_sdk::filter::ScalarValue;
use plexo_sdk::query::QuerySpec;
use plexo_sdk::query::SortSpec;
use plexo_sdk::tasks::Task;
use plexo_sdk::tasks::TaskPriority;
use plexo_sdk::tasks::TaskStatus;
use plexo_sdk::tasks::task_schema;

fn task(id: u128, title: &str, status: TaskStatus, created_at: i64) -> Task {
    Task {
        id,
        created_at,
        updated_at: created_at,
        title: title.to_string(),
        description: None,
        owner_id: 1,
        status,
        priority: TaskPriority::Unset,
        due_date: None,
        project_id: None,
        lead_id: None,
        count: 0,
        parent_id: None,
    }
}

fn status_eq(status: &str) -> FilterNode {
    FilterNode::Comparison {
        field: "status".to_string(),
        op: SQLComparison::Equal,
        value: ScalarValue::Text(status.to_string()),
    }
}

fn fixture_five() -> Vec<Task> {
    vec![
        task(5, "e", TaskStatus::Done, 50),
        task(2, "b", TaskStatus::ToDo, 20),
        task(4, "d", TaskStatus::Done, 40),
        task(1, "a", TaskStatus::Done, 10),
        task(3, "c", TaskStatus::Backlog, 30),
    ]
}

#[test]
fn done_filter_returns_exactly_the_done_rows_in_pk_order() {
    let schema = task_schema();
    let records = fixture_five();
    let q = QuerySpec::new(status_eq("Done"));
    let rows = execute_query(&schema, &records, &q).unwrap();
    let ids: Vec<u128> = rows.iter().map(|t| t.id).collect();
    assert_eq!(ids, vec![1, 4, 5]);
    assert!(rows.iter().all(|t| matches!(t.status, TaskStatus::Done)));
}

#[test]
fn pagination_covers_the_set_without_duplicates_or_gaps() {
    let schema = task_schema();
    let records = vec![
        task(1, "a", TaskStatus::Done, 10),
        task(2, "b", TaskStatus::Done, 20),
        task(3, "c", TaskStatus::Done, 30),
        task(4, "d", TaskStatus::Done, 40),
    ];
    let mut q1 = QuerySpec::new(FilterNode::And(vec![]));
    q1.limit = 2;
    q1.offset = 0;
    let mut q2 = QuerySpec::new(FilterNode::And(vec![]));
    q2.limit = 2;
    q2.offset = 2;
    let page1 = execute_query(&schema, &records, &q1).unwrap();
    let page2 = execute_query(&schema, &records, &q2).unwrap();
    let mut ids: Vec<u128> = page1.iter().map(|t| t.id).collect();
    ids.extend(page2.iter().map(|t| t.id));
    assert_eq!(ids, vec![1, 2, 3, 4]);
}

#[test]
fn explicit_sort_orders_by_field_then_pk() {
    let schema = task_schema();
    let records = vec![
        task(1, "b", TaskStatus::Done, 20),
        task(2, "a", TaskStatus::Done, 10),
        task(3, "b", TaskStatus::Done, 20),
    ];
    let mut q = QuerySpec::new(FilterNode::And(vec![]));
    q.sort = Some(SortSpec { field: "title".to_string(), order: SortOrder::Asc });
    let rows = execute_query(&schema, &records, &q).unwrap();
    let ids: Vec<u128> = rows.iter().map(|t| t.id).collect();
    assert_eq!(ids, vec![2, 1, 3]);
    let mut q = QuerySpec::new(FilterNode::And(vec![]));
    q.sort = Some(SortSpec { field: "created_at".to_string(), order: SortOrder::Desc });
    let rows = execute_query(&schema, &records, &q).unwrap();
    let ids: Vec<u128> = rows.iter().map(|t| t.id).collect();
    assert_eq!(ids, vec![1, 3, 2]);
}

#[test]
fn offset_beyond_the_result_yields_nothing() {
    let schema = task_schema();
    let records = fixture_five();
    let mut q = QuerySpec::new(FilterNode::And(vec![]));
    q.offset = 100;
    let rows = execute_query(&schema, &records, &q).unwrap();
    assert!(rows.is_empty());
}

#[test]
fn executor_reports_the_same_validation_errors_as_the_compiler() {
    let schema = task_schema();
    let records = fixture_five();
    let q = QuerySpec::new(FilterNode::Comparison {
        field: "status".to_string(),
        op: SQLComparison::In,
        value: ScalarValue::List(vec![]),
    });
    assert_eq!(execute_query(&schema, &records, &q), Err(SDKError::InvalidFilter));
    let mut q = QuerySpec::new(FilterNode::And(vec![]));
    q.sort = Some(SortSpec { field: "nope".to_string(), order: SortOrder::Asc });
    assert_eq!(execute_query(&schema, &records, &q), Err(SDKError::UnknownField));
}

#[test]
fn like_matches_with_wildcards() {
    let t = task(1, "next big update", TaskStatus::Done, 1);
    let like = |pattern: &str| FilterNode::Comparison {
        field: "title".to_string(),
        op: SQLComparison::Like,
        value: ScalarValue::Text(pattern.to_string()),
    };
    assert!(task_matches_exec(&t, &like("%update")));
    assert!(task_matches_exec(&t, &like("next%")));
    assert!(task_matches_exec(&t, &like("%big%")));
    assert!(task_matches_exec(&t, &like("next big updat_")));
    assert!(!task_matches_exec(&t, &like("big")));
    assert!(!task_matches_exec(&t, &like("%small%")));
}

#[test]
fn null_comparisons_follow_store_semantics() {
    let mut t = task(1, "a", TaskStatus::Done, 1);
    t.due_date = None;
    let is_null = FilterNode::Comparison {
        field: "due_date".to_string(),
        op: SQLComparison::IsNull,
        value: ScalarValue::Null,
    };
    let gt = FilterNode::Comparison {
        field: "due_date".to_string(),
        op: SQLComparison::GreaterThan,
        value: ScalarValue::Timestamp(0),
    };
    assert!(task_matches_exec(&t, &is_null));
    assert!(!task_matches_exec(&t, &gt));
    t.due_date = Some(5);
    assert!(!task_matches_exec(&t, &is_null));
    assert!(task_matches_exec(&t, &gt));
}

#[test]
fn boolean_combinators_follow_their_neutral_elements() {
    let t = task(1, "a", TaskStatus::Done, 1);
    assert!(task_matches_exec(&t, &FilterNode::And(vec![])));
    assert!(!task_matches_exec(&t, &FilterNode::Or(vec![])));
    let mixed = FilterNode::Or(vec![
        FilterNode::And(vec![status_eq("ToDo"), status_eq("Done")]),
        status_eq("Done"),
    ]);
    assert!(task_matches_exec(&t, &mixed));
}

#[test]
fn in_list_membership_matches() {
    let t = task(1, "a", TaskStatus::Backlog, 1);
    let node = FilterNode::Comparison {
        field: "status".to_string(),
        op: SQLComparison::In,
        value: ScalarValue::List(vec![
            ScalarValue::Text("Backlog".to_string()),
            ScalarValue::Text("ToDo".to_string()),
        ]),
    };
    assert!(task_matches_exec(&t, &node));
    let node = FilterNode::Comparison {
        field: "status".to_string(),
        op: SQLComparison::NotIn,
        value: ScalarValue::List(vec![ScalarValue::Text("Done".to_string())]),
    };
    assert!(task_matches_exec(&t, &node));
}

#[test]
fn find_task_distinguishes_found_from_not_found() {
    let records = fixture_five();
    let found = find_task(&records, 3).unwrap();
    assert_eq!(found.id, 3);
    assert_eq!(found.title, "c");
    assert_eq!(find_task(&records, 99), Err(SDKError::ResourceNotFound));
}

#[test]
fn delete_returns_the_record_as_it_stood_before_removal() {
    let mut records = fixture_five();
    let removed = remove_task(&mut records, 4).unwrap();
    assert_eq!(removed.id, 4);
    assert_eq!(removed.title, "d");
    assert_eq!(records.len(), 4);
    assert!(records.iter().all(|t| t.id != 4));
    assert_eq!(remove_task(&mut records, 4), Err(SDKError::ResourceNotFound));
    assert_eq!(records.len(), 4);
}
