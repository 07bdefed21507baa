use plexo_sdk::commons::SQLComparison;
use plexo_sdk::errors::SDKError;
use plexo_sdk::filter::FilterNode;
use plexo_sdk::filter::ScalarValue;
use plexo_sdk::filter::compile_filter;
use plexo_sdk::filter::placeholder_count;
use plexo_sdk::query::QuerySpec;
use plexo_sdk::query::SortSpec;
use plexo_sdk::query::build_statement;
use plexo_sdk::commons::SortOrder;
use plexo_sdk::tasks::task_schema;

fn cmp(field: &str, op: SQLComparison, value: ScalarValue) -> FilterNode {
    FilterNode::Comparison { field: field.to_string(), op, value }
}

#[test]
fn placeholders_align_with_binds_simple() {
    let schema = task_schema();
    let node = cmp("status", SQLComparison::Equal, ScalarValue::Text("Done".to_string()));
    let (fragment, binds) = compile_filter(&schema, node).unwrap();
    assert_eq!(placeholder_count(&fragment), binds.len());
    assert_eq!(fragment, "status = ?");
    assert_eq!(binds, vec![ScalarValue::Text("Done".to_string())]);
}

#[test]
fn placeholders_align_with_binds_nested() {
    let schema = task_schema();
    let node = FilterNode::And(vec![
        cmp("status", SQLComparison::In, ScalarValue::List(vec![
            ScalarValue::Text("Done".to_string()),
            ScalarValue::Text("Canceled".to_string()),
        ])),
        FilterNode::Or(vec![
            cmp("count", SQLComparison::GreaterThan, ScalarValue::Integer(3)),
            cmp("due_date", SQLComparison::IsNull, ScalarValue::Null),
        ]),
        cmp("title", SQLComparison::Like, ScalarValue::Text("%update%".to_string())),
    ]);
    let (fragment, binds) = compile_filter(&schema, node).unwrap();
    assert_eq!(placeholder_count(&fragment), binds.len());
    assert_eq!(binds.len(), 4);
}

#[test]
fn empty_and_compiles_to_true() {
    let schema = task_schema();
    let (fragment, binds) = compile_filter(&schema, FilterNode::And(vec![])).unwrap();
    assert_eq!(fragment, "TRUE");
    assert!(binds.is_empty());
}

#[test]
fn empty_or_compiles_to_false() {
    let schema = task_schema();
    let (fragment, binds) = compile_filter(&schema, FilterNode::Or(vec![])).unwrap();
    assert_eq!(fragment, "FALSE");
    assert!(binds.is_empty());
}

#[test]
fn mixed_nesting_parenthesizes_compound_children() {
    let schema = task_schema();
    let node = FilterNode::Or(vec![
        FilterNode::And(vec![
            cmp("status", SQLComparison::Equal, ScalarValue::Text("Done".to_string())),
            cmp("count", SQLComparison::GreaterThan, ScalarValue::Integer(1)),
        ]),
        cmp("title", SQLComparison::Equal, ScalarValue::Text("x".to_string())),
    ]);
    let (fragment, _) = compile_filter(&schema, node).unwrap();
    assert_eq!(fragment, "(status = ? AND count > ?) OR title = ?");
}

#[test]
fn same_combinator_nesting_needs_no_parens() {
    let schema = task_schema();
    let node = FilterNode::And(vec![
        FilterNode::And(vec![
            cmp("status", SQLComparison::Equal, ScalarValue::Text("Done".to_string())),
            cmp("count", SQLComparison::GreaterThan, ScalarValue::Integer(1)),
        ]),
        cmp("title", SQLComparison::Equal, ScalarValue::Text("x".to_string())),
    ]);
    let (fragment, _) = compile_filter(&schema, node).unwrap();
    assert_eq!(fragment, "status = ? AND count > ? AND title = ?");
}

#[test]
fn empty_in_list_is_invalid_filter() {
    let schema = task_schema();
    let node = cmp("status", SQLComparison::In, ScalarValue::List(vec![]));
    assert_eq!(compile_filter(&schema, node), Err(SDKError::InvalidFilter));
}

#[test]
fn in_list_renders_one_placeholder_per_element() {
    let schema = task_schema();
    let node = cmp("status", SQLComparison::In, ScalarValue::List(vec![
        ScalarValue::Text("Done".to_string()),
        ScalarValue::Text("ToDo".to_string()),
        ScalarValue::Text("Backlog".to_string()),
    ]));
    let (fragment, binds) = compile_filter(&schema, node).unwrap();
    assert_eq!(fragment, "status IN (?, ?, ?)");
    assert_eq!(binds.len(), 3);
}

#[test]
fn not_in_renders_not_in_keyword() {
    let schema = task_schema();
    let node = cmp("priority", SQLComparison::NotIn, ScalarValue::List(vec![
        ScalarValue::Text("Low".to_string()),
    ]));
    let (fragment, _) = compile_filter(&schema, node).unwrap();
    assert_eq!(fragment, "priority NOT IN (?)");
}

#[test]
fn null_tests_take_no_bound_value() {
    let schema = task_schema();
    let (fragment, binds) =
        compile_filter(&schema, cmp("due_date", SQLComparison::IsNull, ScalarValue::Null)).unwrap();
    assert_eq!(fragment, "due_date IS NULL");
    assert!(binds.is_empty());
    let (fragment, binds) =
        compile_filter(&schema, cmp("due_date", SQLComparison::IsNotNull, ScalarValue::Null))
            .unwrap();
    assert_eq!(fragment, "due_date IS NOT NULL");
    assert!(binds.is_empty());
}

#[test]
fn null_test_with_bound_value_is_invalid_filter() {
    let schema = task_schema();
    let node = cmp("due_date", SQLComparison::IsNull, ScalarValue::Text("x".to_string()));
    assert_eq!(compile_filter(&schema, node), Err(SDKError::InvalidFilter));
}

#[test]
fn unknown_field_is_rejected() {
    let schema = task_schema();
    let node = cmp("password", SQLComparison::Equal, ScalarValue::Text("x".to_string()));
    assert_eq!(compile_filter(&schema, node), Err(SDKError::UnknownField));
}

#[test]
fn value_of_wrong_type_is_rejected() {
    let schema = task_schema();
    let node = cmp("title", SQLComparison::Equal, ScalarValue::Integer(7));
    assert_eq!(compile_filter(&schema, node), Err(SDKError::TypeMismatch));
    let node = cmp("count", SQLComparison::Like, ScalarValue::Text("%x%".to_string()));
    assert_eq!(compile_filter(&schema, node), Err(SDKError::TypeMismatch));
}

#[test]
fn mismatched_in_list_element_is_rejected() {
    let schema = task_schema();
    let node = cmp("status", SQLComparison::In, ScalarValue::List(vec![
        ScalarValue::Text("Done".to_string()),
        ScalarValue::Integer(2),
    ]));
    assert_eq!(compile_filter(&schema, node), Err(SDKError::TypeMismatch));
}

#[test]
fn first_error_in_traversal_order_wins() {
    let schema = task_schema();
    let node = FilterNode::And(vec![
        cmp("nope", SQLComparison::Equal, ScalarValue::Text("a".to_string())),
        cmp("status", SQLComparison::In, ScalarValue::List(vec![])),
    ]);
    assert_eq!(compile_filter(&schema, node), Err(SDKError::UnknownField));
}

#[test]
fn statement_composes_where_order_limit_offset() {
    let schema = task_schema();
    let q = QuerySpec {
        filter: FilterNode::Comparison {
            field: "status".to_string(),
            op: SQLComparison::Equal,
            value: ScalarValue::Text("Done".to_string()),
        },
        sort: Some(SortSpec { field: "created_at".to_string(), order: SortOrder::Desc }),
        limit: 10,
        offset: 20,
    };
    let (stmt, binds) = build_statement(&schema, q).unwrap();
    assert_eq!(
        stmt,
        "SELECT * FROM tasks WHERE status = ? ORDER BY created_at DESC, id ASC LIMIT ? OFFSET ?"
    );
    assert_eq!(binds, vec![
        ScalarValue::Text("Done".to_string()),
        ScalarValue::Integer(10),
        ScalarValue::Integer(20),
    ]);
}

#[test]
fn trivial_filter_omits_where_clause() {
    let schema = task_schema();
    let q = QuerySpec::new(FilterNode::And(vec![]));
    let (stmt, binds) = build_statement(&schema, q).unwrap();
    assert_eq!(stmt, "SELECT * FROM tasks ORDER BY id ASC LIMIT ? OFFSET ?");
    assert_eq!(binds, vec![ScalarValue::Integer(100), ScalarValue::Integer(0)]);
}

#[test]
fn limit_is_capped_at_the_hard_maximum() {
    let schema = task_schema();
    let mut q = QuerySpec::new(FilterNode::And(vec![]));
    q.limit = 4_000_000;
    let (_, binds) = build_statement(&schema, q).unwrap();
    assert_eq!(binds[0], ScalarValue::Integer(10000));
}

#[test]
fn unknown_sort_field_is_rejected() {
    let schema = task_schema();
    let mut q = QuerySpec::new(FilterNode::And(vec![]));
    q.sort = Some(SortSpec { field: "secret".to_string(), order: SortOrder::Asc });
    assert_eq!(build_statement(&schema, q), Err(SDKError::UnknownField));
}

#[test]
fn fragment_never_carries_caller_text() {
    let schema = task_schema();
    let hostile = "x'; DROP TABLE tasks; --".to_string();
    let node = cmp("title", SQLComparison::Equal, ScalarValue::Text(hostile.clone()));
    let (fragment, binds) = compile_filter(&schema, node).unwrap();
    assert!(!fragment.contains("DROP"));
    assert_eq!(fragment, "title = ?");
    assert_eq!(binds, vec![ScalarValue::Text(hostile)]);
}

#[test]
fn project_and_team_schemas_drive_the_same_compiler() {
    let projects = plexo_sdk::projects::project_schema();
    let node = cmp("name", SQLComparison::Like, ScalarValue::Text("web%".to_string()));
    let (fragment, binds) = compile_filter(&projects, node).unwrap();
    assert_eq!(fragment, "name LIKE ?");
    assert_eq!(binds.len(), 1);

    let teams = plexo_sdk::teams::team_schema();
    let q = QuerySpec::new(cmp(
        "visibility",
        SQLComparison::Equal,
        ScalarValue::Text("Public".to_string()),
    ));
    let (stmt, _) = build_statement(&teams, q).unwrap();
    assert_eq!(stmt, "SELECT * FROM teams WHERE visibility = ? ORDER BY id ASC LIMIT ? OFFSET ?");

    // a task-only field is not allow-listed for projects
    let node = cmp("status", SQLComparison::Equal, ScalarValue::Text("Done".to_string()));
    assert_eq!(compile_filter(&projects, node), Err(SDKError::UnknownField));
}

#[test]
fn batch_fetch_statement_covers_every_key_once() {
    let schema = task_schema();
    let keys: Vec<u128> = vec![3, 1, 2];
    let (stmt, binds) = plexo_sdk::query::batch_fetch_statement(&schema, &keys).unwrap();
    assert_eq!(stmt, "SELECT * FROM tasks WHERE id IN (?, ?, ?) ORDER BY id ASC LIMIT ? OFFSET ?");
    assert_eq!(binds, vec![
        ScalarValue::Id(3),
        ScalarValue::Id(1),
        ScalarValue::Id(2),
        ScalarValue::Integer(3),
        ScalarValue::Integer(0),
    ]);
    assert_eq!(placeholder_count(&stmt), binds.len());
}
