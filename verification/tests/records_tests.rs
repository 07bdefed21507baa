use plexo_sdk::changes::ChangeOperation;
use plexo_sdk::changes::ChangeResourceType;
use plexo_sdk::commons::SortOrder;
use plexo_sdk::engine::SDKConfig;
use plexo_sdk::engine::resolve_version;
use plexo_sdk::errors::SDKError;
use plexo_sdk::filter::ScalarValue;
use plexo_sdk::filter::placeholder_count;
use plexo_sdk::members::MemberRole;
use plexo_sdk::tasks::CreateTaskInput;
use plexo_sdk::tasks::Task;
use plexo_sdk::tasks::TaskPriority;
use plexo_sdk::tasks::TaskRow;
use plexo_sdk::tasks::TaskStatus;
use plexo_sdk::tasks::UpdateTaskInput;
use plexo_sdk::tasks::apply_update;
use plexo_sdk::tasks::create_task_binds;
use plexo_sdk::tasks::create_tasks_binds;
use plexo_sdk::tasks::insert_tasks_statement;
use plexo_sdk::tasks::task_from_row;
use plexo_sdk::tasks::update_task_binds;

fn sample_task() -> Task {
    Task {
        id: 42,
        created_at: 1000,
        updated_at: 2000,
        title: "write the report".to_string(),
        description: Some("quarterly".to_string()),
        owner_id: 7,
        status: TaskStatus::InProgress,
        priority: TaskPriority::High,
        due_date: Some(3000),
        project_id: Some(9),
        lead_id: None,
        count: 3,
        parent_id: None,
    }
}

#[test]
fn all_absent_update_returns_the_record_unchanged() {
    let current = sample_task();
    let updated = apply_update(&current, UpdateTaskInput::empty());
    assert_eq!(updated, current);
}

#[test]
fn present_update_fields_replace_and_absent_ones_keep() {
    let current = sample_task();
    let mut input = UpdateTaskInput::empty();
    input.status = Some(TaskStatus::Done);
    input.title = Some("done now".to_string());
    let updated = apply_update(&current, input);
    assert_eq!(updated.status, TaskStatus::Done);
    assert_eq!(updated.title, "done now");
    assert_eq!(updated.priority, TaskPriority::High);
    assert_eq!(updated.description, Some("quarterly".to_string()));
    assert_eq!(updated.id, 42);
}

#[test]
fn update_cannot_unset_a_field() {
    let current = sample_task();
    let updated = apply_update(&current, UpdateTaskInput::empty());
    assert_eq!(updated.due_date, Some(3000));
    assert_eq!(updated.project_id, Some(9));
}

#[test]
fn row_mapping_carries_columns_and_decodes_enums() {
    let row = TaskRow {
        id: 5,
        created_at: 1,
        updated_at: 2,
        title: "t".to_string(),
        description: None,
        owner_id: 6,
        status: Some("Done".to_string()),
        priority: Some("Urgent".to_string()),
        due_date: Some(9),
        project_id: None,
        lead_id: Some(8),
        count: 1,
        parent_id: None,
    };
    let t = task_from_row(row);
    assert_eq!(t.id, 5);
    assert_eq!(t.status, TaskStatus::Done);
    assert_eq!(t.priority, TaskPriority::Urgent);
    assert_eq!(t.lead_id, Some(8));
}

#[test]
fn unknown_stored_text_falls_back_to_the_default_variant() {
    let row = TaskRow {
        id: 5,
        created_at: 1,
        updated_at: 2,
        title: "t".to_string(),
        description: None,
        owner_id: 6,
        status: Some("Shipped".to_string()),
        priority: None,
        due_date: None,
        project_id: None,
        lead_id: None,
        count: 0,
        parent_id: None,
    };
    let t = task_from_row(row);
    assert_eq!(t.status, TaskStatus::Unset);
    assert_eq!(t.priority, TaskPriority::Unset);
}

#[test]
fn from_optional_str_reads_known_symbols() {
    assert_eq!(TaskStatus::from_optional_str(&Some("Done".to_string())), TaskStatus::Done);
    assert_eq!(TaskStatus::from_optional_str(&None), TaskStatus::Unset);
    assert_eq!(TaskPriority::from_optional_str(&Some("Low".to_string())), TaskPriority::Low);
    assert_eq!(TaskPriority::from_optional_str(&None), TaskPriority::Unset);
}

#[test]
fn from_optional_str_defaults_on_unknown_text() {
    assert_eq!(TaskStatus::from_optional_str(&Some("Shipped".to_string())), TaskStatus::Unset);
    assert_eq!(TaskPriority::from_optional_str(&Some("Blocker".to_string())), TaskPriority::Unset);
}

#[test]
fn status_and_priority_round_trip_through_their_text() {
    for s in [
        TaskStatus::Unset,
        TaskStatus::Backlog,
        TaskStatus::ToDo,
        TaskStatus::InProgress,
        TaskStatus::Done,
        TaskStatus::Canceled,
    ] {
        assert_eq!(TaskStatus::from_str(s.as_str()), Some(s));
    }
    for p in [
        TaskPriority::Unset,
        TaskPriority::Low,
        TaskPriority::Medium,
        TaskPriority::High,
        TaskPriority::Urgent,
    ] {
        assert_eq!(TaskPriority::from_str(p.as_str()), Some(p));
    }
    assert_eq!(TaskStatus::from_str("NotAStatus"), None);
    assert_eq!(TaskStatus::Unset.as_str(), "None");
}

#[test]
fn create_binds_follow_the_insert_column_order() {
    let input = CreateTaskInput {
        title: "t".to_string(),
        owner_id: 3,
        status: None,
        priority: Some(TaskPriority::High),
        description: None,
        due_date: Some(7),
        project_id: None,
        lead_id: None,
        parent_id: Some(11),
    };
    let binds = create_task_binds(input);
    assert_eq!(binds.len(), 9);
    assert_eq!(binds[0], ScalarValue::Text("t".to_string()));
    assert_eq!(binds[1], ScalarValue::Null);
    assert_eq!(binds[2], ScalarValue::Id(3));
    assert_eq!(binds[3], ScalarValue::Text("None".to_string()));
    assert_eq!(binds[4], ScalarValue::Text("High".to_string()));
    assert_eq!(binds[5], ScalarValue::Timestamp(7));
    assert_eq!(binds[6], ScalarValue::Null);
    assert_eq!(binds[7], ScalarValue::Null);
    assert_eq!(binds[8], ScalarValue::Id(11));
}

#[test]
fn update_binds_mark_absent_fields_as_null() {
    let mut input = UpdateTaskInput::empty();
    input.priority = Some(TaskPriority::Low);
    input.title = Some("renamed".to_string());
    let binds = update_task_binds(input);
    assert_eq!(binds.len(), 8);
    assert_eq!(binds[0], ScalarValue::Null);
    assert_eq!(binds[1], ScalarValue::Text("Low".to_string()));
    assert_eq!(binds[2], ScalarValue::Text("renamed".to_string()));
    for bind in &binds[3..] {
        assert_eq!(*bind, ScalarValue::Null);
    }
}

#[test]
fn config_defaulting_rules() {
    let config = SDKConfig::from_parts(
        "postgres://localhost/plexo".to_string(),
        "test-key".to_string(),
        None,
        None,
        None,
        None,
        None,
        None,
    );
    assert_eq!(config.llm_model_name, "gpt-3.5-turbo");
    assert_eq!(config.jwt_access_token_secret, "secret");
    assert_eq!(config.jwt_refresh_token_secret, "secret");
    let config = SDKConfig::from_parts(
        "postgres://localhost/plexo".to_string(),
        "test-key".to_string(),
        Some("gpt-4".to_string()),
        Some("access".to_string()),
        None,
        Some("client".to_string()),
        None,
        None,
    );
    assert_eq!(config.llm_model_name, "gpt-4");
    assert_eq!(config.jwt_refresh_token_secret, "access");
    assert_eq!(config.github_client_id, Some("client".to_string()));
}

#[test]
fn version_resolution() {
    assert_eq!(resolve_version(Some("0.1.0".to_string())), Ok("0.1.0".to_string()));
    assert_eq!(resolve_version(None), Err(SDKError::VersionNotFound));
}

#[test]
fn sort_order_defaults_to_ascending() {
    assert_eq!(SortOrder::default(), SortOrder::Asc);
    assert_eq!(SortOrder::Asc.sql_keyword(), "ASC");
    assert_eq!(SortOrder::Desc.sql_keyword(), "DESC");
}

#[test]
fn member_and_change_vocabulary_round_trips() {
    for r in [MemberRole::Admin, MemberRole::Member, MemberRole::ReadOnly] {
        assert_eq!(MemberRole::from_str(r.as_str()), Some(r));
    }
    for o in [ChangeOperation::Create, ChangeOperation::Update, ChangeOperation::Delete] {
        assert_eq!(ChangeOperation::from_str(o.as_str()), Some(o));
    }
    for t in [
        ChangeResourceType::Task,
        ChangeResourceType::Project,
        ChangeResourceType::Member,
        ChangeResourceType::Team,
        ChangeResourceType::Asset,
        ChangeResourceType::Label,
        ChangeResourceType::Change,
    ] {
        assert_eq!(ChangeResourceType::from_str(t.as_str()), Some(t));
    }
    assert_eq!(MemberRole::from_str("Owner"), None);
}

#[test]
fn errors_describe_themselves() {
    assert_eq!(SDKError::ResourceNotFound.describe(), "resource not found");
    assert_eq!(SDKError::InvalidFilter.describe(), "invalid filter");
    assert_eq!(SDKError::BatchFetchFailed.describe(), "batch fetch failed");
}

#[test]
fn batch_insert_statement_and_binds_align() {
    let one = |title: &str| CreateTaskInput {
        title: title.to_string(),
        owner_id: 1,
        status: Some(TaskStatus::Backlog),
        priority: None,
        description: None,
        due_date: None,
        project_id: None,
        lead_id: None,
        parent_id: None,
    };
    let stmt = insert_tasks_statement(2);
    assert_eq!(
        stmt,
        "INSERT INTO tasks (title, description, owner_id, status, priority, due_date, \
         project_id, lead_id, parent_id) VALUES (?, ?, ?, ?, ?, ?, ?, ?, ?), \
         (?, ?, ?, ?, ?, ?, ?, ?, ?) RETURNING *"
    );
    let binds = create_tasks_binds(vec![one("first"), one("second")]);
    assert_eq!(binds.len(), 18);
    assert_eq!(placeholder_count(&stmt), binds.len());
    assert_eq!(binds[0], ScalarValue::Text("first".to_string()));
    assert_eq!(binds[3], ScalarValue::Text("Backlog".to_string()));
    assert_eq!(binds[9], ScalarValue::Text("second".to_string()));
}
