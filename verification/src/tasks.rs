//! The task record, its enumerated columns, and the pure halves of the task
//! CRUD operations: bind-list construction, row-to-record mapping with the
//! default-on-unknown decoding policy, and the update-merge semantics.
//!
//! Identifiers are 128-bit surrogate keys and instants are seconds since the
//! Unix epoch; the transport layer converts its own identifier and timestamp
//! types to and from these plain values at the boundary.

use vstd::prelude::*;
use vstd::string::StringExecFns;

use crate::commons::SQLComparison;
use crate::errors::SDKError;
use crate::filter::FieldDef;
use crate::filter::FieldType;
use crate::filter::FilterNode;
use crate::filter::ScalarValue;
use crate::filter::node_error;
use crate::filter::Schema;
use crate::filter::lookup_field;
use crate::filter::lookup_from;
use crate::filter::schema_fields_wf;
use crate::text::count_char;
use crate::text::lemma_count_char_absent;
use crate::text::str_eq;

verus! {

/// The workflow state of a task, stored as text in the `status` column.
#[derive(Clone, Copy, Debug, PartialEq, Eq, Structural)]
pub enum TaskStatus {
    Unset,
    Backlog,
    ToDo,
    InProgress,
    Done,
    Canceled,
}

/// The urgency of a task, stored as text in the `priority` column.
#[derive(Clone, Copy, Debug, PartialEq, Eq, Structural)]
pub enum TaskPriority {
    Unset,
    Low,
    Medium,
    High,
    Urgent,
}

/// The column text of each status.
pub open spec fn status_str(s: TaskStatus) -> Seq<char> {
    match s {
        TaskStatus::Unset => "None"@,
        TaskStatus::Backlog => "Backlog"@,
        TaskStatus::ToDo => "ToDo"@,
        TaskStatus::InProgress => "InProgress"@,
        TaskStatus::Done => "Done"@,
        TaskStatus::Canceled => "Canceled"@,
    }
}

/// The status a stored text denotes, if it is a known symbol.
pub open spec fn parse_status(s: Seq<char>) -> Option<TaskStatus> {
    if s == "None"@ {
        Some(TaskStatus::Unset)
    } else if s == "Backlog"@ {
        Some(TaskStatus::Backlog)
    } else if s == "ToDo"@ {
        Some(TaskStatus::ToDo)
    } else if s == "InProgress"@ {
        Some(TaskStatus::InProgress)
    } else if s == "Done"@ {
        Some(TaskStatus::Done)
    } else if s == "Canceled"@ {
        Some(TaskStatus::Canceled)
    } else {
        None
    }
}

/// The status a nullable stored text decodes to: the known symbol it names,
/// or the default for an absent or unrecognized one. Falling back instead of
/// failing trades strict validation for schema compatibility; it is this
/// crate's documented policy, and callers who must flag such rows can first
/// test the text with `TaskStatus::from_str`.
pub open spec fn decoded_status(s: Option<Seq<char>>) -> TaskStatus {
    match s {
        Some(text) => match parse_status(text) {
            Some(st) => st,
            None => TaskStatus::Unset,
        },
        None => TaskStatus::Unset,
    }
}

impl Default for TaskStatus {
    /// The defined default variant unknown or absent column text falls back to.
    fn default() -> (r: Self)
        ensures
            r == TaskStatus::Unset,
    {
        TaskStatus::Unset
    }
}

impl TaskStatus {
    /// The column text of this status.
    pub fn as_str(&self) -> (r: &'static str)
        ensures
            r@ == status_str(*self),
    {
        match self {
            TaskStatus::Unset => "None",
            TaskStatus::Backlog => "Backlog",
            TaskStatus::ToDo => "ToDo",
            TaskStatus::InProgress => "InProgress",
            TaskStatus::Done => "Done",
            TaskStatus::Canceled => "Canceled",
        }
    }

    /// The status `s` names, or `None` for an unknown symbol.
    pub fn from_str(s: &str) -> (r: Option<TaskStatus>)
        ensures
            r == parse_status(s@),
    {
        if str_eq(s, "None") {
            Some(TaskStatus::Unset)
        } else if str_eq(s, "Backlog") {
            Some(TaskStatus::Backlog)
        } else if str_eq(s, "ToDo") {
            Some(TaskStatus::ToDo)
        } else if str_eq(s, "InProgress") {
            Some(TaskStatus::InProgress)
        } else if str_eq(s, "Done") {
            Some(TaskStatus::Done)
        } else if str_eq(s, "Canceled") {
            Some(TaskStatus::Canceled)
        } else {
            None
        }
    }

    /// Decodes a nullable status column: the known symbol it names, `Unset`
    /// for an absent column, and — under the crate's documented
    /// default-on-unknown policy — `Unset` for unrecognized text too, so a
    /// row with a stale or foreign symbol still loads.
    pub fn from_optional_str(status: &Option<String>) -> (r: TaskStatus)
        ensures
            r == decoded_status(match status {
                Some(s) => Some(s@),
                None => None,
            }),
    {
        match status {
            Some(s) => match Self::from_str(s.as_str()) {
                Some(st) => st,
                None => TaskStatus::Unset,
            },
            None => TaskStatus::Unset,
        }
    }
}

/// The column text of each priority.
pub open spec fn priority_str(p: TaskPriority) -> Seq<char> {
    match p {
        TaskPriority::Unset => "None"@,
        TaskPriority::Low => "Low"@,
        TaskPriority::Medium => "Medium"@,
        TaskPriority::High => "High"@,
        TaskPriority::Urgent => "Urgent"@,
    }
}

/// The priority a stored text denotes, if it is a known symbol.
pub open spec fn parse_priority(s: Seq<char>) -> Option<TaskPriority> {
    if s == "None"@ {
        Some(TaskPriority::Unset)
    } else if s == "Low"@ {
        Some(TaskPriority::Low)
    } else if s == "Medium"@ {
        Some(TaskPriority::Medium)
    } else if s == "High"@ {
        Some(TaskPriority::High)
    } else if s == "Urgent"@ {
        Some(TaskPriority::Urgent)
    } else {
        None
    }
}

/// The priority a nullable stored text decodes to, defaulting like
/// [`decoded_status`].
pub open spec fn decoded_priority(s: Option<Seq<char>>) -> TaskPriority {
    match s {
        Some(text) => match parse_priority(text) {
            Some(p) => p,
            None => TaskPriority::Unset,
        },
        None => TaskPriority::Unset,
    }
}

impl Default for TaskPriority {
    /// The defined default variant unknown or absent column text falls back to.
    fn default() -> (r: Self)
        ensures
            r == TaskPriority::Unset,
    {
        TaskPriority::Unset
    }
}

impl TaskPriority {
    /// The column text of this priority.
    pub fn as_str(&self) -> (r: &'static str)
        ensures
            r@ == priority_str(*self),
    {
        match self {
            TaskPriority::Unset => "None",
            TaskPriority::Low => "Low",
            TaskPriority::Medium => "Medium",
            TaskPriority::High => "High",
            TaskPriority::Urgent => "Urgent",
        }
    }

    /// The priority `s` names, or `None` for an unknown symbol.
    pub fn from_str(s: &str) -> (r: Option<TaskPriority>)
        ensures
            r == parse_priority(s@),
    {
        if str_eq(s, "None") {
            Some(TaskPriority::Unset)
        } else if str_eq(s, "Low") {
            Some(TaskPriority::Low)
        } else if str_eq(s, "Medium") {
            Some(TaskPriority::Medium)
        } else if str_eq(s, "High") {
            Some(TaskPriority::High)
        } else if str_eq(s, "Urgent") {
            Some(TaskPriority::Urgent)
        } else {
            None
        }
    }

    /// Decodes a nullable priority column: the known symbol it names,
    /// `Unset` for an absent column, and — under the crate's documented
    /// default-on-unknown policy — `Unset` for unrecognized text too.
    pub fn from_optional_str(priority: &Option<String>) -> (r: TaskPriority)
        ensures
            r == decoded_priority(match priority {
                Some(s) => Some(s@),
                None => None,
            }),
    {
        match priority {
            Some(s) => match Self::from_str(s.as_str()) {
                Some(p) => p,
                None => TaskPriority::Unset,
            },
            None => TaskPriority::Unset,
        }
    }
}

/// A task record, as callers consume it.
#[derive(Debug, PartialEq)]
pub struct Task {
    pub id: u128,
    pub created_at: i64,
    pub updated_at: i64,
    pub title: String,
    pub description: Option<String>,
    pub owner_id: u128,
    pub status: TaskStatus,
    pub priority: TaskPriority,
    pub due_date: Option<i64>,
    pub project_id: Option<u128>,
    pub lead_id: Option<u128>,
    pub count: i32,
    pub parent_id: Option<u128>,
}

impl Task {
    /// A copy of the record, equal to it in every field.
    pub fn duplicate(&self) -> (r: Task)
        ensures
            r == *self,
    {
        Task {
            id: self.id,
            created_at: self.created_at,
            updated_at: self.updated_at,
            title: self.title.clone(),
            description: match &self.description {
                Some(d) => Some(d.clone()),
                None => None,
            },
            owner_id: self.owner_id,
            status: self.status,
            priority: self.priority,
            due_date: self.due_date,
            project_id: self.project_id,
            lead_id: self.lead_id,
            count: self.count,
            parent_id: self.parent_id,
        }
    }
}

/// One row of the `tasks` table, as the store hands it back: nullable
/// columns nullable, enumerated columns still text.
#[derive(Debug)]
pub struct TaskRow {
    pub id: u128,
    pub created_at: i64,
    pub updated_at: i64,
    pub title: String,
    pub description: Option<String>,
    pub owner_id: u128,
    pub status: Option<String>,
    pub priority: Option<String>,
    pub due_date: Option<i64>,
    pub project_id: Option<u128>,
    pub lead_id: Option<u128>,
    pub count: i32,
    pub parent_id: Option<u128>,
}

/// Maps one fetched row to the task record: every plain column carries over,
/// and the enumerated text columns decode with the default-on-unknown policy.
/// Every fetch path — single get, list query, create/update/delete returning
/// the row — shares this one mapping.
pub fn task_from_row(row: TaskRow) -> (t: Task)
    ensures
        t.id == row.id,
        t.created_at == row.created_at,
        t.updated_at == row.updated_at,
        t.title == row.title,
        t.description == row.description,
        t.owner_id == row.owner_id,
        t.status == decoded_status(match row.status {
            Some(s) => Some(s@),
            None => None,
        }),
        t.priority == decoded_priority(match row.priority {
            Some(s) => Some(s@),
            None => None,
        }),
        t.due_date == row.due_date,
        t.project_id == row.project_id,
        t.lead_id == row.lead_id,
        t.count == row.count,
        t.parent_id == row.parent_id,
{
    let status = TaskStatus::from_optional_str(&row.status);
    let priority = TaskPriority::from_optional_str(&row.priority);
    Task {
        id: row.id,
        created_at: row.created_at,
        updated_at: row.updated_at,
        title: row.title,
        description: row.description,
        owner_id: row.owner_id,
        status,
        priority,
        due_date: row.due_date,
        project_id: row.project_id,
        lead_id: row.lead_id,
        count: row.count,
        parent_id: row.parent_id,
    }
}

/// What a new task is created from; absent options take the column defaults.
#[derive(Debug)]
pub struct CreateTaskInput {
    pub title: String,
    pub owner_id: u128,
    pub status: Option<TaskStatus>,
    pub priority: Option<TaskPriority>,
    pub description: Option<String>,
    pub due_date: Option<i64>,
    pub project_id: Option<u128>,
    pub lead_id: Option<u128>,
    pub parent_id: Option<u128>,
}

/// A partial update: present fields replace the column, absent fields leave
/// it as it is (no field can be unset through an update).
#[derive(Debug)]
pub struct UpdateTaskInput {
    pub status: Option<TaskStatus>,
    pub priority: Option<TaskPriority>,
    pub title: Option<String>,
    pub description: Option<String>,
    pub due_date: Option<i64>,
    pub project_id: Option<u128>,
    pub lead_id: Option<u128>,
    pub parent_id: Option<u128>,
}

impl UpdateTaskInput {
    /// An update that touches nothing.
    pub fn empty() -> (r: Self)
        ensures
            r.status is None,
            r.priority is None,
            r.title is None,
            r.description is None,
            r.due_date is None,
            r.project_id is None,
            r.lead_id is None,
            r.parent_id is None,
    {
        UpdateTaskInput {
            status: None,
            priority: None,
            title: None,
            description: None,
            due_date: None,
            project_id: None,
            lead_id: None,
            parent_id: None,
        }
    }
}

/// The record an update leaves behind: each present input field replaces the
/// current value, each absent one keeps it — the merge the store's
/// `COALESCE(new, old)` columns perform, stated over plain records. An update
/// with every field absent returns the current record unchanged: updating
/// with nothing is a no-op, not an error and not a wipe.
pub fn apply_update(current: &Task, input: UpdateTaskInput) -> (r: Task)
    ensures
        r.id == current.id,
        r.created_at == current.created_at,
        r.updated_at == current.updated_at,
        r.owner_id == current.owner_id,
        r.count == current.count,
        r.status == (match input.status {
            Some(s) => s,
            None => current.status,
        }),
        r.priority == (match input.priority {
            Some(p) => p,
            None => current.priority,
        }),
        r.title == (match input.title {
            Some(t) => t,
            None => current.title,
        }),
        r.description == (match input.description {
            Some(d) => Some(d),
            None => current.description,
        }),
        r.due_date == (match input.due_date {
            Some(d) => Some(d),
            None => current.due_date,
        }),
        r.project_id == (match input.project_id {
            Some(p) => Some(p),
            None => current.project_id,
        }),
        r.lead_id == (match input.lead_id {
            Some(l) => Some(l),
            None => current.lead_id,
        }),
        r.parent_id == (match input.parent_id {
            Some(p) => Some(p),
            None => current.parent_id,
        }),
        (input.status is None && input.priority is None && input.title is None
            && input.description is None && input.due_date is None && input.project_id is None
            && input.lead_id is None && input.parent_id is None) ==> r == *current,
{
    Task {
        id: current.id,
        created_at: current.created_at,
        updated_at: current.updated_at,
        owner_id: current.owner_id,
        count: current.count,
        status: match input.status {
            Some(s) => s,
            None => current.status,
        },
        priority: match input.priority {
            Some(p) => p,
            None => current.priority,
        },
        title: match input.title {
            Some(t) => t,
            None => current.title.clone(),
        },
        description: match input.description {
            Some(d) => Some(d),
            None => match &current.description {
                Some(d) => Some(d.clone()),
                None => None,
            },
        },
        due_date: match input.due_date {
            Some(d) => Some(d),
            None => current.due_date,
        },
        project_id: match input.project_id {
            Some(p) => Some(p),
            None => current.project_id,
        },
        lead_id: match input.lead_id {
            Some(l) => Some(l),
            None => current.lead_id,
        },
        parent_id: match input.parent_id {
            Some(p) => Some(p),
            None => current.parent_id,
        },
    }
}

/// What the bind block of one inserted task must hold, slot by slot: the
/// column list `(title, description, owner_id, status, priority, due_date,
/// project_id, lead_id, parent_id)`, absent options bound as NULL, and
/// absent status and priority bound as their default variants' text —
/// exactly as the created row will read back.
pub open spec fn insert_bind_block_ok(input: CreateTaskInput, block: Seq<ScalarValue>) -> bool {
    &&& block.len() == 9
    &&& block[0] == ScalarValue::Text(input.title)
    &&& block[1] == (match input.description {
        Some(d) => ScalarValue::Text(d),
        None => ScalarValue::Null,
    })
    &&& block[2] == ScalarValue::Id(input.owner_id)
    &&& block[3] is Text && block[3]->Text_0@ == status_str(
        match input.status {
            Some(s) => s,
            None => TaskStatus::Unset,
        },
    )
    &&& block[4] is Text && block[4]->Text_0@ == priority_str(
        match input.priority {
            Some(p) => p,
            None => TaskPriority::Unset,
        },
    )
    &&& block[5] == (match input.due_date {
        Some(d) => ScalarValue::Timestamp(d),
        None => ScalarValue::Null,
    })
    &&& block[6] == (match input.project_id {
        Some(p) => ScalarValue::Id(p),
        None => ScalarValue::Null,
    })
    &&& block[7] == (match input.lead_id {
        Some(l) => ScalarValue::Id(l),
        None => ScalarValue::Null,
    })
    &&& block[8] == (match input.parent_id {
        Some(p) => ScalarValue::Id(p),
        None => ScalarValue::Null,
    })
}

/// The ordered bind values of the single-task insert statement.
pub fn create_task_binds(input: CreateTaskInput) -> (r: Vec<ScalarValue>)
    ensures
        insert_bind_block_ok(input, r@),
{
    let status = match input.status {
        Some(s) => s,
        None => TaskStatus::Unset,
    };
    let priority = match input.priority {
        Some(p) => p,
        None => TaskPriority::Unset,
    };
    let mut binds: Vec<ScalarValue> = Vec::new();
    binds.push(ScalarValue::Text(input.title));
    binds.push(match input.description {
        Some(d) => ScalarValue::Text(d),
        None => ScalarValue::Null,
    });
    binds.push(ScalarValue::Id(input.owner_id));
    binds.push(ScalarValue::Text(status.as_str().to_owned()));
    binds.push(ScalarValue::Text(priority.as_str().to_owned()));
    binds.push(match input.due_date {
        Some(d) => ScalarValue::Timestamp(d),
        None => ScalarValue::Null,
    });
    binds.push(match input.project_id {
        Some(p) => ScalarValue::Id(p),
        None => ScalarValue::Null,
    });
    binds.push(match input.lead_id {
        Some(l) => ScalarValue::Id(l),
        None => ScalarValue::Null,
    });
    binds.push(match input.parent_id {
        Some(p) => ScalarValue::Id(p),
        None => ScalarValue::Null,
    });
    binds
}

/// The ordered bind values of the task update statement, aligned with its
/// `SET <column> = COALESCE(?, <column>)` list `(status, priority, title,
/// description, due_date, project_id, lead_id, parent_id)`: a present field
/// binds its value, an absent one binds NULL so the column keeps what it has.
pub fn update_task_binds(input: UpdateTaskInput) -> (r: Vec<ScalarValue>)
    ensures
        r@.len() == 8,
        (match input.status {
            Some(s) => r@[0] is Text && r@[0]->Text_0@ == status_str(s),
            None => r@[0] == ScalarValue::Null,
        }),
        (match input.priority {
            Some(p) => r@[1] is Text && r@[1]->Text_0@ == priority_str(p),
            None => r@[1] == ScalarValue::Null,
        }),
        r@[2] == (match input.title {
            Some(t) => ScalarValue::Text(t),
            None => ScalarValue::Null,
        }),
        r@[3] == (match input.description {
            Some(d) => ScalarValue::Text(d),
            None => ScalarValue::Null,
        }),
        r@[4] == (match input.due_date {
            Some(d) => ScalarValue::Timestamp(d),
            None => ScalarValue::Null,
        }),
        r@[5] == (match input.project_id {
            Some(p) => ScalarValue::Id(p),
            None => ScalarValue::Null,
        }),
        r@[6] == (match input.lead_id {
            Some(l) => ScalarValue::Id(l),
            None => ScalarValue::Null,
        }),
        r@[7] == (match input.parent_id {
            Some(p) => ScalarValue::Id(p),
            None => ScalarValue::Null,
        }),
{
    let mut binds: Vec<ScalarValue> = Vec::new();
    binds.push(match input.status {
        Some(s) => ScalarValue::Text(s.as_str().to_owned()),
        None => ScalarValue::Null,
    });
    binds.push(match input.priority {
        Some(p) => ScalarValue::Text(p.as_str().to_owned()),
        None => ScalarValue::Null,
    });
    binds.push(match input.title {
        Some(t) => ScalarValue::Text(t),
        None => ScalarValue::Null,
    });
    binds.push(match input.description {
        Some(d) => ScalarValue::Text(d),
        None => ScalarValue::Null,
    });
    binds.push(match input.due_date {
        Some(d) => ScalarValue::Timestamp(d),
        None => ScalarValue::Null,
    });
    binds.push(match input.project_id {
        Some(p) => ScalarValue::Id(p),
        None => ScalarValue::Null,
    });
    binds.push(match input.lead_id {
        Some(l) => ScalarValue::Id(l),
        None => ScalarValue::Null,
    });
    binds.push(match input.parent_id {
        Some(p) => ScalarValue::Id(p),
        None => ScalarValue::Null,
    });
    binds
}

/// The task resource's field-mapping descriptor: the allow-listed fields a
/// filter or sort over tasks may name, each with its declared type, and the
/// table they live in. Nothing outside this list ever reaches query text.
/// The task allow-list, entry by entry: exactly these thirteen fields, in
/// this order, with these declared types — the injection barrier for every
/// filter and sort over tasks.
pub open spec fn task_fields_spec(fields: Seq<FieldDef>) -> bool {
    &&& fields.len() == 13
    &&& fields[0].name@ == "id"@ && fields[0].ty == FieldType::Id
    &&& fields[1].name@ == "created_at"@ && fields[1].ty == FieldType::Timestamp
    &&& fields[2].name@ == "updated_at"@ && fields[2].ty == FieldType::Timestamp
    &&& fields[3].name@ == "title"@ && fields[3].ty == FieldType::Text
    &&& fields[4].name@ == "description"@ && fields[4].ty == FieldType::Text
    &&& fields[5].name@ == "owner_id"@ && fields[5].ty == FieldType::Id
    &&& fields[6].name@ == "status"@ && fields[6].ty == FieldType::Text
    &&& fields[7].name@ == "priority"@ && fields[7].ty == FieldType::Text
    &&& fields[8].name@ == "due_date"@ && fields[8].ty == FieldType::Timestamp
    &&& fields[9].name@ == "project_id"@ && fields[9].ty == FieldType::Id
    &&& fields[10].name@ == "lead_id"@ && fields[10].ty == FieldType::Id
    &&& fields[11].name@ == "count"@ && fields[11].ty == FieldType::Integer
    &&& fields[12].name@ == "parent_id"@ && fields[12].ty == FieldType::Id
}

pub fn task_schema() -> (r: Schema)
    ensures
        task_fields_spec(r.fields@),
        schema_fields_wf(r.fields@),
        count_char(r.table@, '?') == 0,
        r.table@ == "tasks"@,
        lookup_field(r.fields@, "id"@) == Some(FieldType::Id),
        lookup_field(r.fields@, "created_at"@) == Some(FieldType::Timestamp),
        lookup_field(r.fields@, "updated_at"@) == Some(FieldType::Timestamp),
        lookup_field(r.fields@, "title"@) == Some(FieldType::Text),
        lookup_field(r.fields@, "description"@) == Some(FieldType::Text),
        lookup_field(r.fields@, "owner_id"@) == Some(FieldType::Id),
        lookup_field(r.fields@, "status"@) == Some(FieldType::Text),
        lookup_field(r.fields@, "priority"@) == Some(FieldType::Text),
        lookup_field(r.fields@, "due_date"@) == Some(FieldType::Timestamp),
        lookup_field(r.fields@, "project_id"@) == Some(FieldType::Id),
        lookup_field(r.fields@, "lead_id"@) == Some(FieldType::Id),
        lookup_field(r.fields@, "count"@) == Some(FieldType::Integer),
        lookup_field(r.fields@, "parent_id"@) == Some(FieldType::Id),
{
    let mut fields: Vec<FieldDef> = Vec::new();
    fields.push(FieldDef { name: "id".to_owned(), ty: FieldType::Id });
    fields.push(FieldDef { name: "created_at".to_owned(), ty: FieldType::Timestamp });
    fields.push(FieldDef { name: "updated_at".to_owned(), ty: FieldType::Timestamp });
    fields.push(FieldDef { name: "title".to_owned(), ty: FieldType::Text });
    fields.push(FieldDef { name: "description".to_owned(), ty: FieldType::Text });
    fields.push(FieldDef { name: "owner_id".to_owned(), ty: FieldType::Id });
    fields.push(FieldDef { name: "status".to_owned(), ty: FieldType::Text });
    fields.push(FieldDef { name: "priority".to_owned(), ty: FieldType::Text });
    fields.push(FieldDef { name: "due_date".to_owned(), ty: FieldType::Timestamp });
    fields.push(FieldDef { name: "project_id".to_owned(), ty: FieldType::Id });
    fields.push(FieldDef { name: "lead_id".to_owned(), ty: FieldType::Id });
    fields.push(FieldDef { name: "count".to_owned(), ty: FieldType::Integer });
    fields.push(FieldDef { name: "parent_id".to_owned(), ty: FieldType::Id });
    let r = Schema { table: "tasks".to_owned(), fields };
    proof {
        assert(count_char("tasks"@, '?') == 0) by {
            reveal_strlit("tasks");
            lemma_count_char_absent("tasks"@, '?');
        }
        assert forall|i: int|
            0 <= i < r.fields@.len() implies count_char(#[trigger] r.fields@[i].name@, '?')
            == 0 by {
            reveal_strlit("id");
            reveal_strlit("created_at");
            reveal_strlit("updated_at");
            reveal_strlit("title");
            reveal_strlit("description");
            reveal_strlit("owner_id");
            reveal_strlit("status");
            reveal_strlit("priority");
            reveal_strlit("due_date");
            reveal_strlit("project_id");
            reveal_strlit("lead_id");
            reveal_strlit("count");
            reveal_strlit("parent_id");
            lemma_count_char_absent(r.fields@[i].name@, '?');
        }
        reveal_strlit("id");
        reveal_strlit("created_at");
        reveal_strlit("updated_at");
        reveal_strlit("title");
        reveal_strlit("description");
        reveal_strlit("owner_id");
        reveal_strlit("status");
        reveal_strlit("priority");
        reveal_strlit("due_date");
        reveal_strlit("project_id");
        reveal_strlit("lead_id");
        reveal_strlit("count");
        reveal_strlit("parent_id");
        reveal_with_fuel(lookup_from, 15);
    }
    r
}

/// The placeholder group one inserted row contributes to the batch insert.
pub open spec fn insert_row_group() -> Seq<char> {
    "(?, ?, ?, ?, ?, ?, ?, ?, ?)"@
}

/// The `VALUES` groups of `n` inserted rows, comma-separated.
pub open spec fn insert_rows_text(n: nat) -> Seq<char>
    decreases n,
{
    if n <= 1 {
        insert_row_group()
    } else {
        insert_rows_text((n - 1) as nat) + ", "@ + insert_row_group()
    }
}

/// The head of the batch insert statement: the fixed column list.
pub open spec fn insert_head() -> Seq<char> {
    "INSERT INTO tasks (title, description, owner_id, status, priority, due_date, project_id, lead_id, parent_id) VALUES "@
}

/// The whole statement that inserts `n` tasks and returns their rows.
pub open spec fn insert_tasks_text(n: nat) -> Seq<char> {
    insert_head() + insert_rows_text(n) + " RETURNING *"@
}

/// Builds the one statement that inserts `n` tasks in a single round trip.
#[verifier::loop_isolation(false)]
pub fn insert_tasks_statement(n: usize) -> (r: String)
    requires
        n >= 1,
    ensures
        r@ == insert_tasks_text(n as nat),
{
    let mut s =
        "INSERT INTO tasks (title, description, owner_id, status, priority, due_date, project_id, lead_id, parent_id) VALUES ".to_owned();
    s.append("(?, ?, ?, ?, ?, ?, ?, ?, ?)");
    let mut k: usize = 1;
    while k < n
        invariant
            1 <= k <= n,
            s@ == insert_head() + insert_rows_text(k as nat),
        decreases n - k,
    {
        s.append(", ");
        s.append("(?, ?, ?, ?, ?, ?, ?, ?, ?)");
        k = k + 1;
    }
    s.append(" RETURNING *");
    s
}

/// The ordered bind values of the batch insert: the `i`-th row's nine-slot
/// block sits at offset `9 * i`, aligned with the `i`-th placeholder group.
#[verifier::loop_isolation(false)]
pub fn create_tasks_binds(inputs: Vec<CreateTaskInput>) -> (r: Vec<ScalarValue>)
    ensures
        r@.len() == 9 * inputs@.len(),
        forall|i: int|
            0 <= i < inputs@.len() ==> insert_bind_block_ok(
                #[trigger] inputs@[i],
                r@.subrange(9 * i, 9 * i + 9),
            ),
{
    let ghost inputs0 = inputs@;
    let n0: usize = inputs.len();
    proof {
        assert(inputs0.len() == n0);
    }
    let mut rest = inputs;
    let mut binds: Vec<ScalarValue> = Vec::new();
    let mut k: usize = 0;
    while rest.len() > 0
        invariant
            k + rest.len() == inputs0.len(),
            inputs0.len() <= usize::MAX,
            rest@ == inputs0.subrange(k as int, inputs0.len() as int),
            binds@.len() == 9 * k,
            forall|i: int|
                0 <= i < k ==> insert_bind_block_ok(
                    #[trigger] inputs0[i],
                    binds@.subrange(9 * i, 9 * i + 9),
                ),
        decreases rest.len(),
    {
        let input = rest.remove(0);
        proof {
            assert(input == inputs0[k as int]);
        }
        let ghost before = binds@;
        let mut block = create_task_binds(input);
        let ghost blockseq = block@;
        binds.append(&mut block);
        proof {
            assert(binds@ == before + blockseq);
            assert(binds@.subrange(9 * (k as int), 9 * (k as int) + 9) =~= blockseq);
            assert forall|i: int|
                0 <= i < k implies insert_bind_block_ok(
                #[trigger] inputs0[i],
                binds@.subrange(9 * i, 9 * i + 9),
            ) by {
                assert(binds@.subrange(9 * i, 9 * i + 9) =~= before.subrange(9 * i, 9 * i + 9));
            }
        }
        k = k + 1;
    }
    binds
}

/// The batch form of the placeholder law: the statement that inserts `n`
/// tasks holds exactly the `9 * n` placeholders its bind list fills.
pub proof fn lemma_insert_tasks_placeholders(n: nat)
    requires
        n >= 1,
    ensures
        count_char(insert_tasks_text(n), '?') == 9 * n,
{
    lemma_insert_rows_count(n);
    assert(count_char(insert_head(), '?') == 0) by {
        reveal_strlit(
            "INSERT INTO tasks (title, description, owner_id, status, priority, due_date, project_id, lead_id, parent_id) VALUES ",
        );
        lemma_count_char_absent(insert_head(), '?');
    }
    assert(count_char(" RETURNING *"@, '?') == 0) by {
        reveal_strlit(" RETURNING *");
        lemma_count_char_absent(" RETURNING *"@, '?');
    }
    crate::text::lemma_count_char_concat(insert_head(), insert_rows_text(n), '?');
    crate::text::lemma_count_char_concat(insert_head() + insert_rows_text(n), " RETURNING *"@, '?');
}

/// One placeholder group holds nine placeholders; `n` groups hold `9 * n`.
#[verifier::rlimit(60)]
proof fn lemma_insert_rows_count(n: nat)
    requires
        n >= 1,
    ensures
        count_char(insert_rows_text(n), '?') == 9 * n,
    decreases n,
{
    assert(count_char(insert_row_group(), '?') == 9) by {
        reveal_strlit("(?, ?, ?, ?, ?, ?, ?, ?, ?)");
        reveal_with_fuel(count_char, 30);
    }
    if n > 1 {
        lemma_insert_rows_count((n - 1) as nat);
        assert(count_char(", "@, '?') == 0) by {
            reveal_strlit(", ");
            lemma_count_char_absent(", "@, '?');
        }
        crate::text::lemma_count_char_concat(insert_rows_text((n - 1) as nat), ", "@, '?');
        crate::text::lemma_count_char_concat(
            insert_rows_text((n - 1) as nat) + ", "@,
            insert_row_group(),
            '?',
        );
    }
}


/// The task allow-list admits `status` as a text field: the presupposition
/// behind filtering tasks by their workflow state.
pub proof fn lemma_task_status_is_text(fields: Seq<FieldDef>)
    requires
        task_fields_spec(fields),
    ensures
        lookup_field(fields, "status"@) == Some(FieldType::Text),
{
    reveal_strlit("id");
    reveal_strlit("created_at");
    reveal_strlit("updated_at");
    reveal_strlit("title");
    reveal_strlit("description");
    reveal_strlit("owner_id");
    reveal_strlit("status");
    assert("status"@.len() == 6);
    assert("id"@.len() == 2);
    assert("created_at"@.len() == 10);
    assert("updated_at"@.len() == 10);
    assert("title"@.len() == 5);
    assert("description"@.len() == 11);
    assert("owner_id"@.len() == 8);
    assert(lookup_from(fields, "status"@, 6) == Some(FieldType::Text));
    assert(fields[5].name@ != "status"@);
    assert(lookup_from(fields, "status"@, 5) == Some(FieldType::Text));
    assert(fields[4].name@ != "status"@);
    assert(lookup_from(fields, "status"@, 4) == Some(FieldType::Text));
    assert(fields[3].name@ != "status"@);
    assert(lookup_from(fields, "status"@, 3) == Some(FieldType::Text));
    assert(fields[2].name@ != "status"@);
    assert(lookup_from(fields, "status"@, 2) == Some(FieldType::Text));
    assert(fields[1].name@ != "status"@);
    assert(lookup_from(fields, "status"@, 1) == Some(FieldType::Text));
    assert(fields[0].name@ != "status"@);
    assert(lookup_from(fields, "status"@, 0) == Some(FieldType::Text));
}

/// Over the task allow-list, an `In` comparison on `status` whose candidate
/// list is empty is rejected with exactly `InvalidFilter`: `IN ()` never
/// reaches query text.
pub proof fn lemma_empty_status_in_rejected(fields: Seq<FieldDef>, node: FilterNode)
    requires
        task_fields_spec(fields),
        node matches FilterNode::Comparison { field, op, value } && field@ == "status"@ && op
            == SQLComparison::In && (value matches ScalarValue::List(items) && items@.len() == 0),
    ensures
        node_error(fields, node) == Some(SDKError::InvalidFilter),
{
    lemma_task_status_is_text(fields);
}

} // verus!\n