//! The change-log vocabulary: what happened, and to which kind of resource.

use vstd::prelude::*;

use crate::text::str_eq;

verus! {

/// The operation a change records.
#[derive(Clone, Copy, Debug, PartialEq, Eq, Structural)]
pub enum ChangeOperation {
    Create,
    Update,
    Delete,
}

/// The kind of resource a change touched. This same tag names the resource a
/// filter, statement or batch load is about.
#[derive(Clone, Copy, Debug, PartialEq, Eq, Structural)]
pub enum ChangeResourceType {
    Task,
    Project,
    Member,
    Team,
    Asset,
    Label,
    Change,
}

/// The column text of each operation.
pub open spec fn operation_str(o: ChangeOperation) -> Seq<char> {
    match o {
        ChangeOperation::Create => "Create"@,
        ChangeOperation::Update => "Update"@,
        ChangeOperation::Delete => "Delete"@,
    }
}

/// The operation a stored text denotes, if it is a known symbol.
pub open spec fn parse_operation(s: Seq<char>) -> Option<ChangeOperation> {
    if s == "Create"@ {
        Some(ChangeOperation::Create)
    } else if s == "Update"@ {
        Some(ChangeOperation::Update)
    } else if s == "Delete"@ {
        Some(ChangeOperation::Delete)
    } else {
        None
    }
}

/// The column text of each resource kind.
pub open spec fn resource_type_str(t: ChangeResourceType) -> Seq<char> {
    match t {
        ChangeResourceType::Task => "Task"@,
        ChangeResourceType::Project => "Project"@,
        ChangeResourceType::Member => "Member"@,
        ChangeResourceType::Team => "Team"@,
        ChangeResourceType::Asset => "Asset"@,
        ChangeResourceType::Label => "Label"@,
        ChangeResourceType::Change => "Change"@,
    }
}

/// The resource kind a stored text denotes, if it is a known symbol.
pub open spec fn parse_resource_type(s: Seq<char>) -> Option<ChangeResourceType> {
    if s == "Task"@ {
        Some(ChangeResourceType::Task)
    } else if s == "Project"@ {
        Some(ChangeResourceType::Project)
    } else if s == "Member"@ {
        Some(ChangeResourceType::Member)
    } else if s == "Team"@ {
        Some(ChangeResourceType::Team)
    } else if s == "Asset"@ {
        Some(ChangeResourceType::Asset)
    } else if s == "Label"@ {
        Some(ChangeResourceType::Label)
    } else if s == "Change"@ {
        Some(ChangeResourceType::Change)
    } else {
        None
    }
}

impl ChangeOperation {
    /// The column text of this operation.
    pub fn as_str(&self) -> (r: &'static str)
        ensures
            r@ == operation_str(*self),
    {
        match self {
            ChangeOperation::Create => "Create",
            ChangeOperation::Update => "Update",
            ChangeOperation::Delete => "Delete",
        }
    }

    /// The operation `s` names, or `None` for an unknown symbol.
    pub fn from_str(s: &str) -> (r: Option<ChangeOperation>)
        ensures
            r == parse_operation(s@),
    {
        if str_eq(s, "Create") {
            Some(ChangeOperation::Create)
        } else if str_eq(s, "Update") {
            Some(ChangeOperation::Update)
        } else if str_eq(s, "Delete") {
            Some(ChangeOperation::Delete)
        } else {
            None
        }
    }
}

impl ChangeResourceType {
    /// The column text of this resource kind.
    pub fn as_str(&self) -> (r: &'static str)
        ensures
            r@ == resource_type_str(*self),
    {
        match self {
            ChangeResourceType::Task => "Task",
            ChangeResourceType::Project => "Project",
            ChangeResourceType::Member => "Member",
            ChangeResourceType::Team => "Team",
            ChangeResourceType::Asset => "Asset",
            ChangeResourceType::Label => "Label",
            ChangeResourceType::Change => "Change",
        }
    }

    /// The resource kind `s` names, or `None` for an unknown symbol.
    pub fn from_str(s: &str) -> (r: Option<ChangeResourceType>)
        ensures
            r == parse_resource_type(s@),
    {
        if str_eq(s, "Task") {
            Some(ChangeResourceType::Task)
        } else if str_eq(s, "Project") {
            Some(ChangeResourceType::Project)
        } else if str_eq(s, "Member") {
            Some(ChangeResourceType::Member)
        } else if str_eq(s, "Team") {
            Some(ChangeResourceType::Team)
        } else if str_eq(s, "Asset") {
            Some(ChangeResourceType::Asset)
        } else if str_eq(s, "Label") {
            Some(ChangeResourceType::Label)
        } else if str_eq(s, "Change") {
            Some(ChangeResourceType::Change)
        } else {
            None
        }
    }
}

} // verus!
