//! The member record's enumerated role.

use vstd::prelude::*;

use crate::text::str_eq;

verus! {

/// What a member may do within an organization.
#[derive(Clone, Copy, Debug, PartialEq, Eq, Structural)]
pub enum MemberRole {
    Admin,
    Member,
    ReadOnly,
}

/// The column text of each role.
pub open spec fn role_str(r: MemberRole) -> Seq<char> {
    match r {
        MemberRole::Admin => "Admin"@,
        MemberRole::Member => "Member"@,
        MemberRole::ReadOnly => "ReadOnly"@,
    }
}

/// The role a stored text denotes, if it is a known symbol.
pub open spec fn parse_role(s: Seq<char>) -> Option<MemberRole> {
    if s == "Admin"@ {
        Some(MemberRole::Admin)
    } else if s == "Member"@ {
        Some(MemberRole::Member)
    } else if s == "ReadOnly"@ {
        Some(MemberRole::ReadOnly)
    } else {
        None
    }
}

impl MemberRole {
    /// The column text of this role.
    pub fn as_str(&self) -> (r: &'static str)
        ensures
            r@ == role_str(*self),
    {
        match self {
            MemberRole::Admin => "Admin",
            MemberRole::Member => "Member",
            MemberRole::ReadOnly => "ReadOnly",
        }
    }

    /// The role `s` names, or `None` for an unknown symbol.
    pub fn from_str(s: &str) -> (r: Option<MemberRole>)
        ensures
            r == parse_role(s@),
    {
        if str_eq(s, "Admin") {
            Some(MemberRole::Admin)
        } else if str_eq(s, "Member") {
            Some(MemberRole::Member)
        } else if str_eq(s, "ReadOnly") {
            Some(MemberRole::ReadOnly)
        } else {
            None
        }
    }
}

} // verus!
