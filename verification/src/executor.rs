//! The reference executor: what a compiled query *means*.
//!
//! The statement builder produces text for a relational store; this module
//! gives the same query spec a direct meaning over in-memory task records —
//! the semantics fixtures and tests hold the compiler to. Comparisons follow
//! the store's conventions: any comparison against an absent (NULL) column
//! is false except the null tests themselves, text orders by character code,
//! and `LIKE` patterns use `%` and `_` wildcards.

use vstd::prelude::*;
use vstd::multiset::Multiset;

use crate::commons::SQLComparison;
use crate::commons::SortOrder;
use crate::errors::SDKError;
use crate::query::MAX_LIMIT;
use crate::query::QuerySpec;
use crate::query::SortSpec;
use crate::query::effective_limit;
use crate::query::query_error;
use crate::filter::FilterNode;
use crate::filter::ScalarValue;
use crate::filter::Schema;
use crate::filter::first_error_from;
use crate::filter::node_error;
use crate::filter::scalar_matches;
use crate::tasks::Task;
use crate::tasks::priority_str;
use crate::tasks::status_str;
use crate::text::lex_lt;
use crate::text::like_match;
use crate::text::like_matches;
use crate::text::str_eq;
use crate::text::str_lt;

verus! {

/// Whether some element of an `In` list is the text `t`.
pub open spec fn text_in_list(items: Seq<ScalarValue>, t: Seq<char>) -> bool {
    exists|j: int| 0 <= j < items.len() && items[j] is Text && items[j]->Text_0@ == t
}

/// Whether some element of an `In` list is the number `x` (a timestamp when
/// `want_ts`, a plain integer otherwise).
pub open spec fn num_in_list(items: Seq<ScalarValue>, x: i64, want_ts: bool) -> bool {
    exists|j: int| 0 <= j < items.len() && num_of(items[j], want_ts) == Some(x)
}

/// Whether some element of an `In` list is the identifier `x`.
pub open spec fn id_in_list(items: Seq<ScalarValue>, x: u128) -> bool {
    exists|j: int| 0 <= j < items.len() && items[j] == ScalarValue::Id(x)
}

/// The number a bound value carries, if it is of the wanted numeric kind.
pub open spec fn num_of(v: ScalarValue, want_ts: bool) -> Option<i64> {
    match v {
        ScalarValue::Integer(x) => if want_ts {
            None
        } else {
            Some(x)
        },
        ScalarValue::Timestamp(x) => if want_ts {
            Some(x)
        } else {
            None
        },
        _ => None,
    }
}

/// What one comparison means on a nullable text column holding `fv`.
pub open spec fn eval_text(fv: Option<Seq<char>>, op: SQLComparison, value: ScalarValue) -> bool {
    match op {
        SQLComparison::IsNull => fv is None,
        SQLComparison::IsNotNull => fv is Some,
        _ => match fv {
            None => false,
            Some(t) => match op {
                SQLComparison::Equal => value is Text && value->Text_0@ == t,
                SQLComparison::NotEqual => value is Text && value->Text_0@ != t,
                SQLComparison::GreaterThan => value is Text && lex_lt(value->Text_0@, t),
                SQLComparison::GreaterThanOrEqual => value is Text && !lex_lt(t, value->Text_0@),
                SQLComparison::LessThan => value is Text && lex_lt(t, value->Text_0@),
                SQLComparison::LessThanOrEqual => value is Text && !lex_lt(value->Text_0@, t),
                SQLComparison::Like => value is Text && like_matches(value->Text_0@, t),
                SQLComparison::NotLike => value is Text && !like_matches(value->Text_0@, t),
                SQLComparison::In => value is List && text_in_list(value->List_0@, t),
                SQLComparison::NotIn => value is List && !text_in_list(value->List_0@, t),
                _ => false,
            },
        },
    }
}

/// What one comparison means on a nullable numeric column holding `fv`.
pub open spec fn eval_num(
    fv: Option<i64>,
    op: SQLComparison,
    value: ScalarValue,
    want_ts: bool,
) -> bool {
    match op {
        SQLComparison::IsNull => fv is None,
        SQLComparison::IsNotNull => fv is Some,
        _ => match fv {
            None => false,
            Some(x) => match op {
                SQLComparison::Equal => num_of(value, want_ts) == Some(x),
                SQLComparison::NotEqual => num_of(value, want_ts) is Some && num_of(value, want_ts)
                    != Some(x),
                SQLComparison::GreaterThan => num_of(value, want_ts) is Some && x > num_of(
                    value,
                    want_ts,
                ).unwrap(),
                SQLComparison::GreaterThanOrEqual => num_of(value, want_ts) is Some && x >= num_of(
                    value,
                    want_ts,
                ).unwrap(),
                SQLComparison::LessThan => num_of(value, want_ts) is Some && x < num_of(
                    value,
                    want_ts,
                ).unwrap(),
                SQLComparison::LessThanOrEqual => num_of(value, want_ts) is Some && x <= num_of(
                    value,
                    want_ts,
                ).unwrap(),
                SQLComparison::In => value is List && num_in_list(value->List_0@, x, want_ts),
                SQLComparison::NotIn => value is List && !num_in_list(value->List_0@, x, want_ts),
                _ => false,
            },
        },
    }
}

/// What one comparison means on a nullable identifier column holding `fv`.
pub open spec fn eval_id(fv: Option<u128>, op: SQLComparison, value: ScalarValue) -> bool {
    match op {
        SQLComparison::IsNull => fv is None,
        SQLComparison::IsNotNull => fv is Some,
        _ => match fv {
            None => false,
            Some(x) => match op {
                SQLComparison::Equal => value == ScalarValue::Id(x),
                SQLComparison::NotEqual => value is Id && value != ScalarValue::Id(x),
                SQLComparison::GreaterThan => value is Id && x > value->Id_0,
                SQLComparison::GreaterThanOrEqual => value is Id && x >= value->Id_0,
                SQLComparison::LessThan => value is Id && x < value->Id_0,
                SQLComparison::LessThanOrEqual => value is Id && x <= value->Id_0,
                SQLComparison::In => value is List && id_in_list(value->List_0@, x),
                SQLComparison::NotIn => value is List && !id_in_list(value->List_0@, x),
                _ => false,
            },
        },
    }
}

/// What one comparison means on a task: the named column's value, compared
/// under its type's rules. A field outside the task's columns matches
/// nothing (validation rejects such filters before anything runs).
pub open spec fn eval_task_comparison(
    t: Task,
    field: Seq<char>,
    op: SQLComparison,
    value: ScalarValue,
) -> bool {
    if field == "id"@ {
        eval_id(Some(t.id), op, value)
    } else if field == "created_at"@ {
        eval_num(Some(t.created_at), op, value, true)
    } else if field == "updated_at"@ {
        eval_num(Some(t.updated_at), op, value, true)
    } else if field == "title"@ {
        eval_text(Some(t.title@), op, value)
    } else if field == "description"@ {
        eval_text(
            match t.description {
                Some(d) => Some(d@),
                None => None,
            },
            op,
            value,
        )
    } else if field == "owner_id"@ {
        eval_id(Some(t.owner_id), op, value)
    } else if field == "status"@ {
        eval_text(Some(status_str(t.status)), op, value)
    } else if field == "priority"@ {
        eval_text(Some(priority_str(t.priority)), op, value)
    } else if field == "due_date"@ {
        eval_num(t.due_date, op, value, true)
    } else if field == "project_id"@ {
        eval_id(t.project_id, op, value)
    } else if field == "lead_id"@ {
        eval_id(t.lead_id, op, value)
    } else if field == "count"@ {
        eval_num(Some(t.count as i64), op, value, false)
    } else if field == "parent_id"@ {
        eval_id(t.parent_id, op, value)
    } else {
        false
    }
}

/// Whether every one of `cs[i..]` matches `t`.
pub open spec fn all_match_from(t: Task, cs: Seq<FilterNode>, i: nat) -> bool
    decreases cs, cs.len() - i,
{
    if i >= cs.len() {
        true
    } else {
        task_matches(t, cs[i as int]) && all_match_from(t, cs, i + 1)
    }
}

/// Whether at least one of `cs[i..]` matches `t`.
pub open spec fn any_match_from(t: Task, cs: Seq<FilterNode>, i: nat) -> bool
    decreases cs, cs.len() - i,
{
    if i >= cs.len() {
        false
    } else {
        task_matches(t, cs[i as int]) || any_match_from(t, cs, i + 1)
    }
}

/// Whether a task satisfies a filter tree: the meaning the compiled fragment
/// is intended to have when the store evaluates it. `And` of nothing accepts
/// everything, `Or` of nothing accepts nothing.
pub open spec fn task_matches(t: Task, node: FilterNode) -> bool
    decreases node, 0nat,
{
    match node {
        FilterNode::Comparison { field, op, value } => eval_task_comparison(t, field@, op, value),
        FilterNode::And(cs) => all_match_from(t, cs@, 0),
        FilterNode::Or(cs) => any_match_from(t, cs@, 0),
    }
}

/// Whether some element of the list is the text `t`, executably.
#[verifier::loop_isolation(false)]
fn text_in_list_exec(items: &Vec<ScalarValue>, t: &str) -> (r: bool)
    ensures
        r == text_in_list(items@, t@),
{
    let n = items.len();
    for j in 0..n
        invariant
            forall|k: int| 0 <= k < j ==> !(items@[k] is Text && items@[k]->Text_0@ == t@),
    {
        match &items[j] {
            ScalarValue::Text(s) => {
                if str_eq(s.as_str(), t) {
                    return true;
                }
            },
            _ => {},
        }
    }
    false
}

/// Whether some element of the list is the number `x`, executably.
#[verifier::loop_isolation(false)]
fn num_in_list_exec(items: &Vec<ScalarValue>, x: i64, want_ts: bool) -> (r: bool)
    ensures
        r == num_in_list(items@, x, want_ts),
{
    let n = items.len();
    for j in 0..n
        invariant
            forall|k: int| 0 <= k < j ==> num_of(items@[k], want_ts) != Some(x),
    {
        let hit = match &items[j] {
            ScalarValue::Integer(y) => !want_ts && *y == x,
            ScalarValue::Timestamp(y) => want_ts && *y == x,
            _ => false,
        };
        if hit {
            return true;
        }
    }
    false
}

/// Whether some element of the list is the identifier `x`, executably.
#[verifier::loop_isolation(false)]
fn id_in_list_exec(items: &Vec<ScalarValue>, x: u128) -> (r: bool)
    ensures
        r == id_in_list(items@, x),
{
    let n = items.len();
    for j in 0..n
        invariant
            forall|k: int| 0 <= k < j ==> items@[k] != ScalarValue::Id(x),
    {
        match &items[j] {
            ScalarValue::Id(y) => {
                if *y == x {
                    return true;
                }
            },
            _ => {},
        }
    }
    false
}

/// Evaluates one comparison on a nullable text column.
fn eval_text_exec(fv: Option<&String>, op: SQLComparison, value: &ScalarValue) -> (r: bool)
    ensures
        r == eval_text(
            match fv {
                Some(s) => Some(s@),
                None => None,
            },
            op,
            *value,
        ),
{
    if op == SQLComparison::IsNull {
        return fv.is_none();
    }
    if op == SQLComparison::IsNotNull {
        return fv.is_some();
    }
    let t = match fv {
        Some(s) => s,
        None => {
            return false;
        },
    };
    match op {
        SQLComparison::Equal => match value {
            ScalarValue::Text(v) => str_eq(v.as_str(), t.as_str()),
            _ => false,
        },
        SQLComparison::NotEqual => match value {
            ScalarValue::Text(v) => !str_eq(v.as_str(), t.as_str()),
            _ => false,
        },
        SQLComparison::GreaterThan => match value {
            ScalarValue::Text(v) => str_lt(v.as_str(), t.as_str()),
            _ => false,
        },
        SQLComparison::GreaterThanOrEqual => match value {
            ScalarValue::Text(v) => !str_lt(t.as_str(), v.as_str()),
            _ => false,
        },
        SQLComparison::LessThan => match value {
            ScalarValue::Text(v) => str_lt(t.as_str(), v.as_str()),
            _ => false,
        },
        SQLComparison::LessThanOrEqual => match value {
            ScalarValue::Text(v) => !str_lt(v.as_str(), t.as_str()),
            _ => false,
        },
        SQLComparison::Like => match value {
            ScalarValue::Text(v) => like_match(v.as_str(), t.as_str()),
            _ => false,
        },
        SQLComparison::NotLike => match value {
            ScalarValue::Text(v) => !like_match(v.as_str(), t.as_str()),
            _ => false,
        },
        SQLComparison::In => match value {
            ScalarValue::List(items) => text_in_list_exec(items, t.as_str()),
            _ => false,
        },
        SQLComparison::NotIn => match value {
            ScalarValue::List(items) => !text_in_list_exec(items, t.as_str()),
            _ => false,
        },
        _ => false,
    }
}

/// Evaluates one comparison on a nullable numeric column.
fn eval_num_exec(fv: Option<i64>, op: SQLComparison, value: &ScalarValue, want_ts: bool) -> (r:
    bool)
    ensures
        r == eval_num(fv, op, *value, want_ts),
{
    if op == SQLComparison::IsNull {
        return fv.is_none();
    }
    if op == SQLComparison::IsNotNull {
        return fv.is_some();
    }
    let x = match fv {
        Some(x) => x,
        None => {
            return false;
        },
    };
    if op == SQLComparison::In || op == SQLComparison::NotIn {
        return match value {
            ScalarValue::List(items) => {
                let found = num_in_list_exec(items, x, want_ts);
                if op == SQLComparison::In {
                    found
                } else {
                    !found
                }
            },
            _ => false,
        };
    }
    let v = match value {
        ScalarValue::Integer(y) => {
            if want_ts {
                return false;
            }
            *y
        },
        ScalarValue::Timestamp(y) => {
            if !want_ts {
                return false;
            }
            *y
        },
        _ => {
            return false;
        },
    };
    match op {
        SQLComparison::Equal => x == v,
        SQLComparison::NotEqual => x != v,
        SQLComparison::GreaterThan => x > v,
        SQLComparison::GreaterThanOrEqual => x >= v,
        SQLComparison::LessThan => x < v,
        SQLComparison::LessThanOrEqual => x <= v,
        _ => false,
    }
}

/// Evaluates one comparison on a nullable identifier column.
fn eval_id_exec(fv: Option<u128>, op: SQLComparison, value: &ScalarValue) -> (r: bool)
    ensures
        r == eval_id(fv, op, *value),
{
    if op == SQLComparison::IsNull {
        return fv.is_none();
    }
    if op == SQLComparison::IsNotNull {
        return fv.is_some();
    }
    let x = match fv {
        Some(x) => x,
        None => {
            return false;
        },
    };
    if op == SQLComparison::In || op == SQLComparison::NotIn {
        return match value {
            ScalarValue::List(items) => {
                let found = id_in_list_exec(items, x);
                if op == SQLComparison::In {
                    found
                } else {
                    !found
                }
            },
            _ => false,
        };
    }
    let v = match value {
        ScalarValue::Id(y) => *y,
        _ => {
            return false;
        },
    };
    match op {
        SQLComparison::Equal => x == v,
        SQLComparison::NotEqual => x != v,
        SQLComparison::GreaterThan => x > v,
        SQLComparison::GreaterThanOrEqual => x >= v,
        SQLComparison::LessThan => x < v,
        SQLComparison::LessThanOrEqual => x <= v,
        _ => false,
    }
}

/// Evaluates one comparison against the task's named column.
fn eval_task_comparison_exec(t: &Task, field: &String, op: SQLComparison, value: &ScalarValue) -> (
    r: bool)
    ensures
        r == eval_task_comparison(*t, field@, op, *value),
{
    let f = field.as_str();
    if str_eq(f, "id") {
        eval_id_exec(Some(t.id), op, value)
    } else if str_eq(f, "created_at") {
        eval_num_exec(Some(t.created_at), op, value, true)
    } else if str_eq(f, "updated_at") {
        eval_num_exec(Some(t.updated_at), op, value, true)
    } else if str_eq(f, "title") {
        eval_text_exec(Some(&t.title), op, value)
    } else if str_eq(f, "description") {
        eval_text_exec(
            match &t.description {
                Some(d) => Some(d),
                None => None,
            },
            op,
            value,
        )
    } else if str_eq(f, "owner_id") {
        eval_id_exec(Some(t.owner_id), op, value)
    } else if str_eq(f, "status") {
        let s = t.status.as_str().to_owned();
        eval_text_exec(Some(&s), op, value)
    } else if str_eq(f, "priority") {
        let s = t.priority.as_str().to_owned();
        eval_text_exec(Some(&s), op, value)
    } else if str_eq(f, "due_date") {
        eval_num_exec(t.due_date, op, value, true)
    } else if str_eq(f, "project_id") {
        eval_id_exec(t.project_id, op, value)
    } else if str_eq(f, "lead_id") {
        eval_id_exec(t.lead_id, op, value)
    } else if str_eq(f, "count") {
        eval_num_exec(Some(t.count as i64), op, value, false)
    } else if str_eq(f, "parent_id") {
        eval_id_exec(t.parent_id, op, value)
    } else {
        false
    }
}

/// Whether the task satisfies the filter, under [`task_matches`].
#[verifier::loop_isolation(false)]
pub fn task_matches_exec(t: &Task, node: &FilterNode) -> (r: bool)
    ensures
        r == task_matches(*t, *node),
    decreases node, 1nat,
{
    let ghost n0 = *node;
    match node {
        FilterNode::Comparison { field, op, value } => eval_task_comparison_exec(
            t,
            field,
            *op,
            value,
        ),
        FilterNode::And(cs) => {
            let n = cs.len();
            proof {
                assert(decreases_to!(n0 => *cs));
            }
            for i in 0..n
                invariant
                    n == cs@.len(),
                    all_match_from(*t, cs@, 0) == all_match_from(*t, cs@, i as nat),
            {
                proof {
                    assert(decreases_to!(cs@ => cs@[i as int]));
                }
                if !task_matches_exec(t, &cs[i]) {
                    return false;
                }
            }
            true
        },
        FilterNode::Or(cs) => {
            let n = cs.len();
            proof {
                assert(decreases_to!(n0 => *cs));
            }
            for i in 0..n
                invariant
                    n == cs@.len(),
                    any_match_from(*t, cs@, 0) == any_match_from(*t, cs@, i as nat),
            {
                proof {
                    assert(decreases_to!(cs@ => cs@[i as int]));
                }
                if task_matches_exec(t, &cs[i]) {
                    return true;
                }
            }
            false
        },
    }
}

/// Validates a filter tree against the allow-list without compiling it,
/// reporting exactly what `compile_filter` would.
#[verifier::loop_isolation(false)]
pub fn validate_filter(schema: &Schema, node: &FilterNode) -> (r: Option<SDKError>)
    ensures
        r == node_error(schema.fields@, *node),
    decreases node, 1nat,
{
    let ghost n0 = *node;
    match node {
        FilterNode::Comparison { field, op, value } => {
            let ty = match schema.field_type_of(field) {
                None => {
                    return Some(SDKError::UnknownField);
                },
                Some(ty) => ty,
            };
            if *op == SQLComparison::IsNull || *op == SQLComparison::IsNotNull {
                match value {
                    ScalarValue::Null => None,
                    _ => Some(SDKError::InvalidFilter),
                }
            } else if *op == SQLComparison::In || *op == SQLComparison::NotIn {
                match value {
                    ScalarValue::List(items) => {
                        if items.len() == 0 {
                            return Some(SDKError::InvalidFilter);
                        }
                        let n = items.len();
                        for j in 0..n
                            invariant
                                n == items@.len(),
                                forall|k: int| 0 <= k < j ==> scalar_matches(items@[k], ty),
                        {
                            if !items[j].matches_type(ty) {
                                proof {
                                    assert(exists|w: int|
                                        0 <= w < items@.len() && !scalar_matches(items@[w], ty)) by {
                                        assert(!scalar_matches(items@[j as int], ty));
                                    }
                                }
                                return Some(SDKError::TypeMismatch);
                            }
                        }
                        None
                    },
                    _ => Some(SDKError::TypeMismatch),
                }
            } else {
                let well_typed = value.matches_type(ty) && (!(*op == SQLComparison::Like || *op
                    == SQLComparison::NotLike) || ty == crate::filter::FieldType::Text);
                if well_typed {
                    None
                } else {
                    Some(SDKError::TypeMismatch)
                }
            }
        },
        FilterNode::And(cs) => validate_children(schema, cs, Ghost(n0)),
        FilterNode::Or(cs) => validate_children(schema, cs, Ghost(n0)),
    }
}

/// Validates each child of a combinator, left to right.
#[verifier::loop_isolation(false)]
fn validate_children(schema: &Schema, cs: &Vec<FilterNode>, Ghost(parent): Ghost<FilterNode>) -> (
    r: Option<SDKError>)
    requires
        decreases_to!(parent => *cs),
        parent == FilterNode::And(*cs) || parent == FilterNode::Or(*cs),
    ensures
        r == first_error_from(schema.fields@, cs@, 0),
    decreases parent, 0nat,
{
    let n = cs.len();
    for i in 0..n
        invariant
            n == cs@.len(),
            first_error_from(schema.fields@, cs@, 0) == first_error_from(
                schema.fields@,
                cs@,
                i as nat,
            ),
    {
        proof {
            assert(decreases_to!(cs@ => cs@[i as int]));
        }
        match validate_filter(schema, &cs[i]) {
            Some(e) => {
                return Some(e);
            },
            None => {},
        }
    }
    None
}

/// Strict order between two optional numbers: an absent value sorts last.
pub open spec fn opt_i64_lt(x: Option<i64>, y: Option<i64>) -> bool {
    match x {
        Some(a) => match y {
            Some(b) => a < b,
            None => true,
        },
        None => false,
    }
}

/// Strict order between two optional identifiers: an absent value sorts last.
pub open spec fn opt_u128_lt(x: Option<u128>, y: Option<u128>) -> bool {
    match x {
        Some(a) => match y {
            Some(b) => a < b,
            None => true,
        },
        None => false,
    }
}

/// Whether `a`'s named column sorts strictly before `b`'s, in the column
/// type's natural ascending order (text by character code, absent last).
pub open spec fn task_field_lt(a: Task, b: Task, field: Seq<char>) -> bool {
    if field == "id"@ {
        a.id < b.id
    } else if field == "created_at"@ {
        a.created_at < b.created_at
    } else if field == "updated_at"@ {
        a.updated_at < b.updated_at
    } else if field == "title"@ {
        lex_lt(a.title@, b.title@)
    } else if field == "description"@ {
        opt_text_lt(opt_view(a.description), opt_view(b.description))
    } else if field == "owner_id"@ {
        a.owner_id < b.owner_id
    } else if field == "status"@ {
        lex_lt(status_str(a.status), status_str(b.status))
    } else if field == "priority"@ {
        lex_lt(priority_str(a.priority), priority_str(b.priority))
    } else if field == "due_date"@ {
        opt_i64_lt(a.due_date, b.due_date)
    } else if field == "project_id"@ {
        opt_u128_lt(a.project_id, b.project_id)
    } else if field == "lead_id"@ {
        opt_u128_lt(a.lead_id, b.lead_id)
    } else if field == "count"@ {
        a.count < b.count
    } else if field == "parent_id"@ {
        opt_u128_lt(a.parent_id, b.parent_id)
    } else {
        false
    }
}

/// The characters of an optional text value.
pub open spec fn opt_view(o: Option<String>) -> Option<Seq<char>> {
    match o {
        Some(s) => Some(s@),
        None => None,
    }
}

/// Strict order between two optional texts: an absent value sorts last.
pub open spec fn opt_text_lt(x: Option<Seq<char>>, y: Option<Seq<char>>) -> bool {
    match x {
        Some(a) => match y {
            Some(b) => lex_lt(a, b),
            None => true,
        },
        None => false,
    }
}

/// Whether `a` sorts strictly before `b` under the sort key alone.
pub open spec fn key_lt(s: SortSpec, a: Task, b: Task) -> bool {
    match s.order {
        SortOrder::Asc => task_field_lt(a, b, s.field@),
        SortOrder::Desc => task_field_lt(b, a, s.field@),
    }
}

/// The total result order: the sort key when one is given, ties — and the
/// no-sort case — broken by primary key ascending, so the order is
/// deterministic and pagination cannot reshuffle between pages.
pub open spec fn sort_le(sort: Option<SortSpec>, a: Task, b: Task) -> bool {
    match sort {
        None => a.id <= b.id,
        Some(s) => key_lt(s, a, b) || (!key_lt(s, a, b) && !key_lt(s, b, a) && a.id <= b.id),
    }
}

/// Any two records are ordered one way or the other.
pub proof fn lemma_sort_le_connex(sort: Option<SortSpec>, a: Task, b: Task)
    ensures
        sort_le(sort, a, b) || sort_le(sort, b, a),
{
}

/// Where `x` belongs in `s` (scanning from `i`): before the first record
/// that does not sort below it.
pub open spec fn insert_pos_from(x: Task, s: Seq<Task>, sort: Option<SortSpec>, i: nat) -> nat
    decreases s.len() - i,
{
    if i >= s.len() {
        s.len()
    } else if sort_le(sort, x, s[i as int]) {
        i
    } else {
        insert_pos_from(x, s, sort, i + 1)
    }
}

/// Where `x` belongs in `s`.
pub open spec fn insert_pos(x: Task, s: Seq<Task>, sort: Option<SortSpec>) -> nat {
    insert_pos_from(x, s, sort, 0)
}

/// `s` with `x` inserted at its position.
pub open spec fn insert_sorted(x: Task, s: Seq<Task>, sort: Option<SortSpec>) -> Seq<Task> {
    let p = insert_pos(x, s, sort) as int;
    s.take(p) + seq![x] + s.skip(p)
}

/// The first `k` records of `s`, sorted by repeated insertion.
pub open spec fn sorted_upto(s: Seq<Task>, sort: Option<SortSpec>, k: nat) -> Seq<Task>
    decreases k,
{
    if k == 0 || k > s.len() {
        Seq::<Task>::empty()
    } else {
        insert_sorted(s[k - 1], sorted_upto(s, sort, (k - 1) as nat), sort)
    }
}

/// `s` sorted under the result order: the one sequence every query over
/// these records pages through.
pub open spec fn sort_tasks(s: Seq<Task>, sort: Option<SortSpec>) -> Seq<Task> {
    sorted_upto(s, sort, s.len())
}

/// The insert position lies between the scan start and the end, no record
/// before it sorts at-or-above `x`, and the record at it (if any) does.
proof fn lemma_insert_pos_props(x: Task, s: Seq<Task>, sort: Option<SortSpec>, i: nat)
    requires
        i <= s.len(),
    ensures
        i <= insert_pos_from(x, s, sort, i) <= s.len(),
        forall|j: int|
            i <= j < insert_pos_from(x, s, sort, i) ==> !sort_le(sort, x, #[trigger] s[j]),
        insert_pos_from(x, s, sort, i) < s.len() ==> sort_le(
            sort,
            x,
            s[insert_pos_from(x, s, sort, i) as int],
        ),
    decreases s.len() - i,
{
    if i < s.len() && !sort_le(sort, x, s[i as int]) {
        lemma_insert_pos_props(x, s, sort, i + 1);
    }
}

/// Records sorted pairwise along the sequence.
pub open spec fn sorted_adj(s: Seq<Task>, sort: Option<SortSpec>) -> bool {
    forall|i: int| 0 <= i < s.len() - 1 ==> sort_le(sort, #[trigger] s[i], s[i + 1])
}

/// Inserting into a sorted sequence keeps it sorted.
proof fn lemma_insert_sorted_adj(x: Task, s: Seq<Task>, sort: Option<SortSpec>)
    requires
        sorted_adj(s, sort),
    ensures
        sorted_adj(insert_sorted(x, s, sort), sort),
        insert_sorted(x, s, sort).len() == s.len() + 1,
{
    lemma_insert_pos_props(x, s, sort, 0);
    let p = insert_pos(x, s, sort) as int;
    let r = insert_sorted(x, s, sort);
    assert forall|i: int| 0 <= i < r.len() - 1 implies sort_le(sort, #[trigger] r[i], r[i + 1]) by {
        if i + 1 < p {
            assert(r[i] == s[i] && r[i + 1] == s[i + 1]);
        } else if i + 1 == p {
            assert(r[i] == s[i] && r[i + 1] == x);
            assert(!sort_le(sort, x, s[i]));
            lemma_sort_le_connex(sort, x, s[i]);
        } else if i == p {
            assert(r[i] == x && r[i + 1] == s[i]);
        } else {
            assert(r[i] == s[i - 1] && r[i + 1] == s[i]);
        }
    }
}

/// The sorted prefix is sorted, and as long as the prefix.
proof fn lemma_sorted_upto_props(s: Seq<Task>, sort: Option<SortSpec>, k: nat)
    requires
        k <= s.len(),
    ensures
        sorted_adj(sorted_upto(s, sort, k), sort),
        sorted_upto(s, sort, k).len() == k,
    decreases k,
{
    if k > 0 {
        lemma_sorted_upto_props(s, sort, (k - 1) as nat);
        lemma_insert_sorted_adj(s[k - 1], sorted_upto(s, sort, (k - 1) as nat), sort);
    }
}

/// Sorting orders the records pairwise and keeps their number: the result
/// order is deterministic, fixed by the sort key and the primary key alone.
pub proof fn lemma_sort_tasks_sorted(s: Seq<Task>, sort: Option<SortSpec>)
    ensures
        sorted_adj(sort_tasks(s, sort), sort),
        sort_tasks(s, sort).len() == s.len(),
{
    lemma_sorted_upto_props(s, sort, s.len());
}

/// Inserting adds exactly the one record to the multiset.
proof fn lemma_insert_sorted_multiset(x: Task, s: Seq<Task>, sort: Option<SortSpec>)
    ensures
        insert_sorted(x, s, sort).to_multiset() =~= s.to_multiset().insert(x),
{
    broadcast use vstd::seq_lib::group_to_multiset_ensures;

    lemma_insert_pos_props(x, s, sort, 0);
    let p = insert_pos(x, s, sort) as int;
    let front = s.take(p);
    let back = s.skip(p);
    let mid = seq![x] + back;
    assert(insert_sorted(x, s, sort) =~= front + mid);
    vstd::seq_lib::lemma_multiset_commutative(front, mid);
    vstd::seq_lib::lemma_multiset_commutative(seq![x], back);
    vstd::seq_lib::lemma_multiset_commutative(front, back);
    assert(front + back =~= s);
    assert(seq![x] =~= Seq::<Task>::empty().push(x));
    assert(insert_sorted(x, s, sort).to_multiset() =~= s.to_multiset().insert(x)) by {
        assert(insert_sorted(x, s, sort).to_multiset() == front.to_multiset().add(
            mid.to_multiset(),
        ));
        assert(mid.to_multiset() == seq![x].to_multiset().add(back.to_multiset()));
        assert(seq![x].to_multiset() == Seq::<Task>::empty().to_multiset().insert(x));
        assert(s.to_multiset() == front.to_multiset().add(back.to_multiset()));
    }
}

/// Sorting permutes the records: nothing is lost, nothing invented.
pub proof fn lemma_sort_tasks_permutes(s: Seq<Task>, sort: Option<SortSpec>)
    ensures
        sort_tasks(s, sort).to_multiset() =~= s.to_multiset(),
{
    lemma_sorted_upto_multiset(s, sort, s.len());
    assert(s.take(s.len() as int) =~= s);
}

/// The sorted prefix holds exactly the prefix's records.
proof fn lemma_sorted_upto_multiset(s: Seq<Task>, sort: Option<SortSpec>, k: nat)
    requires
        k <= s.len(),
    ensures
        sorted_upto(s, sort, k).to_multiset() =~= s.take(k as int).to_multiset(),
    decreases k,
{
    broadcast use vstd::seq_lib::group_to_multiset_ensures;

    if k > 0 {
        lemma_sorted_upto_multiset(s, sort, (k - 1) as nat);
        lemma_insert_sorted_multiset(s[k - 1], sorted_upto(s, sort, (k - 1) as nat), sort);
        assert(s.take(k as int) =~= s.take(k - 1).push(s[k - 1]));
        assert(s.take(k as int).to_multiset() =~= s.take(k - 1).to_multiset().insert(s[k - 1]));
    }
}

/// Whether `a` sorts at or below `b` under the result order, executably.
fn sort_le_exec(sort: &Option<SortSpec>, a: &Task, b: &Task) -> (r: bool)
    ensures
        r == sort_le(*sort, *a, *b),
{
    match sort {
        None => a.id <= b.id,
        Some(s) => {
            let ab = match s.order {
                SortOrder::Asc => task_field_lt_exec(a, b, &s.field),
                SortOrder::Desc => task_field_lt_exec(b, a, &s.field),
            };
            let ba = match s.order {
                SortOrder::Asc => task_field_lt_exec(b, a, &s.field),
                SortOrder::Desc => task_field_lt_exec(a, b, &s.field),
            };
            ab || (!ba && a.id <= b.id)
        },
    }
}

/// Whether `a`'s named column sorts strictly before `b`'s, executably.
fn task_field_lt_exec(a: &Task, b: &Task, field: &String) -> (r: bool)
    ensures
        r == task_field_lt(*a, *b, field@),
{
    let f = field.as_str();
    if str_eq(f, "id") {
        a.id < b.id
    } else if str_eq(f, "created_at") {
        a.created_at < b.created_at
    } else if str_eq(f, "updated_at") {
        a.updated_at < b.updated_at
    } else if str_eq(f, "title") {
        str_lt(a.title.as_str(), b.title.as_str())
    } else if str_eq(f, "description") {
        opt_text_lt_exec(&a.description, &b.description)
    } else if str_eq(f, "owner_id") {
        a.owner_id < b.owner_id
    } else if str_eq(f, "status") {
        str_lt(a.status.as_str(), b.status.as_str())
    } else if str_eq(f, "priority") {
        str_lt(a.priority.as_str(), b.priority.as_str())
    } else if str_eq(f, "due_date") {
        match (a.due_date, b.due_date) {
            (Some(x), Some(y)) => x < y,
            (Some(_), None) => true,
            (None, _) => false,
        }
    } else if str_eq(f, "project_id") {
        opt_u128_lt_exec(a.project_id, b.project_id)
    } else if str_eq(f, "lead_id") {
        opt_u128_lt_exec(a.lead_id, b.lead_id)
    } else if str_eq(f, "count") {
        a.count < b.count
    } else if str_eq(f, "parent_id") {
        opt_u128_lt_exec(a.parent_id, b.parent_id)
    } else {
        false
    }
}

/// Strict order between two optional texts, executably.
fn opt_text_lt_exec(x: &Option<String>, y: &Option<String>) -> (r: bool)
    ensures
        r == opt_text_lt(opt_view(*x), opt_view(*y)),
{
    match (x, y) {
        (Some(a), Some(b)) => str_lt(a.as_str(), b.as_str()),
        (Some(_), None) => true,
        (None, _) => false,
    }
}

/// Strict order between two optional identifiers, executably.
fn opt_u128_lt_exec(x: Option<u128>, y: Option<u128>) -> (r: bool)
    ensures
        r == opt_u128_lt(x, y),
{
    match (x, y) {
        (Some(a), Some(b)) => a < b,
        (Some(_), None) => true,
        (None, _) => false,
    }
}

/// Inserts `x` at its position in the sorted vector.
#[verifier::loop_isolation(false)]
fn insert_task(out: &mut Vec<Task>, x: Task, sort: &Option<SortSpec>)
    ensures
        final(out)@ == insert_sorted(x, old(out)@, *sort),
{
    let n = out.len();
    let mut pos: usize = 0;
    loop
        invariant
            pos <= n,
            n == out@.len(),
            out@ == old(out)@,
            insert_pos_from(x, out@, *sort, 0) == insert_pos_from(x, out@, *sort, pos as nat),
        decreases n - pos,
    {
        if pos >= n {
            break ;
        }
        if sort_le_exec(sort, &x, &out[pos]) {
            break ;
        }
        pos = pos + 1;
    }
    proof {
        assert(insert_pos(x, out@, *sort) == pos as nat);
    }
    let ghost pre = out@;
    out.insert(pos, x);
    proof {
        assert(out@ =~= pre.take(pos as int) + seq![x] + pre.skip(pos as int));
    }
}

/// Where `id` first occurs among the records, scanning from `i`.
pub open spec fn find_from(s: Seq<Task>, id: u128, i: nat) -> Option<Task>
    decreases s.len() - i,
{
    if i >= s.len() {
        None
    } else if s[i as int].id == id {
        Some(s[i as int])
    } else {
        find_from(s, id, i + 1)
    }
}

/// Fetches the single record with the given primary key: the record itself
/// when one exists, `ResourceNotFound` — and nothing else — when none does.
#[verifier::loop_isolation(false)]
pub fn find_task(records: &Vec<Task>, id: u128) -> (r: Result<Task, SDKError>)
    ensures
        match find_from(records@, id, 0) {
            Some(t) => r == Ok::<Task, SDKError>(t),
            None => r == Err::<Task, SDKError>(SDKError::ResourceNotFound),
        },
{
    let n = records.len();
    for i in 0..n
        invariant
            n == records@.len(),
            find_from(records@, id, 0) == find_from(records@, id, i as nat),
    {
        if records[i].id == id {
            return Ok(records[i].duplicate());
        }
    }
    Err(SDKError::ResourceNotFound)
}

/// Deletes the single record with the given primary key, returning it as it
/// stood immediately before removal; `ResourceNotFound` — and an untouched
/// store — when no record carries the key.
#[verifier::loop_isolation(false)]
pub fn remove_task(records: &mut Vec<Task>, id: u128) -> (r: Result<Task, SDKError>)
    ensures
        match find_from(old(records)@, id, 0) {
            Some(t) => {
                &&& r == Ok::<Task, SDKError>(t)
                &&& exists|i: int|
                    {
                        &&& 0 <= i < old(records)@.len()
                        &&& old(records)@[i] == t
                        &&& final(records)@ == old(records)@.remove(i)
                        &&& forall|j: int| 0 <= j < i ==> (#[trigger] old(records)@[j]).id != id
                    }
            },
            None => r == Err::<Task, SDKError>(SDKError::ResourceNotFound) && final(records)@ == old(
                records,
            )@,
        },
{
    let n = records.len();
    let mut i: usize = 0;
    while i < n
        invariant
            i <= n,
            n == records@.len(),
            records@ == old(records)@,
            find_from(records@, id, 0) == find_from(records@, id, i as nat),
            forall|j: int| 0 <= j < i ==> (#[trigger] records@[j]).id != id,
        decreases n - i,
    {
        if records[i].id == id {
            let removed = records.remove(i);
            proof {
                assert(find_from(old(records)@, id, i as nat) == Some(removed));
            }
            return Ok(removed);
        }
        i = i + 1;
    }
    Err(SDKError::ResourceNotFound)
}

/// The records a filter keeps, in their stored order.
pub open spec fn filtered(records: Seq<Task>, node: FilterNode) -> Seq<Task> {
    records.filter(|t: Task| task_matches(t, node))
}

/// The result a query spec denotes over the given records: the matching
/// records, in the deterministic result order, windowed by offset and the
/// capped limit.
pub open spec fn query_window(records: Seq<Task>, q: QuerySpec) -> Seq<Task> {
    let sorted = sort_tasks(filtered(records, q.filter), q.sort);
    let lim = effective_limit(q.limit) as int;
    let off = q.offset as int;
    let start = if off > sorted.len() {
        sorted.len() as int
    } else {
        off
    };
    let end = if off + lim > sorted.len() {
        sorted.len() as int
    } else {
        off + lim
    };
    sorted.subrange(start, end)
}

/// Executes a query spec over in-memory records: the reference semantics of
/// the statement the builder produces for the same spec.
///
/// On success the result is exactly `query_window(records@, *q)`: the
/// records the filter accepts, sorted by the sort key with ties and the
/// no-sort case ordered by primary key ascending, then cut to the requested
/// window. On failure the error is exactly `query_error(schema.fields@, *q)`,
/// the same validation outcome the statement builder reports, found before
/// any row is touched.
#[verifier::loop_isolation(false)]
pub fn execute_query(schema: &Schema, records: &Vec<Task>, q: &QuerySpec) -> (r: Result<
    Vec<Task>,
    SDKError,
>)
    ensures
        match query_error(schema.fields@, *q) {
            Some(e) => r == Err::<Vec<Task>, SDKError>(e),
            None => r is Ok && r->Ok_0@ == query_window(records@, *q),
        },
{
    match validate_filter(schema, &q.filter) {
        Some(e) => {
            return Err(e);
        },
        None => {},
    }
    match &q.sort {
        Some(s) => {
            if schema.field_type_of(&s.field).is_none() {
                return Err(SDKError::UnknownField);
            }
        },
        None => {},
    }
    let ghost pred = |t: Task| task_matches(t, q.filter);
    let mut kept: Vec<Task> = Vec::new();
    let n = records.len();
    for i in 0..n
        invariant
            n == records@.len(),
            kept@ == records@.subrange(0, i as int).filter(pred),
    {
        proof {
            assert(records@.subrange(0, i + 1).drop_last() =~= records@.subrange(0, i as int));
            assert(records@.subrange(0, i + 1).last() == records@[i as int]);
            reveal_with_fuel(Seq::filter, 2);
        }
        if task_matches_exec(&records[i], &q.filter) {
            kept.push(records[i].duplicate());
        }
    }
    proof {
        assert(records@.subrange(0, n as int) =~= records@);
    }
    let mut sorted_v: Vec<Task> = Vec::new();
    let kn = kept.len();
    for i in 0..kn
        invariant
            kn == kept@.len(),
            sorted_v@ == sorted_upto(kept@, q.sort, i as nat),
    {
        insert_task(&mut sorted_v, kept[i].duplicate(), &q.sort);
    }
    let limit = if q.limit > MAX_LIMIT {
        MAX_LIMIT
    } else {
        q.limit
    };
    let total = sorted_v.len();
    let start: usize = if (q.offset as usize) > total {
        total
    } else {
        q.offset as usize
    };
    let sum: u64 = q.offset as u64 + limit as u64;
    let end: usize = if sum > total as u64 {
        total
    } else {
        sum as usize
    };
    let mut result: Vec<Task> = Vec::new();
    let mut i = start;
    while i < end
        invariant
            start <= i <= end <= total,
            total == sorted_v@.len(),
            result@ == sorted_v@.subrange(start as int, i as int),
        decreases end - i,
    {
        proof {
            assert(sorted_v@.subrange(start as int, i + 1).drop_last() =~= sorted_v@.subrange(
                start as int,
                i as int,
            ));
        }
        result.push(sorted_v[i].duplicate());
        i = i + 1;
    }
    proof {
        assert(result@ =~= query_window(records@, *q));
    }
    Ok(result)
}

/// Pagination stability: two queries over the same records, filter and sort,
/// whose windows are adjacent (the second offset by the first's limit) page
/// through one sequence — their results concatenate to the single window of
/// twice the limit, with no duplicate and no gap between the pages.
pub proof fn lemma_pagination_stability(records: Seq<Task>, q1: QuerySpec, q2: QuerySpec)
    requires
        q2.filter == q1.filter,
        q2.sort == q1.sort,
        q2.limit == q1.limit,
        2 * q1.limit <= MAX_LIMIT,
        q2.offset == q1.offset + q1.limit,
    ensures
        query_window(records, q1) + query_window(records, q2) == query_window(
            records,
            QuerySpec {
                filter: q1.filter,
                sort: q1.sort,
                limit: (2 * q1.limit) as u32,
                offset: q1.offset,
            },
        ),
{
    let s = sort_tasks(filtered(records, q1.filter), q1.sort);
    let len = s.len() as int;
    let lim = q1.limit as int;
    let o1 = q1.offset as int;
    let a = if o1 > len {
        len
    } else {
        o1
    };
    let b = if o1 + lim > len {
        len
    } else {
        o1 + lim
    };
    let c = if o1 + 2 * lim > len {
        len
    } else {
        o1 + 2 * lim
    };
    assert(query_window(records, q1) == s.subrange(a, b));
    assert(query_window(records, q2) == s.subrange(b, c));
    assert(s.subrange(a, b) + s.subrange(b, c) =~= s.subrange(a, c));
}

} // verus!
