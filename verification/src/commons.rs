//! Common vocabulary shared by every resource module: sort directions and
//! the comparison operators of the filter language.

use vstd::prelude::*;

verus! {

/// The direction of an `ORDER BY` clause.
#[derive(Clone, Copy, Debug, PartialEq, Eq, Structural)]
pub enum SortOrder {
    Asc,
    Desc,
}

impl Default for SortOrder {
    /// Ascending order is the default, so that pagination over untouched
    /// inputs is deterministic.
    fn default() -> (r: Self)
        ensures
            r == SortOrder::Asc,
    {
        SortOrder::Asc
    }
}

/// The keyword `sql_keyword` returns for each direction.
pub open spec fn sort_order_sql(o: SortOrder) -> Seq<char> {
    match o {
        SortOrder::Asc => "ASC"@,
        SortOrder::Desc => "DESC"@,
    }
}

impl SortOrder {
    /// The SQL keyword of the direction.
    pub fn sql_keyword(&self) -> (r: &'static str)
        ensures
            r@ == sort_order_sql(*self),
    {
        match self {
            SortOrder::Asc => "ASC",
            SortOrder::Desc => "DESC",
        }
    }
}

/// A comparison operator of the filter language.
///
/// `In`/`NotIn` take a list value, `IsNull`/`IsNotNull` take no bound value
/// at all, and every other operator takes exactly one scalar.
#[derive(Clone, Copy, Debug, PartialEq, Eq, Structural)]
pub enum SQLComparison {
    Equal,
    NotEqual,
    GreaterThan,
    GreaterThanOrEqual,
    LessThan,
    LessThanOrEqual,
    Like,
    NotLike,
    In,
    NotIn,
    IsNull,
    IsNotNull,
}

/// Operators that compare the field against one bound scalar value.
pub open spec fn is_scalar_op(op: SQLComparison) -> bool {
    match op {
        SQLComparison::Equal
        | SQLComparison::NotEqual
        | SQLComparison::GreaterThan
        | SQLComparison::GreaterThanOrEqual
        | SQLComparison::LessThan
        | SQLComparison::LessThanOrEqual
        | SQLComparison::Like
        | SQLComparison::NotLike => true,
        _ => false,
    }
}

/// Operators that compare the field against a list of bound values.
pub open spec fn is_list_op(op: SQLComparison) -> bool {
    op == SQLComparison::In || op == SQLComparison::NotIn
}

/// Operators that test the field for NULL and take no bound value.
pub open spec fn is_null_op(op: SQLComparison) -> bool {
    op == SQLComparison::IsNull || op == SQLComparison::IsNotNull
}

/// Operators that match the field against an SQL `LIKE` pattern.
pub open spec fn is_pattern_op(op: SQLComparison) -> bool {
    op == SQLComparison::Like || op == SQLComparison::NotLike
}

/// The operator text a scalar comparison renders between the column name and
/// its placeholder.
pub open spec fn scalar_op_sql(op: SQLComparison) -> Seq<char> {
    match op {
        SQLComparison::Equal => "="@,
        SQLComparison::NotEqual => "<>"@,
        SQLComparison::GreaterThan => ">"@,
        SQLComparison::GreaterThanOrEqual => ">="@,
        SQLComparison::LessThan => "<"@,
        SQLComparison::LessThanOrEqual => "<="@,
        SQLComparison::Like => "LIKE"@,
        SQLComparison::NotLike => "NOT LIKE"@,
        _ => Seq::<char>::empty(),
    }
}

impl SQLComparison {
    /// The operator text of a scalar comparison.
    pub fn scalar_sql(&self) -> (r: &'static str)
        requires
            is_scalar_op(*self),
        ensures
            r@ == scalar_op_sql(*self),
    {
        match self {
            SQLComparison::Equal => "=",
            SQLComparison::NotEqual => "<>",
            SQLComparison::GreaterThan => ">",
            SQLComparison::GreaterThanOrEqual => ">=",
            SQLComparison::LessThan => "<",
            SQLComparison::LessThanOrEqual => "<=",
            SQLComparison::Like => "LIKE",
            SQLComparison::NotLike => "NOT LIKE",
            _ => "=",
        }
    }
}

} // verus!
