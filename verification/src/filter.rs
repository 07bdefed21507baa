//! The filter language and its compiler.
//!
//! A filter is a recursive predicate tree over named fields: leaf comparisons
//! combined with `And`/`Or`. The compiler renders a tree into a query
//! fragment containing one `?` placeholder per bound value, paired with the
//! ordered list of those values. Caller-supplied values never appear as text
//! in the fragment, and field names are admitted only when they occur in the
//! resource's allow-list (its [`Schema`]), so neither values nor identifiers
//! can inject query text.

use vstd::prelude::*;
use vstd::string::StringExecFns;

use crate::commons::SQLComparison;
use crate::commons::is_list_op;
use crate::commons::is_null_op;
use crate::commons::is_pattern_op;
use crate::commons::scalar_op_sql;
use crate::errors::SDKError;
use crate::text::count_char;
use crate::text::lemma_count_char_concat;

verus! {

/// A value bound into a query, kept apart from the query text.
#[derive(Debug, PartialEq)]
pub enum ScalarValue {
    /// The absence of a value; only null tests accept it.
    Null,
    Boolean(bool),
    Integer(i64),
    /// Free text, such as a title or a status symbol.
    Text(String),
    /// An entity identifier (a 128-bit surrogate key).
    Id(u128),
    /// A point in time, as seconds since the Unix epoch.
    Timestamp(i64),
    /// The operand of `In`/`NotIn`: the candidate values, in order.
    List(Vec<ScalarValue>),
}

/// The declared type of an allow-listed field.
#[derive(Clone, Copy, Debug, PartialEq, Eq, Structural)]
pub enum FieldType {
    Boolean,
    Integer,
    Text,
    Id,
    Timestamp,
}

/// One allow-listed field: its column name and its declared type.
#[derive(Debug)]
pub struct FieldDef {
    pub name: String,
    pub ty: FieldType,
}

/// The field-mapping descriptor a resource module supplies: the table the
/// resource lives in and the fields a filter or sort may name. Only names
/// listed here ever reach query text.
#[derive(Debug)]
pub struct Schema {
    pub table: String,
    pub fields: Vec<FieldDef>,
}

/// A node of the predicate tree.
///
/// `And` of no children is the always-true filter and `Or` of no children the
/// always-false one, so empty combinators never produce malformed clauses.
#[derive(Debug, PartialEq)]
pub enum FilterNode {
    Comparison { field: String, op: SQLComparison, value: ScalarValue },
    And(Vec<FilterNode>),
    Or(Vec<FilterNode>),
}

/// Whether a single (non-list) value fits a field of type `ty`.
pub open spec fn scalar_matches(v: ScalarValue, ty: FieldType) -> bool {
    match v {
        ScalarValue::Null => false,
        ScalarValue::Boolean(_) => ty == FieldType::Boolean,
        ScalarValue::Integer(_) => ty == FieldType::Integer,
        ScalarValue::Text(_) => ty == FieldType::Text,
        ScalarValue::Id(_) => ty == FieldType::Id,
        ScalarValue::Timestamp(_) => ty == FieldType::Timestamp,
        ScalarValue::List(_) => false,
    }
}

/// The declared type of `name` among `fields`, scanning from index `i`;
/// the first matching entry wins.
pub open spec fn lookup_from(fields: Seq<FieldDef>, name: Seq<char>, i: nat) -> Option<FieldType>
    decreases fields.len() - i,
{
    if i >= fields.len() {
        None
    } else if fields[i as int].name@ == name {
        Some(fields[i as int].ty)
    } else {
        lookup_from(fields, name, i + 1)
    }
}

/// The declared type of `name` in the allow-list, if any.
pub open spec fn lookup_field(fields: Seq<FieldDef>, name: Seq<char>) -> Option<FieldType> {
    lookup_from(fields, name, 0)
}

/// The validation outcome of one comparison: `None` when it is admissible,
/// otherwise exactly the error `compile_filter` reports for it.
pub open spec fn comparison_error(
    fields: Seq<FieldDef>,
    field: Seq<char>,
    op: SQLComparison,
    value: ScalarValue,
) -> Option<SDKError> {
    match lookup_field(fields, field) {
        None => Some(SDKError::UnknownField),
        Some(ty) => {
            if is_null_op(op) {
                // Null tests take no bound value.
                if value == ScalarValue::Null {
                    None
                } else {
                    Some(SDKError::InvalidFilter)
                }
            } else if is_list_op(op) {
                match value {
                    ScalarValue::List(items) => {
                        if items@.len() == 0 {
                            // `IN ()` is ambiguous across dialects.
                            Some(SDKError::InvalidFilter)
                        } else if exists|j: int|
                            0 <= j < items@.len() && !scalar_matches(items@[j], ty) {
                            Some(SDKError::TypeMismatch)
                        } else {
                            None
                        }
                    },
                    _ => Some(SDKError::TypeMismatch),
                }
            } else {
                if scalar_matches(value, ty) && (is_pattern_op(op) ==> ty == FieldType::Text) {
                    None
                } else {
                    Some(SDKError::TypeMismatch)
                }
            }
        },
    }
}

/// `n` comma-separated placeholders: `?, ?, ..., ?`.
pub open spec fn placeholder_list(n: nat) -> Seq<char>
    decreases n,
{
    if n == 0 {
        Seq::<char>::empty()
    } else if n == 1 {
        "?"@
    } else {
        "?, "@ + placeholder_list((n - 1) as nat)
    }
}

/// The fragment one comparison renders to.
pub open spec fn comparison_fragment(
    field: Seq<char>,
    op: SQLComparison,
    value: ScalarValue,
) -> Seq<char> {
    if is_null_op(op) {
        field + if op == SQLComparison::IsNull {
            " IS NULL"@
        } else {
            " IS NOT NULL"@
        }
    } else if is_list_op(op) {
        let n = match value {
            ScalarValue::List(items) => items@.len(),
            _ => 0,
        };
        field + (if op == SQLComparison::In {
            " IN ("@
        } else {
            " NOT IN ("@
        }) + placeholder_list(n) + ")"@
    } else {
        field + " "@ + scalar_op_sql(op) + " ?"@
    }
}

/// The values one comparison contributes to the bind list, in order.
pub open spec fn comparison_binds(op: SQLComparison, value: ScalarValue) -> Seq<ScalarValue> {
    if is_null_op(op) {
        Seq::<ScalarValue>::empty()
    } else if is_list_op(op) {
        match value {
            ScalarValue::List(items) => items@,
            _ => Seq::<ScalarValue>::empty(),
        }
    } else {
        seq![value]
    }
}

/// Whether a child rendered under a parent combinator must be parenthesized:
/// exactly the compound children combined the other way, so that mixed
/// `And`/`Or` nesting never relies on textual precedence.
pub open spec fn needs_parens(child: FilterNode, parent_and: bool) -> bool {
    match child {
        FilterNode::Comparison { .. } => false,
        FilterNode::And(gs) => !parent_and && gs@.len() >= 1,
        FilterNode::Or(gs) => parent_and && gs@.len() >= 1,
    }
}

/// The first validation error among `cs[i..]`, scanning left to right.
pub open spec fn first_error_from(fields: Seq<FieldDef>, cs: Seq<FilterNode>, i: nat) -> Option<
    SDKError,
>
    decreases cs, cs.len() - i,
{
    if i >= cs.len() {
        None
    } else if node_error(fields, cs[i as int]) is Some {
        node_error(fields, cs[i as int])
    } else {
        first_error_from(fields, cs, i + 1)
    }
}

/// The validation outcome of a whole tree: `None` when it compiles, otherwise
/// exactly the error `compile_filter` reports, found in a left-to-right walk.
pub open spec fn node_error(fields: Seq<FieldDef>, node: FilterNode) -> Option<SDKError>
    decreases node, 0nat,
{
    match node {
        FilterNode::Comparison { field, op, value } => comparison_error(fields, field@, op, value),
        FilterNode::And(cs) => first_error_from(fields, cs@, 0),
        FilterNode::Or(cs) => first_error_from(fields, cs@, 0),
    }
}

/// The fragment of the first `k` children of a combinator, joined by `sep`,
/// each child parenthesized exactly when `needs_parens` says so.
pub open spec fn frag_prefix(
    cs: Seq<FilterNode>,
    k: nat,
    sep: Seq<char>,
    parent_and: bool,
) -> Seq<char>
    decreases cs, k,
{
    if k == 0 || k > cs.len() {
        Seq::<char>::empty()
    } else {
        let head = if k == 1 {
            Seq::<char>::empty()
        } else {
            frag_prefix(cs, (k - 1) as nat, sep, parent_and) + sep
        };
        let child = cs[k - 1];
        if needs_parens(child, parent_and) {
            head + "("@ + node_fragment(child) + ")"@
        } else {
            head + node_fragment(child)
        }
    }
}

/// The fragment a tree compiles to (meaningful when `node_error` is `None`).
pub open spec fn node_fragment(node: FilterNode) -> Seq<char>
    decreases node, 0nat,
{
    match node {
        FilterNode::Comparison { field, op, value } => comparison_fragment(field@, op, value),
        FilterNode::And(cs) => if cs@.len() == 0 {
            "TRUE"@
        } else {
            frag_prefix(cs@, cs@.len(), " AND "@, true)
        },
        FilterNode::Or(cs) => if cs@.len() == 0 {
            "FALSE"@
        } else {
            frag_prefix(cs@, cs@.len(), " OR "@, false)
        },
    }
}

/// The bind values contributed by the first `k` children, in order.
pub open spec fn binds_prefix(cs: Seq<FilterNode>, k: nat) -> Seq<ScalarValue>
    decreases cs, k,
{
    if k == 0 || k > cs.len() {
        Seq::<ScalarValue>::empty()
    } else {
        binds_prefix(cs, (k - 1) as nat) + node_binds(cs[k - 1])
    }
}

/// The bind values a tree compiles to, in left-to-right traversal order.
pub open spec fn node_binds(node: FilterNode) -> Seq<ScalarValue>
    decreases node, 0nat,
{
    match node {
        FilterNode::Comparison { field: _, op, value } => comparison_binds(op, value),
        FilterNode::And(cs) => binds_prefix(cs@, cs@.len()),
        FilterNode::Or(cs) => binds_prefix(cs@, cs@.len()),
    }
}

impl ScalarValue {
    /// Whether this single value fits a field of type `ty`.
    pub fn matches_type(&self, ty: FieldType) -> (r: bool)
        ensures
            r == scalar_matches(*self, ty),
    {
        match self {
            ScalarValue::Null => false,
            ScalarValue::Boolean(_) => ty == FieldType::Boolean,
            ScalarValue::Integer(_) => ty == FieldType::Integer,
            ScalarValue::Text(_) => ty == FieldType::Text,
            ScalarValue::Id(_) => ty == FieldType::Id,
            ScalarValue::Timestamp(_) => ty == FieldType::Timestamp,
            ScalarValue::List(_) => false,
        }
    }
}

impl Schema {
    /// The declared type of `name`, if the allow-list admits it.
    pub fn field_type_of(&self, name: &String) -> (r: Option<FieldType>)
        ensures
            r == lookup_field(self.fields@, name@),
    {
        let n = self.fields.len();
        for i in 0..n
            invariant
                n == self.fields.len(),
                lookup_field(self.fields@, name@) == lookup_from(self.fields@, name@, i as nat),
        {
            if self.fields[i].name.eq(name) {
                return Some(self.fields[i].ty);
            }
        }
        None
    }
}

/// `n` comma-separated placeholders, as text.
fn placeholders_string(n: usize) -> (r: String)
    requires
        n >= 1,
    ensures
        r@ == placeholder_list(n as nat),
    decreases n,
{
    if n == 1 {
        "?".to_owned()
    } else {
        let mut s = "?, ".to_owned();
        let rest = placeholders_string(n - 1);
        s.append(rest.as_str());
        s
    }
}

/// Compiles one comparison. Consumes the field name and value: the name
/// becomes the head of the fragment, the value moves into the bind list.
#[verifier::loop_isolation(false)]
fn compile_comparison(schema: &Schema, field: String, op: SQLComparison, value: ScalarValue) -> (r:
    Result<(String, Vec<ScalarValue>), SDKError>)
    ensures
        match comparison_error(schema.fields@, field@, op, value) {
            Some(e) => r == Err::<(String, Vec<ScalarValue>), SDKError>(e),
            None => {
                &&& r is Ok
                &&& r->Ok_0.0@ == comparison_fragment(field@, op, value)
                &&& r->Ok_0.1@ == comparison_binds(op, value)
            },
        },
{
    let ty = match schema.field_type_of(&field) {
        None => {
            return Err(SDKError::UnknownField);
        },
        Some(ty) => ty,
    };
    if op == SQLComparison::IsNull || op == SQLComparison::IsNotNull {
        match value {
            ScalarValue::Null => {
                let mut s = field;
                if op == SQLComparison::IsNull {
                    s.append(" IS NULL");
                } else {
                    s.append(" IS NOT NULL");
                }
                Ok((s, Vec::new()))
            },
            _ => Err(SDKError::InvalidFilter),
        }
    } else if op == SQLComparison::In || op == SQLComparison::NotIn {
        match value {
            ScalarValue::List(items) => {
                if items.len() == 0 {
                    return Err(SDKError::InvalidFilter);
                }
                let n = items.len();
                for j in 0..n
                    invariant
                        n == items.len(),
                        forall|t: int| 0 <= t < j ==> scalar_matches(items@[t], ty),
                {
                    if !items[j].matches_type(ty) {
                        proof {
                            assert(exists|t: int|
                                0 <= t < items@.len() && !scalar_matches(items@[t], ty)) by {
                                assert(!scalar_matches(items@[j as int], ty));
                            }
                            assert(comparison_error(schema.fields@, field@, op, value) == Some(
                                SDKError::TypeMismatch,
                            ));
                        }
                        return Err(SDKError::TypeMismatch);
                    }
                }
                let mut s = field;
                if op == SQLComparison::In {
                    s.append(" IN (");
                } else {
                    s.append(" NOT IN (");
                }
                let ph = placeholders_string(n);
                s.append(ph.as_str());
                s.append(")");
                Ok((s, items))
            },
            _ => Err(SDKError::TypeMismatch),
        }
    } else {
        let well_typed = value.matches_type(ty) && (!(op == SQLComparison::Like || op
            == SQLComparison::NotLike) || ty == FieldType::Text);
        if !well_typed {
            return Err(SDKError::TypeMismatch);
        }
        let mut s = field;
        s.append(" ");
        s.append(op.scalar_sql());
        s.append(" ?");
        let mut binds: Vec<ScalarValue> = Vec::new();
        binds.push(value);
        Ok((s, binds))
    }
}

/// Whether `child`, rendered under a combinator, must be parenthesized.
fn child_needs_parens(child: &FilterNode, parent_and: bool) -> (r: bool)
    ensures
        r == needs_parens(*child, parent_and),
{
    match child {
        FilterNode::Comparison { .. } => false,
        FilterNode::And(gs) => !parent_and && gs.len() >= 1,
        FilterNode::Or(gs) => parent_and && gs.len() >= 1,
    }
}

/// Compiles a filter tree into a query fragment and its bind values.
///
/// On success the fragment is exactly `node_fragment(node)` and the binds are
/// exactly `node_binds(node)`: one `?` per bound value, values in
/// left-to-right traversal order, `And`/`Or` children joined by the combining
/// keyword with differently-combined compound children parenthesized, and the
/// empty combinators rendered as the neutral `TRUE`/`FALSE`. On failure the
/// error is exactly `node_error(schema.fields@, node)`: `UnknownField` for a
/// field outside the allow-list, `InvalidFilter` for an empty `In`/`NotIn`
/// list or a bound value supplied to a null test, and `TypeMismatch` for a
/// value that does not fit the field's declared type.
pub fn compile_filter(schema: &Schema, node: FilterNode) -> (r: Result<
    (String, Vec<ScalarValue>),
    SDKError,
>)
    ensures
        match node_error(schema.fields@, node) {
            Some(e) => r == Err::<(String, Vec<ScalarValue>), SDKError>(e),
            None => {
                &&& r is Ok
                &&& r->Ok_0.0@ == node_fragment(node)
                &&& r->Ok_0.1@ == node_binds(node)
            },
        },
    decreases node, 1nat,
{
    let ghost node0 = node;
    match node {
        FilterNode::Comparison { field, op, value } => compile_comparison(
            schema,
            field,
            op,
            value,
        ),
        FilterNode::And(children) => {
            proof {
                assert(decreases_to!(node0 => children));
            }
            if children.len() == 0 {
                return Ok(("TRUE".to_owned(), Vec::new()));
            }
            compile_children(schema, children, true, Ghost(node0))
        },
        FilterNode::Or(children) => {
            proof {
                assert(decreases_to!(node0 => children));
            }
            if children.len() == 0 {
                return Ok(("FALSE".to_owned(), Vec::new()));
            }
            compile_children(schema, children, false, Ghost(node0))
        },
    }
}

/// Compiles the children of one combinator, joining their fragments.
#[verifier::loop_isolation(false)]
fn compile_children(
    schema: &Schema,
    children: Vec<FilterNode>,
    parent_and: bool,
    Ghost(parent): Ghost<FilterNode>,
) -> (r: Result<(String, Vec<ScalarValue>), SDKError>)
    requires
        children.len() >= 1,
        decreases_to!(parent => children),
        parent == (if parent_and {
            FilterNode::And(children)
        } else {
            FilterNode::Or(children)
        }),
    ensures
        match node_error(schema.fields@, parent) {
            Some(e) => r == Err::<(String, Vec<ScalarValue>), SDKError>(e),
            None => {
                &&& r is Ok
                &&& r->Ok_0.0@ == node_fragment(parent)
                &&& r->Ok_0.1@ == node_binds(parent)
            },
        },
    decreases parent, 0nat,
{
    let ghost cs0 = children@;
    let ghost sep_spec: Seq<char> = if parent_and {
        " AND "@
    } else {
        " OR "@
    };
    let sep: &str = if parent_and {
        " AND "
    } else {
        " OR "
    };
    proof {
        assert(sep@ == sep_spec);
    }
    let mut rest = children;
    let mut frag = String::new();
    let mut binds: Vec<ScalarValue> = Vec::new();
    let mut k: usize = 0;
    while rest.len() > 0
        invariant
            cs0.len() <= usize::MAX,
            k + rest.len() == cs0.len(),
            rest@ == cs0.subrange(k as int, cs0.len() as int),
            first_error_from(schema.fields@, cs0, 0) == first_error_from(
                schema.fields@,
                cs0,
                k as nat,
            ),
            frag@ == frag_prefix(cs0, k as nat, sep_spec, parent_and),
            binds@ == binds_prefix(cs0, k as nat),
            sep@ == sep_spec,
            decreases_to!(parent => cs0),
        decreases rest.len(),
    {
        let child = rest.remove(0);
        proof {
            assert(child == cs0[k as int]);
            assert(decreases_to!(cs0 => cs0[k as int]));
        }
        let wrap = child_needs_parens(&child, parent_and);
        match compile_filter(schema, child) {
            Err(e) => {
                return Err(e);
            },
            Ok((f, mut b)) => {
                if k > 0 {
                    frag.append(sep);
                }
                if wrap {
                    frag.append("(");
                    frag.append(f.as_str());
                    frag.append(")");
                } else {
                    frag.append(f.as_str());
                }
                binds.append(&mut b);
            },
        }
        k = k + 1;
    }
    proof {
        assert(cs0.subrange(k as int, cs0.len() as int).len() == 0);
        assert(k == cs0.len());
    }
    Ok((frag, binds))
}

/// Counts the `?` placeholders of a compiled fragment.
pub fn placeholder_count(fragment: &str) -> (r: usize)
    ensures
        r == count_char(fragment@, '?'),
{
    crate::text::count_char_in(fragment, '?')
}

/// A well-formed allow-list: no field name smuggles a placeholder character
/// into query text.
pub open spec fn schema_fields_wf(fields: Seq<FieldDef>) -> bool {
    forall|i: int| 0 <= i < fields.len() ==> count_char(#[trigger] fields[i].name@, '?') == 0
}

/// A field the allow-list admits carries one of the listed names.
proof fn lemma_lookup_some_name(fields: Seq<FieldDef>, name: Seq<char>, i: nat)
    requires
        lookup_from(fields, name, i) is Some,
    ensures
        exists|j: int| i <= j < fields.len() && fields[j].name@ == name,
    decreases fields.len() - i,
{
    if fields[i as int].name@ == name {
        assert((i as int) < fields.len() && fields[i as int].name@ == name);
    } else {
        lemma_lookup_some_name(fields, name, i + 1);
    }
}

/// A name a well-formed allow-list admits holds no placeholder character.
pub proof fn lemma_lookup_name_wf(fields: Seq<FieldDef>, name: Seq<char>)
    requires
        schema_fields_wf(fields),
        lookup_field(fields, name) is Some,
    ensures
        count_char(name, '?') == 0,
{
    lemma_lookup_some_name(fields, name, 0);
    let j = choose|j: int| 0 <= j < fields.len() && fields[j].name@ == name;
    assert(count_char(fields[j].name@, '?') == 0);
}

/// A list of `n` placeholders holds exactly `n` placeholder characters.
proof fn lemma_placeholder_list_count(n: nat)
    ensures
        count_char(placeholder_list(n), '?') == n,
    decreases n,
{
    if n == 0 {
    } else if n == 1 {
        assert(count_char(placeholder_list(1), '?') == 1) by {
            reveal_strlit("?");
            reveal_with_fuel(count_char, 3);
        }
    } else {
        lemma_placeholder_list_count((n - 1) as nat);
        assert(count_char("?, "@, '?') == 1) by {
            reveal_strlit("?, ");
            reveal_with_fuel(count_char, 5);
        }
        lemma_count_char_concat("?, "@, placeholder_list((n - 1) as nat), '?');
    }
}

/// The operator text of a scalar comparison holds no placeholder.
proof fn lemma_scalar_op_no_placeholder(op: SQLComparison)
    ensures
        count_char(scalar_op_sql(op), '?') == 0,
{
    reveal_strlit("=");
    reveal_strlit("<>");
    reveal_strlit(">");
    reveal_strlit(">=");
    reveal_strlit("<");
    reveal_strlit("<=");
    reveal_strlit("LIKE");
    reveal_strlit("NOT LIKE");
    crate::text::lemma_count_char_absent(scalar_op_sql(op), '?');
}

/// Placeholders and bind values of the first `k` children align.
proof fn lemma_prefix_alignment(
    fields: Seq<FieldDef>,
    cs: Seq<FilterNode>,
    k: nat,
    sep: Seq<char>,
    parent_and: bool,
)
    requires
        schema_fields_wf(fields),
        k <= cs.len(),
        forall|j: int| 0 <= j < k ==> node_error(fields, #[trigger] cs[j]) is None,
        count_char(sep, '?') == 0,
    ensures
        count_char(frag_prefix(cs, k, sep, parent_and), '?') == binds_prefix(cs, k).len(),
    decreases cs, k,
{
    if k == 0 {
    } else {
        let child = cs[k - 1];
        lemma_prefix_alignment(fields, cs, (k - 1) as nat, sep, parent_and);
        lemma_placeholder_alignment(fields, child);
        let head = if k == 1 {
            Seq::<char>::empty()
        } else {
            frag_prefix(cs, (k - 1) as nat, sep, parent_and) + sep
        };
        if k > 1 {
            lemma_count_char_concat(frag_prefix(cs, (k - 1) as nat, sep, parent_and), sep, '?');
        }
        assert(count_char("("@, '?') == 0) by {
            reveal_strlit("(");
            reveal_with_fuel(count_char, 3);
        }
        assert(count_char(")"@, '?') == 0) by {
            reveal_strlit(")");
            reveal_with_fuel(count_char, 3);
        }
        if needs_parens(child, parent_and) {
            lemma_count_char_concat(head, "("@, '?');
            lemma_count_char_concat(head + "("@, node_fragment(child), '?');
            lemma_count_char_concat(head + "("@ + node_fragment(child), ")"@, '?');
        } else {
            lemma_count_char_concat(head, node_fragment(child), '?');
        }
    }
}

/// The primary correctness invariant of the compiler: for every filter the
/// compiler accepts, the fragment holds exactly one `?` placeholder per bind
/// value, so substituting the values positionally reproduces the predicate.
pub proof fn lemma_placeholder_alignment(fields: Seq<FieldDef>, node: FilterNode)
    requires
        schema_fields_wf(fields),
        node_error(fields, node) is None,
    ensures
        count_char(node_fragment(node), '?') == node_binds(node).len(),
    decreases node, 0nat,
{
    match node {
        FilterNode::Comparison { field, op, value } => {
            lemma_lookup_name_wf(fields, field@);
            if is_null_op(op) {
                assert(count_char(" IS NULL"@, '?') == 0) by {
                    reveal_strlit(" IS NULL");
                    crate::text::lemma_count_char_absent(" IS NULL"@, '?');
                }
                assert(count_char(" IS NOT NULL"@, '?') == 0) by {
                    reveal_strlit(" IS NOT NULL");
                    crate::text::lemma_count_char_absent(" IS NOT NULL"@, '?');
                }
                if op == SQLComparison::IsNull {
                    lemma_count_char_concat(field@, " IS NULL"@, '?');
                } else {
                    lemma_count_char_concat(field@, " IS NOT NULL"@, '?');
                }
            } else if is_list_op(op) {
                match value {
                    ScalarValue::List(items) => {
                        let opener = if op == SQLComparison::In {
                            " IN ("@
                        } else {
                            " NOT IN ("@
                        };
                        assert(count_char(" IN ("@, '?') == 0) by {
                            reveal_strlit(" IN (");
                            crate::text::lemma_count_char_absent(" IN ("@, '?');
                        }
                        assert(count_char(" NOT IN ("@, '?') == 0) by {
                            reveal_strlit(" NOT IN (");
                            crate::text::lemma_count_char_absent(" NOT IN ("@, '?');
                        }
                        assert(count_char(")"@, '?') == 0) by {
                            reveal_strlit(")");
                            crate::text::lemma_count_char_absent(")"@, '?');
                        }
                        lemma_placeholder_list_count(items@.len());
                        lemma_count_char_concat(field@, opener, '?');
                        lemma_count_char_concat(field@ + opener, placeholder_list(items@.len()), '?');
                        lemma_count_char_concat(
                            field@ + opener + placeholder_list(items@.len()),
                            ")"@,
                            '?',
                        );
                    },
                    _ => {},
                }
            } else {
                assert(count_char(" "@, '?') == 0) by {
                    reveal_strlit(" ");
                    crate::text::lemma_count_char_absent(" "@, '?');
                }
                assert(count_char(" ?"@, '?') == 1) by {
                    reveal_strlit(" ?");
                    reveal_with_fuel(count_char, 4);
                }
                lemma_scalar_op_no_placeholder(op);
                lemma_count_char_concat(field@, " "@, '?');
                lemma_count_char_concat(field@ + " "@, scalar_op_sql(op), '?');
                lemma_count_char_concat(field@ + " "@ + scalar_op_sql(op), " ?"@, '?');
            }
        },
        FilterNode::And(cs) => {
            if cs@.len() == 0 {
                assert(count_char("TRUE"@, '?') == 0) by {
                    reveal_strlit("TRUE");
                    crate::text::lemma_count_char_absent("TRUE"@, '?');
                }
            } else {
                lemma_first_error_none(fields, cs@, 0);
                assert(count_char(" AND "@, '?') == 0) by {
                    reveal_strlit(" AND ");
                    crate::text::lemma_count_char_absent(" AND "@, '?');
                }
                lemma_prefix_alignment(fields, cs@, cs@.len(), " AND "@, true);
            }
        },
        FilterNode::Or(cs) => {
            if cs@.len() == 0 {
                assert(count_char("FALSE"@, '?') == 0) by {
                    reveal_strlit("FALSE");
                    crate::text::lemma_count_char_absent("FALSE"@, '?');
                }
            } else {
                lemma_first_error_none(fields, cs@, 0);
                assert(count_char(" OR "@, '?') == 0) by {
                    reveal_strlit(" OR ");
                    crate::text::lemma_count_char_absent(" OR "@, '?');
                }
                lemma_prefix_alignment(fields, cs@, cs@.len(), " OR "@, false);
            }
        },
    }
}

/// A combinator that validated has only validated children.
proof fn lemma_first_error_none(fields: Seq<FieldDef>, cs: Seq<FilterNode>, i: nat)
    requires
        first_error_from(fields, cs, i) is None,
    ensures
        forall|j: int| i <= j < cs.len() ==> node_error(fields, #[trigger] cs[j]) is None,
    decreases cs.len() - i,
{
    if i < cs.len() {
        lemma_first_error_none(fields, cs, i + 1);
    }
}

} // verus!
