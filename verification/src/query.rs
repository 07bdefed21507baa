//! Query specifications and the full-statement builder.
//!
//! A [`QuerySpec`] pairs a filter with sorting and pagination. The builder
//! composes the compiled filter fragment into one parameterized statement:
//! projection, `WHERE` (omitted for the trivially true filter), a
//! deterministic `ORDER BY` that always ends on the primary key, and
//! placeholder-bound `LIMIT`/`OFFSET`. The transport layer binds the values
//! positionally and dispatches the statement; nothing caller-supplied ever
//! reaches the statement text.

use vstd::prelude::*;
use vstd::string::StringExecFns;

use crate::commons::SortOrder;
use crate::commons::sort_order_sql;
use crate::errors::SDKError;
use crate::filter::FilterNode;
use crate::filter::FieldDef;
use crate::filter::FieldType;
use crate::filter::ScalarValue;
use crate::filter::Schema;
use crate::filter::compile_filter;
use crate::filter::lookup_field;
use crate::filter::node_binds;
use crate::filter::node_error;
use crate::filter::node_fragment;
use crate::filter::placeholder_list;
use crate::filter::schema_fields_wf;
use crate::text::count_char;
use crate::text::lemma_count_char_absent;
use crate::text::lemma_count_char_concat;

verus! {

/// The limit a query gets when the caller names none.
pub const DEFAULT_LIMIT: u32 = 100;

/// The hard cap no query may exceed, whatever the caller asks for.
pub const MAX_LIMIT: u32 = 10000;

/// How a result is ordered before the primary-key tie break.
#[derive(Debug)]
pub struct SortSpec {
    pub field: String,
    pub order: SortOrder,
}

/// One query: a predicate, an optional sort, and a pagination window.
#[derive(Debug)]
pub struct QuerySpec {
    pub filter: FilterNode,
    pub sort: Option<SortSpec>,
    pub limit: u32,
    pub offset: u32,
}

impl QuerySpec {
    /// A query with the given filter and the default window: no explicit
    /// sort (primary key ascending), the default limit, offset zero.
    pub fn new(filter: FilterNode) -> (q: QuerySpec)
        ensures
            q.filter == filter,
            q.sort is None,
            q.limit == DEFAULT_LIMIT,
            q.offset == 0,
    {
        QuerySpec { filter, sort: None, limit: DEFAULT_LIMIT, offset: 0 }
    }
}

/// The filter that accepts every record and so needs no `WHERE` clause.
pub open spec fn is_trivial_filter(node: FilterNode) -> bool {
    match node {
        FilterNode::And(cs) => cs@.len() == 0,
        _ => false,
    }
}

/// The limit actually applied: the caller's, capped at [`MAX_LIMIT`].
pub open spec fn effective_limit(limit: u32) -> u32 {
    if limit > MAX_LIMIT {
        MAX_LIMIT
    } else {
        limit
    }
}

/// The `ORDER BY` clause: the sort field and direction when given, always
/// followed by the primary key ascending so that equal sort keys cannot
/// reshuffle between pages.
pub open spec fn order_by_text(sort: Option<SortSpec>) -> Seq<char> {
    match sort {
        Some(s) => " ORDER BY "@ + s.field@ + " "@ + sort_order_sql(s.order) + ", id ASC"@,
        None => " ORDER BY id ASC"@,
    }
}

/// The statement a query spec builds to.
pub open spec fn statement_text(table: Seq<char>, filter: FilterNode, sort: Option<SortSpec>) -> Seq<
    char,
> {
    "SELECT * FROM "@ + table + (if is_trivial_filter(filter) {
        Seq::<char>::empty()
    } else {
        " WHERE "@ + node_fragment(filter)
    }) + order_by_text(sort) + " LIMIT ? OFFSET ?"@
}

/// The validation outcome of a whole query: the filter's first error, then
/// an unknown sort field.
pub open spec fn query_error(fields: Seq<FieldDef>, q: QuerySpec) -> Option<SDKError> {
    if node_error(fields, q.filter) is Some {
        node_error(fields, q.filter)
    } else {
        match q.sort {
            Some(s) => if lookup_field(fields, s.field@) is None {
                Some(SDKError::UnknownField)
            } else {
                None
            },
            None => None,
        }
    }
}

/// The bind values of the full statement: the filter's, then the applied
/// limit and the offset for the two trailing placeholders.
pub open spec fn statement_binds(q: QuerySpec) -> Seq<ScalarValue> {
    node_binds(q.filter) + seq![
        ScalarValue::Integer(effective_limit(q.limit) as i64),
        ScalarValue::Integer(q.offset as i64),
    ]
}

/// Builds the one statement a query spec stands for, with its bind values.
///
/// On success the text is exactly `statement_text(schema.table@, q.filter,
/// q.sort)` and the binds are exactly `statement_binds(q)`. On failure the
/// error is exactly `query_error(schema.fields@, q)`: the filter's own first
/// error, or `UnknownField` for a sort field outside the allow-list.
pub fn build_statement(schema: &Schema, q: QuerySpec) -> (r: Result<
    (String, Vec<ScalarValue>),
    SDKError,
>)
    ensures
        match query_error(schema.fields@, q) {
            Some(e) => r == Err::<(String, Vec<ScalarValue>), SDKError>(e),
            None => {
                &&& r is Ok
                &&& r->Ok_0.0@ == statement_text(schema.table@, q.filter, q.sort)
                &&& r->Ok_0.1@ == statement_binds(q)
            },
        },
{
    let trivial = match &q.filter {
        FilterNode::And(cs) => cs.len() == 0,
        _ => false,
    };
    let limit = if q.limit > MAX_LIMIT {
        MAX_LIMIT
    } else {
        q.limit
    };
    let offset = q.offset;
    let (frag, mut binds) = match compile_filter(schema, q.filter) {
        Err(e) => {
            return Err(e);
        },
        Ok(p) => p,
    };
    let mut stmt = "SELECT * FROM ".to_owned();
    stmt.append(schema.table.as_str());
    if !trivial {
        stmt.append(" WHERE ");
        stmt.append(frag.as_str());
    }
    match q.sort {
        Some(s) => {
            if schema.field_type_of(&s.field).is_none() {
                return Err(SDKError::UnknownField);
            }
            stmt.append(" ORDER BY ");
            stmt.append(s.field.as_str());
            stmt.append(" ");
            stmt.append(s.order.sql_keyword());
            stmt.append(", id ASC");
        },
        None => {
            stmt.append(" ORDER BY id ASC");
        },
    }
    stmt.append(" LIMIT ? OFFSET ?");
    binds.push(ScalarValue::Integer(limit as i64));
    binds.push(ScalarValue::Integer(offset as i64));
    Ok((stmt, binds))
}

/// The statement-level form of the placeholder law: for every query the
/// builder accepts, the statement holds exactly one `?` per bind value — the
/// filter's placeholders plus the two of the pagination window.
pub proof fn lemma_statement_placeholders(table: Seq<char>, fields: Seq<FieldDef>, q: QuerySpec)
    requires
        schema_fields_wf(fields),
        count_char(table, '?') == 0,
        query_error(fields, q) is None,
    ensures
        count_char(statement_text(table, q.filter, q.sort), '?') == statement_binds(q).len(),
{
    crate::filter::lemma_placeholder_alignment(fields, q.filter);
    assert(count_char("SELECT * FROM "@, '?') == 0) by {
        reveal_strlit("SELECT * FROM ");
        lemma_count_char_absent("SELECT * FROM "@, '?');
    }
    assert(count_char(" WHERE "@, '?') == 0) by {
        reveal_strlit(" WHERE ");
        lemma_count_char_absent(" WHERE "@, '?');
    }
    assert(count_char(" LIMIT ? OFFSET ?"@, '?') == 2) by {
        reveal_strlit(" LIMIT ? OFFSET ?");
        reveal_with_fuel(count_char, 19);
    }
    let where_part = if is_trivial_filter(q.filter) {
        Seq::<char>::empty()
    } else {
        " WHERE "@ + node_fragment(q.filter)
    };
    assert(count_char(where_part, '?') == node_binds(q.filter).len()) by {
        if is_trivial_filter(q.filter) {
            assert(node_binds(q.filter).len() == 0);
            assert(count_char(Seq::<char>::empty(), '?') == 0);
        } else {
            lemma_count_char_concat(" WHERE "@, node_fragment(q.filter), '?');
        }
    }
    assert(count_char(order_by_text(q.sort), '?') == 0) by {
        lemma_order_by_no_placeholder(fields, q.sort);
    }
    lemma_count_char_concat("SELECT * FROM "@, table, '?');
    lemma_count_char_concat("SELECT * FROM "@ + table, where_part, '?');
    lemma_count_char_concat("SELECT * FROM "@ + table + where_part, order_by_text(q.sort), '?');
    lemma_count_char_concat(
        "SELECT * FROM "@ + table + where_part + order_by_text(q.sort),
        " LIMIT ? OFFSET ?"@,
        '?',
    );
    assert(statement_binds(q).len() == node_binds(q.filter).len() + 2);
}

/// An order clause over an allow-listed field holds no placeholder.
proof fn lemma_order_by_no_placeholder(fields: Seq<FieldDef>, sort: Option<SortSpec>)
    requires
        schema_fields_wf(fields),
        match sort {
            Some(s) => lookup_field(fields, s.field@) is Some,
            None => true,
        },
    ensures
        count_char(order_by_text(sort), '?') == 0,
{
    assert(count_char(" ORDER BY id ASC"@, '?') == 0) by {
        reveal_strlit(" ORDER BY id ASC");
        lemma_count_char_absent(" ORDER BY id ASC"@, '?');
    }
    match sort {
        Some(s) => {
            assert(count_char(" ORDER BY "@, '?') == 0) by {
                reveal_strlit(" ORDER BY ");
                lemma_count_char_absent(" ORDER BY "@, '?');
            }
            assert(count_char(" "@, '?') == 0) by {
                reveal_strlit(" ");
                lemma_count_char_absent(" "@, '?');
            }
            assert(count_char(", id ASC"@, '?') == 0) by {
                reveal_strlit(", id ASC");
                lemma_count_char_absent(", id ASC"@, '?');
            }
            assert(count_char(sort_order_sql(s.order), '?') == 0) by {
                reveal_strlit("ASC");
                reveal_strlit("DESC");
                lemma_count_char_absent(sort_order_sql(s.order), '?');
            }
            assert(count_char(s.field@, '?') == 0) by {
                crate::filter::lemma_lookup_name_wf(fields, s.field@);
            }
            lemma_count_char_concat(" ORDER BY "@, s.field@, '?');
            lemma_count_char_concat(" ORDER BY "@ + s.field@, " "@, '?');
            lemma_count_char_concat(" ORDER BY "@ + s.field@ + " "@, sort_order_sql(s.order), '?');
            lemma_count_char_concat(
                " ORDER BY "@ + s.field@ + " "@ + sort_order_sql(s.order),
                ", id ASC"@,
                '?',
            );
        },
        None => {},
    }
}

/// The statement of one batched multi-key fetch: every key of a drained
/// loader batch, answered by a single round trip.
pub open spec fn batch_fetch_text(table: Seq<char>, n: nat) -> Seq<char> {
    "SELECT * FROM "@ + table + (" WHERE "@ + ("id"@ + " IN ("@ + placeholder_list(n) + ")"@))
        + " ORDER BY id ASC"@ + " LIMIT ? OFFSET ?"@
}

/// The limit a batch fetch runs under: one row per key, capped.
pub open spec fn batch_fetch_limit(n: nat) -> u32 {
    if n > MAX_LIMIT {
        MAX_LIMIT
    } else {
        n as u32
    }
}

/// Builds the one statement that fetches every listed key — the store side
/// of a drained loader batch (`get_many_by_ids`).
///
/// On success the statement selects the rows whose `id` is among the keys,
/// ordered by primary key, with one placeholder per key plus the two of the
/// window, and the binds are exactly the keys in order followed by the
/// applied limit and offset zero. The schema must allow-list `id` as an
/// identifier column: otherwise the same validation errors arise that any
/// filter over that field would get.
#[verifier::loop_isolation(false)]
pub fn batch_fetch_statement(schema: &Schema, keys: &Vec<u128>) -> (r: Result<
    (String, Vec<ScalarValue>),
    SDKError,
>)
    requires
        keys@.len() >= 1,
    ensures
        match lookup_field(schema.fields@, "id"@) {
            None => r == Err::<(String, Vec<ScalarValue>), SDKError>(SDKError::UnknownField),
            Some(ty) => {
                if ty != FieldType::Id {
                    r == Err::<(String, Vec<ScalarValue>), SDKError>(SDKError::TypeMismatch)
                } else {
                    &&& r is Ok
                    &&& r->Ok_0.0@ == batch_fetch_text(schema.table@, keys@.len())
                    &&& r->Ok_0.1@ == keys@.map_values(|k: u128| ScalarValue::Id(k)) + seq![
                        ScalarValue::Integer(batch_fetch_limit(keys@.len()) as i64),
                        ScalarValue::Integer(0),
                    ]
                }
            },
        },
{
    let n = keys.len();
    let mut items: Vec<ScalarValue> = Vec::new();
    for i in 0..n
        invariant
            n == keys@.len(),
            items@ == keys@.subrange(0, i as int).map_values(|k: u128| ScalarValue::Id(k)),
    {
        items.push(ScalarValue::Id(keys[i]));
        proof {
            assert(items@ =~= keys@.subrange(0, i + 1).map_values(
                |k: u128| ScalarValue::Id(k),
            ));
        }
    }
    proof {
        assert(keys@.subrange(0, n as int) =~= keys@);
    }
    let limit: u32 = if n > 10000 {
        10000
    } else {
        n as u32
    };
    let node = FilterNode::Comparison {
        field: "id".to_owned(),
        op: crate::commons::SQLComparison::In,
        value: ScalarValue::List(items),
    };
    let q = QuerySpec { filter: node, sort: None, limit, offset: 0 };
    let ghost mapped = keys@.map_values(|k: u128| ScalarValue::Id(k));
    proof {
        match lookup_field(schema.fields@, "id"@) {
            None => {},
            Some(ty) => {
                assert(mapped[0] == ScalarValue::Id(keys@[0]));
                if ty == FieldType::Id {
                    assert forall|j: int|
                        0 <= j < mapped.len() implies crate::filter::scalar_matches(
                        #[trigger] mapped[j],
                        ty,
                    ) by {
                        assert(mapped[j] == ScalarValue::Id(keys@[j]));
                    }
                } else {
                    assert(!crate::filter::scalar_matches(mapped[0], ty));
                }
            },
        }
    }
    let r = build_statement(schema, q);
    proof {
        match lookup_field(schema.fields@, "id"@) {
            None => {},
            Some(ty) => {
                if ty == FieldType::Id {
                    match &r {
                        Ok(p) => {
                            assert(p.0@ =~= batch_fetch_text(schema.table@, keys@.len()));
                            assert(p.1@ =~= mapped + seq![
                                ScalarValue::Integer(batch_fetch_limit(keys@.len()) as i64),
                                ScalarValue::Integer(0),
                            ]);
                        },
                        Err(_) => {},
                    }
                }
            },
        }
    }
    r
}

} // verus!
