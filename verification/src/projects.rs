//! The project resource's field-mapping descriptor.

use vstd::prelude::*;
use vstd::string::StringExecFns;

use crate::filter::FieldDef;
use crate::filter::FieldType;
use crate::filter::Schema;
use crate::filter::lookup_field;
use crate::filter::lookup_from;
use crate::filter::schema_fields_wf;
use crate::text::count_char;
use crate::text::lemma_count_char_absent;

verus! {

/// The project allow-list, entry by entry: exactly these ten fields, in this
/// order, with these declared types.
pub open spec fn project_fields_spec(fields: Seq<FieldDef>) -> bool {
    &&& fields.len() == 10
    &&& fields[0].name@ == "id"@ && fields[0].ty == FieldType::Id
    &&& fields[1].name@ == "created_at"@ && fields[1].ty == FieldType::Timestamp
    &&& fields[2].name@ == "updated_at"@ && fields[2].ty == FieldType::Timestamp
    &&& fields[3].name@ == "name"@ && fields[3].ty == FieldType::Text
    &&& fields[4].name@ == "prefix"@ && fields[4].ty == FieldType::Text
    &&& fields[5].name@ == "owner_id"@ && fields[5].ty == FieldType::Id
    &&& fields[6].name@ == "description"@ && fields[6].ty == FieldType::Text
    &&& fields[7].name@ == "lead_id"@ && fields[7].ty == FieldType::Id
    &&& fields[8].name@ == "start_date"@ && fields[8].ty == FieldType::Timestamp
    &&& fields[9].name@ == "due_date"@ && fields[9].ty == FieldType::Timestamp
}

/// The allow-listed fields a filter or sort over projects may name, each
/// with its declared type, and the table they live in. Nothing outside this
/// list ever reaches query text.
pub fn project_schema() -> (r: Schema)
    ensures
        project_fields_spec(r.fields@),
        schema_fields_wf(r.fields@),
        count_char(r.table@, '?') == 0,
        r.table@ == "projects"@,
        lookup_field(r.fields@, "id"@) == Some(FieldType::Id),
        lookup_field(r.fields@, "created_at"@) == Some(FieldType::Timestamp),
        lookup_field(r.fields@, "updated_at"@) == Some(FieldType::Timestamp),
        lookup_field(r.fields@, "name"@) == Some(FieldType::Text),
        lookup_field(r.fields@, "prefix"@) == Some(FieldType::Text),
        lookup_field(r.fields@, "owner_id"@) == Some(FieldType::Id),
        lookup_field(r.fields@, "description"@) == Some(FieldType::Text),
        lookup_field(r.fields@, "lead_id"@) == Some(FieldType::Id),
        lookup_field(r.fields@, "start_date"@) == Some(FieldType::Timestamp),
        lookup_field(r.fields@, "due_date"@) == Some(FieldType::Timestamp),
{
    let mut fields: Vec<FieldDef> = Vec::new();
    fields.push(FieldDef { name: "id".to_owned(), ty: FieldType::Id });
    fields.push(FieldDef { name: "created_at".to_owned(), ty: FieldType::Timestamp });
    fields.push(FieldDef { name: "updated_at".to_owned(), ty: FieldType::Timestamp });
    fields.push(FieldDef { name: "name".to_owned(), ty: FieldType::Text });
    fields.push(FieldDef { name: "prefix".to_owned(), ty: FieldType::Text });
    fields.push(FieldDef { name: "owner_id".to_owned(), ty: FieldType::Id });
    fields.push(FieldDef { name: "description".to_owned(), ty: FieldType::Text });
    fields.push(FieldDef { name: "lead_id".to_owned(), ty: FieldType::Id });
    fields.push(FieldDef { name: "start_date".to_owned(), ty: FieldType::Timestamp });
    fields.push(FieldDef { name: "due_date".to_owned(), ty: FieldType::Timestamp });
    let r = Schema { table: "projects".to_owned(), fields };
    proof {
        assert(count_char("projects"@, '?') == 0) by {
            reveal_strlit("projects");
            lemma_count_char_absent("projects"@, '?');
        }
        assert forall|i: int|
            0 <= i < r.fields@.len() implies count_char(#[trigger] r.fields@[i].name@, '?')
            == 0 by {
            reveal_strlit("id");
            reveal_strlit("created_at");
            reveal_strlit("updated_at");
            reveal_strlit("name");
            reveal_strlit("prefix");
            reveal_strlit("owner_id");
            reveal_strlit("description");
            reveal_strlit("lead_id");
            reveal_strlit("start_date");
            reveal_strlit("due_date");
            lemma_count_char_absent(r.fields@[i].name@, '?');
        }
        reveal_strlit("id");
        reveal_strlit("created_at");
        reveal_strlit("updated_at");
        reveal_strlit("name");
        reveal_strlit("prefix");
        reveal_strlit("owner_id");
        reveal_strlit("description");
        reveal_strlit("lead_id");
        reveal_strlit("start_date");
        reveal_strlit("due_date");
        reveal_with_fuel(lookup_from, 12);
    }
    r
}

} // verus!
