//! The team resource's field-mapping descriptor.

use vstd::prelude::*;
use vstd::string::StringExecFns;

use crate::filter::FieldDef;
use crate::filter::FieldType;
use crate::filter::Schema;
use crate::filter::lookup_field;
use crate::filter::lookup_from;
use crate::filter::schema_fields_wf;
use crate::text::count_char;
use crate::text::lemma_count_char_absent;

verus! {

/// The team allow-list, entry by entry: exactly these seven fields, in this
/// order, with these declared types. Visibility is an enumerated text
/// column, so it filters as text.
pub open spec fn team_fields_spec(fields: Seq<FieldDef>) -> bool {
    &&& fields.len() == 7
    &&& fields[0].name@ == "id"@ && fields[0].ty == FieldType::Id
    &&& fields[1].name@ == "created_at"@ && fields[1].ty == FieldType::Timestamp
    &&& fields[2].name@ == "updated_at"@ && fields[2].ty == FieldType::Timestamp
    &&& fields[3].name@ == "name"@ && fields[3].ty == FieldType::Text
    &&& fields[4].name@ == "owner_id"@ && fields[4].ty == FieldType::Id
    &&& fields[5].name@ == "visibility"@ && fields[5].ty == FieldType::Text
    &&& fields[6].name@ == "prefix"@ && fields[6].ty == FieldType::Text
}

/// The allow-listed fields a filter or sort over teams may name, each with
/// its declared type, and the table they live in.
pub fn team_schema() -> (r: Schema)
    ensures
        team_fields_spec(r.fields@),
        schema_fields_wf(r.fields@),
        count_char(r.table@, '?') == 0,
        r.table@ == "teams"@,
        lookup_field(r.fields@, "id"@) == Some(FieldType::Id),
        lookup_field(r.fields@, "created_at"@) == Some(FieldType::Timestamp),
        lookup_field(r.fields@, "updated_at"@) == Some(FieldType::Timestamp),
        lookup_field(r.fields@, "name"@) == Some(FieldType::Text),
        lookup_field(r.fields@, "owner_id"@) == Some(FieldType::Id),
        lookup_field(r.fields@, "visibility"@) == Some(FieldType::Text),
        lookup_field(r.fields@, "prefix"@) == Some(FieldType::Text),
{
    let mut fields: Vec<FieldDef> = Vec::new();
    fields.push(FieldDef { name: "id".to_owned(), ty: FieldType::Id });
    fields.push(FieldDef { name: "created_at".to_owned(), ty: FieldType::Timestamp });
    fields.push(FieldDef { name: "updated_at".to_owned(), ty: FieldType::Timestamp });
    fields.push(FieldDef { name: "name".to_owned(), ty: FieldType::Text });
    fields.push(FieldDef { name: "owner_id".to_owned(), ty: FieldType::Id });
    fields.push(FieldDef { name: "visibility".to_owned(), ty: FieldType::Text });
    fields.push(FieldDef { name: "prefix".to_owned(), ty: FieldType::Text });
    let r = Schema { table: "teams".to_owned(), fields };
    proof {
        assert(count_char("teams"@, '?') == 0) by {
            reveal_strlit("teams");
            lemma_count_char_absent("teams"@, '?');
        }
        assert forall|i: int|
            0 <= i < r.fields@.len() implies count_char(#[trigger] r.fields@[i].name@, '?')
            == 0 by {
            reveal_strlit("id");
            reveal_strlit("created_at");
            reveal_strlit("updated_at");
            reveal_strlit("name");
            reveal_strlit("owner_id");
            reveal_strlit("visibility");
            reveal_strlit("prefix");
            lemma_count_char_absent(r.fields@[i].name@, '?');
        }
        reveal_strlit("id");
        reveal_strlit("created_at");
        reveal_strlit("updated_at");
        reveal_strlit("name");
        reveal_strlit("owner_id");
        reveal_strlit("visibility");
        reveal_strlit("prefix");
        reveal_with_fuel(lookup_from, 9);
    }
    r
}

} // verus!
