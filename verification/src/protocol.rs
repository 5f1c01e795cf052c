//! The frames and request bodies that the agent sends, as lists of named
//! fields.
use vstd::prelude::*;

verus! {

/// A parsed JSON value, which the agent hands on without looking inside.
#[verifier::external_type_specification]
#[verifier::external_body]
pub struct ExValue(serde_json::Value);

/// The value of one field of an outgoing JSON object.
#[derive(Debug)]
pub enum Field {
    Null,
    Flag(bool),
    Text(String),
    Json(serde_json::Value),
}

/// What the value of a field holds.
pub enum FieldView {
    Null,
    Flag(bool),
    Text(Seq<char>),
    Json(serde_json::Value),
}

impl View for Field {
    type V = FieldView;

    open spec fn view(&self) -> FieldView {
        match self {
            Field::Null => FieldView::Null,
            Field::Flag(b) => FieldView::Flag(*b),
            Field::Text(s) => FieldView::Text(s@),
            Field::Json(value) => FieldView::Json(*value),
        }
    }
}

/// What the fields of an object hold, by name and in order.
pub open spec fn field_views(fields: Seq<(String, Field)>) -> Seq<(Seq<char>, FieldView)> {
    Seq::new(fields.len(), |i: int| (fields[i].0@, fields[i].1@))
}

/// Appends a field to an object.
pub fn put(fields: &mut Vec<(String, Field)>, name: &str, value: Field)
    ensures
        field_views(final(fields)@) == field_views(old(fields)@).push((name@, value@)),
{
    let key = name.to_owned();
    fields.push((key, value));
    assert(field_views(fields@) == field_views(old(fields)@).push((name@, value@)));
}

/// The fields of an object are those of the list, one for one, each under its
/// own name and with its own value.
pub proof fn law_fields_keep_names_and_values(fields: Seq<(String, Field)>, i: int)
    requires
        0 <= i < fields.len(),
    ensures
        field_views(fields).len() == fields.len(),
        field_views(fields)[i].0 == fields[i].0@,
        fields[i].1 matches Field::Null ==> field_views(fields)[i].1 == FieldView::Null,
        fields[i].1 matches Field::Flag(b) ==> field_views(fields)[i].1 == FieldView::Flag(b),
        fields[i].1 matches Field::Text(s) ==> field_views(fields)[i].1 == FieldView::Text(s@),
        fields[i].1 matches Field::Json(v) ==> field_views(fields)[i].1 == FieldView::Json(v),
{
}

} // verus!
