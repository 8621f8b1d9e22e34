//! Laws of reading JSON documents.

use crate::json::{self, Json, JsonView};
use vstd::prelude::*;

verus! {

/// A simple document says what it holds.
pub proof fn law_simple_documents(flag: bool, number: i128, text: String)
    ensures
        Json::Null@ == JsonView::Null,
        Json::Float@ == JsonView::Float,
        Json::Bool(flag)@ == JsonView::Bool(flag),
        Json::Int(number)@ == JsonView::Int(number as int),
        Json::Text(text)@ == JsonView::Text(text@),
{
}

/// An array says what each of its items says, in order.
pub proof fn law_array_documents(items: Vec<Json>)
    ensures
        Json::Array(items)@ is Array,
        Json::Array(items)@->Array_0.len() == items@.len(),
        forall|i: int|
            0 <= i < items@.len() ==> #[trigger] Json::Array(items)@->Array_0[i] == items@[i]@,
        json::json_views(items@) == Json::Array(items)@->Array_0,
{
    let said = json::json_views(items@);
    assert(Json::Array(items)@ == JsonView::Array(said));
    assert(said.len() == items@.len());
    assert(forall|i: int| 0 <= i < items@.len() ==> #[trigger] said[i] == items@[i]@);
}

/// An object says what each of its fields is called and says, in order.
pub proof fn law_object_documents(fields: Vec<(String, Json)>)
    ensures
        Json::Object(fields)@ is Object,
        Json::Object(fields)@->Object_0.len() == fields@.len(),
        forall|i: int|
            0 <= i < fields@.len() ==> #[trigger] Json::Object(fields)@->Object_0[i] == (
                fields@[i].0@,
                fields@[i].1@,
            ),
        json::field_views(fields@) == Json::Object(fields)@->Object_0,
{
    let said = json::field_views(fields@);
    assert(Json::Object(fields)@ == JsonView::Object(said));
    assert(said.len() == fields@.len());
    assert(forall|i: int|
        0 <= i < fields@.len() ==> #[trigger] said[i] == (fields@[i].0@, fields@[i].1@));
}

/// A field is found where it stands, provided that none before it is called the
/// same.
pub proof fn law_field_is_found(
    fields: Seq<(Seq<char>, JsonView)>,
    name: Seq<char>,
    i: int,
)
    requires
        0 <= i < fields.len(),
        fields[i].0 == name,
        forall|j: int| 0 <= j < i ==> (#[trigger] fields[j]).0 != name,
    ensures
        JsonView::Object(fields).field(name) == Some(fields[i].1),
    decreases fields.len(),
{
    if i > 0 {
        let rest = fields.drop_first();
        assert(fields[0].0 != name);
        assert forall|j: int| 0 <= j < i - 1 implies (#[trigger] rest[j]).0 != name by {
            assert(rest[j] == fields[j + 1]);
        }
        law_field_is_found(rest, name, i - 1);
    }
}

/// A field that no name of an object matches is not there.
pub proof fn law_field_is_missing(fields: Seq<(Seq<char>, JsonView)>, name: Seq<char>)
    requires
        forall|j: int| 0 <= j < fields.len() ==> (#[trigger] fields[j]).0 != name,
    ensures
        JsonView::Object(fields).field(name) is None,
    decreases fields.len(),
{
    if fields.len() > 0 {
        let rest = fields.drop_first();
        assert(fields[0].0 != name);
        assert forall|j: int| 0 <= j < rest.len() implies (#[trigger] rest[j]).0 != name by {
            assert(rest[j] == fields[j + 1]);
        }
        law_field_is_missing(rest, name);
    }
}

/// Only an object has fields.
pub proof fn law_only_objects_have_fields(document: JsonView, name: Seq<char>)
    ensures
        document.field(name) is Some ==> document is Object,
{
}

/// A number is read as itself wherever it fits, and not at all elsewhere.
pub proof fn law_numbers_are_read(number: int)
    ensures
        match JsonView::Int(number).as_i64() {
            Some(read) => read == number,
            None => number < -0x8000_0000_0000_0000 || number > 0x7fff_ffff_ffff_ffff,
        },
        match JsonView::Int(number).as_u64() {
            Some(read) => read == number,
            None => number < 0 || number > 0xffff_ffff_ffff_ffff,
        },
{
}

/// A string is read as its characters and an array as its items.
pub proof fn law_texts_and_arrays_are_read(text: Seq<char>, items: Seq<JsonView>)
    ensures
        JsonView::Text(text).as_text() == Some(text),
        JsonView::Array(items).as_array() == Some(items),
{
}

/// A document of another kind is not read as what it is not.
pub proof fn law_kinds_are_told_apart(document: JsonView)
    ensures
        document.as_i64() is Some ==> document is Int,
        document.as_u64() is Some ==> document is Int,
        document.as_text() is Some ==> document is Text,
        document.as_array() is Some ==> document is Array,
{
}

/// A document that is there says what it says.
pub proof fn law_optional_documents(document: &Json)
    ensures
        json::optional_view(Some(document)) == Some(document@),
        json::optional_view(None) is None,
{
}

} // verus!
