//! JSON documents, as far as the checker reads and writes them.

use vstd::prelude::*;

verus! {

/// A JSON document.
///
/// A number without a fraction is held by its value; of any other number only
/// that it is one. The fields of an object keep their order.
#[derive(Debug)]
pub enum Json {
    Null,
    Bool(bool),
    Int(i128),
    Float,
    Text(String),
    Array(Vec<Json>),
    Object(Vec<(String, Json)>),
}

/// What a JSON document says.
pub enum JsonView {
    Null,
    Bool(bool),
    Int(int),
    Float,
    Text(Seq<char>),
    Array(Seq<JsonView>),
    Object(Seq<(Seq<char>, JsonView)>),
}

impl View for Json {
    type V = JsonView;

    open spec fn view(&self) -> JsonView
        decreases self,
    {
        match self {
            Json::Null => JsonView::Null,
            Json::Bool(value) => JsonView::Bool(*value),
            Json::Int(value) => JsonView::Int(*value as int),
            Json::Float => JsonView::Float,
            Json::Text(text) => JsonView::Text(text@),
            Json::Array(items) => JsonView::Array(json_views(items@)),
            Json::Object(fields) => JsonView::Object(field_views(fields@)),
        }
    }
}

/// What each document of a list says.
pub open spec fn json_views(items: Seq<Json>) -> Seq<JsonView>
    decreases items,
{
    Seq::new(
        items.len(),
        |i: int|
            if 0 <= i < items.len() {
                items[i].view()
            } else {
                JsonView::Null
            },
    )
}

/// What each field of an object says.
pub open spec fn field_views(fields: Seq<(String, Json)>) -> Seq<(Seq<char>, JsonView)>
    decreases fields,
{
    Seq::new(
        fields.len(),
        |i: int|
            if 0 <= i < fields.len() {
                (fields[i].0@, fields[i].1.view())
            } else {
                (Seq::empty(), JsonView::Null)
            },
    )
}

/// The value of the first field called `name`.
pub open spec fn first_field(fields: Seq<(Seq<char>, JsonView)>, name: Seq<char>) -> Option<
    JsonView,
>
    decreases fields.len(),
{
    if fields.len() == 0 {
        None
    } else if fields[0].0 == name {
        Some(fields[0].1)
    } else {
        first_field(fields.drop_first(), name)
    }
}

impl JsonView {
    /// The field called `name`, of an object that has one.
    pub open spec fn field(self, name: Seq<char>) -> Option<JsonView> {
        match self {
            JsonView::Object(fields) => first_field(fields, name),
            _ => None,
        }
    }

    /// The value of a number that fits in 64 bits with a sign.
    pub open spec fn as_i64(self) -> Option<i64> {
        match self {
            JsonView::Int(value) => if i64::MIN <= value <= i64::MAX {
                Some(value as i64)
            } else {
                None
            },
            _ => None,
        }
    }

    /// The value of a number that fits in 64 bits without a sign.
    pub open spec fn as_u64(self) -> Option<u64> {
        match self {
            JsonView::Int(value) => if 0 <= value <= u64::MAX {
                Some(value as u64)
            } else {
                None
            },
            _ => None,
        }
    }

    /// The characters of a string.
    pub open spec fn as_text(self) -> Option<Seq<char>> {
        match self {
            JsonView::Text(text) => Some(text),
            _ => None,
        }
    }

    /// The items of an array.
    pub open spec fn as_array(self) -> Option<Seq<JsonView>> {
        match self {
            JsonView::Array(items) => Some(items),
            _ => None,
        }
    }
}

/// What a document that may be missing says.
pub open spec fn optional_view(document: Option<&Json>) -> Option<JsonView> {
    match document {
        Some(json) => Some(json@),
        None => None,
    }
}

impl Json {
    /// The field called `name`, of an object that has one.
    pub fn get(&self, name: &str) -> (field: Option<&Json>)
        ensures
            optional_view(field) == self@.field(name@),
    {
        match self {
            Json::Object(fields) => {
                let wanted: String = name.to_owned();
                let mut i: usize = 0;
                assert(field_views(fields@).skip(0) == field_views(fields@));
                while i < fields.len()
                    invariant
                        i <= fields.len(),
                        wanted@ == name@,
                        self@ == JsonView::Object(field_views(fields@)),
                        self@.field(name@) == first_field(
                            field_views(fields@).skip(i as int),
                            name@,
                        ),
                    decreases fields.len() - i,
                {
                    let ghost rest = field_views(fields@).skip(i as int);
                    assert(rest[0] == (fields@[i as int].0@, fields@[i as int].1@));
                    assert(rest.drop_first() == field_views(fields@).skip(i + 1));
                    if fields[i].0 == wanted {
                        return Some(&fields[i].1);
                    }
                    i += 1;
                }
                None
            },
            _ => None,
        }
    }

    /// The value of a number that fits in 64 bits with a sign.
    pub fn as_i64(&self) -> (value: Option<i64>)
        ensures
            value == self@.as_i64(),
    {
        match self {
            Json::Int(value) => if i64::MIN as i128 <= *value && *value <= i64::MAX as i128 {
                Some(*value as i64)
            } else {
                None
            },
            _ => None,
        }
    }

    /// The value of a number that fits in 64 bits without a sign.
    pub fn as_u64(&self) -> (value: Option<u64>)
        ensures
            value == self@.as_u64(),
    {
        match self {
            Json::Int(value) => if 0 <= *value && *value <= u64::MAX as i128 {
                Some(*value as u64)
            } else {
                None
            },
            _ => None,
        }
    }

    /// The string that the document is.
    pub fn as_text(&self) -> (text: Option<&String>)
        ensures
            match text {
                Some(text) => self@.as_text() == Some(text@),
                None => self@.as_text() is None,
            },
    {
        match self {
            Json::Text(text) => Some(text),
            _ => None,
        }
    }

    /// The array that the document is.
    pub fn as_array(&self) -> (items: Option<&Vec<Json>>)
        ensures
            match items {
                Some(items) => self@.as_array() == Some(json_views(items@)),
                None => self@.as_array() is None,
            },
    {
        match self {
            Json::Array(items) => Some(items),
            _ => None,
        }
    }

    /// A string document.
    pub fn text(text: &str) -> (json: Json)
        ensures
            json@ == JsonView::Text(text@),
    {
        Json::Text(text.to_owned())
    }
}

/// A field of an object.
pub fn entry(name: &str, value: Json) -> (field: (String, Json))
    ensures
        field.0@ == name@,
        field.1 == value,
{
    (name.to_owned(), value)
}

} // verus!
