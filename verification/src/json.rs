//! JSON documents as trees.

use vstd::prelude::*;
use vstd::string::*;
use crate::table::{get, lookup_from};
use crate::text::same;
use crate::views::{each, each_empty, each_push, seen, settled, Text};

verus! {

/// A JSON value.
pub enum Json {
    Null,
    Bool(bool),
    /// A whole number without a sign.
    Number(u64),
    /// Any other number, as `serde_json` holds it.
    OtherNumber(serde_json::Number),
    Text(String),
    Array(Vec<Json>),
    Object(Vec<(String, Json)>),
}

/// A JSON value over characters.
pub enum JsonView {
    Null,
    Bool(bool),
    Number(u64),
    OtherNumber(serde_json::Number),
    Text(Seq<char>),
    Array(Seq<JsonView>),
    Object(Seq<(Seq<char>, JsonView)>),
}

impl View for Json {
    type V = JsonView;

    open spec fn view(&self) -> JsonView
        decreases self,
    {
        match self {
            Json::Null => JsonView::Null,
            Json::Bool(value) => JsonView::Bool(*value),
            Json::Number(value) => JsonView::Number(*value),
            Json::OtherNumber(number) => JsonView::OtherNumber(*number),
            Json::Text(text) => JsonView::Text(text@),
            Json::Array(items) => JsonView::Array(
                Seq::new(
                    items@.len(),
                    |i: int|
                        if 0 <= i < items@.len() {
                            items@[i]@
                        } else {
                            JsonView::Null
                        },
                ),
            ),
            Json::Object(fields) => JsonView::Object(
                Seq::new(
                    fields@.len(),
                    |i: int|
                        if 0 <= i < fields@.len() {
                            (fields@[i].0@, fields@[i].1@)
                        } else {
                            (Seq::empty(), JsonView::Null)
                        },
                ),
            ),
        }
    }
}

/// Fields of an object.
pub type FieldsView = Seq<(Seq<char>, JsonView)>;

/// The value of a field, where the value is an object that has it.
pub open spec fn field(json: JsonView, name: Seq<char>) -> Option<JsonView> {
    match json {
        JsonView::Object(fields) => get(fields, name),
        _ => None,
    }
}

/// The text of a text value.
pub open spec fn text_value(json: JsonView) -> Option<Seq<char>> {
    match json {
        JsonView::Text(text) => Some(text),
        _ => None,
    }
}

pub proof fn object_view(fields: Vec<(String, Json)>)
    ensures
        Json::Object(fields)@ == JsonView::Object(each(fields@)),
{
    reveal_with_fuel(<Json as View>::view, 2);
    assert(Json::Object(fields)@->Object_0 =~= each(fields@));
}

pub proof fn array_view(items: Vec<Json>)
    ensures
        Json::Array(items)@ == JsonView::Array(each(items@)),
{
    reveal_with_fuel(<Json as View>::view, 2);
    assert(Json::Array(items)@->Array_0 =~= each(items@));
}

impl Json {
    pub fn field(&self, name: &str) -> (r: Option<&Json>)
        ensures
            seen(r) == field(self@, name@),
    {
        match self {
            Json::Object(fields) => {
                proof {
                    object_view(*fields);
                }
                find_field(fields, name)
            },
            _ => None,
        }
    }

    pub fn as_text(&self) -> (r: Option<&str>)
        ensures
            seen(r) == text_value(self@),
    {
        match self {
            Json::Text(text) => Some(text.as_str()),
            _ => None,
        }
    }

    pub fn is_null(&self) -> (r: bool)
        ensures
            r == (self@ == JsonView::Null),
    {
        match self {
            Json::Null => true,
            _ => false,
        }
    }
}

/// The value of the first field of a name.
pub fn find_field<'a>(fields: &'a Vec<(String, Json)>, name: &str) -> (r: Option<&'a Json>)
    ensures
        seen(r) == get(each(fields@), name@),
{
    let mut i: usize = 0;
    while i < fields.len()
        invariant
            i <= fields.len(),
            get(each(fields@), name@) == lookup_from(each(fields@), name@, i as int),
        decreases fields.len() - i,
    {
        assert(each(fields@)[i as int] == fields@[i as int]@);
        if same(&fields[i].0, name) {
            return Some(&fields[i].1);
        }
        i += 1;
    }
    None
}

/// An object that is being put together.
pub struct Fields {
    pub items: Vec<(String, Json)>,
}

impl View for Fields {
    type V = Seq<(Seq<char>, JsonView)>;

    open spec fn view(&self) -> Seq<(Seq<char>, JsonView)> {
        each(self.items@)
    }
}

impl Fields {
    pub fn new() -> (r: Fields)
        ensures
            r@ == Seq::<(Seq<char>, JsonView)>::empty(),
    {
        proof {
            each_empty::<(String, Json)>();
        }
        Fields { items: Vec::new() }
    }

    pub fn with(self, name: &str, value: Json) -> (r: Fields)
        ensures
            r@ == self@.push((name@, value@)),
    {
        let mut r = self;
        let entry = (name.to_owned(), value);
        proof {
            each_push(r.items@, entry);
        }
        r.items.push(entry);
        r
    }

    pub fn text(self, name: &str, value: &str) -> (r: Fields)
        ensures
            r@ == self@.push((name@, JsonView::Text(value@))),
    {
        self.with(name, Json::Text(value.to_owned()))
    }

    pub fn object(self) -> (r: Json)
        ensures
            r@ == JsonView::Object(self@),
    {
        proof {
            object_view(self.items);
        }
        Json::Object(self.items)
    }
}

/// What a document holds, or how `serde_json` describes what is wrong with it.
pub uninterp spec fn json_parsed(bytes: Seq<u8>) -> Result<JsonView, Seq<char>>;

/// `serde_json::from_slice` to a `serde_json::Value`, which is taken over one for one.
#[verifier::external_body]
pub(crate) fn parse_json(bytes: &[u8]) -> (r: Result<Json, String>)
    ensures
        settled(r) == json_parsed(bytes@),
{
    let value: Result<serde_json::Value, serde_json::Error> = serde_json::from_slice(bytes);
    value.map(json_of).map_err(|error| error.to_string())
}

/// A `serde_json::Value`, taken over one for one. Whole numbers without a sign are told apart
/// by `serde_json::Number::as_u64`; of the others nothing is said but that they are kept.
#[verifier::external_body]
fn json_of(value: serde_json::Value) -> (r: Json) {
    match value {
        serde_json::Value::Null => Json::Null,
        serde_json::Value::Bool(value) => Json::Bool(value),
        serde_json::Value::Number(n) => n.as_u64().map_or(Json::OtherNumber(n), Json::Number),
        serde_json::Value::String(text) => Json::Text(text),
        serde_json::Value::Array(items) => Json::Array(items.into_iter().map(json_of).collect()),
        serde_json::Value::Object(fields) => Json::Object(
            fields.into_iter().map(|(name, value)| (name, json_of(value))).collect(),
        ),
    }
}

/// A value as `serde_json` writes it.
pub uninterp spec fn json_text(json: JsonView) -> Seq<char>;

/// `serde_json::Value::to_string` on a value that is handed over one for one.
#[verifier::external_body]
pub(crate) fn write_json(json: Json) -> (r: String)
    ensures
        r@ == json_text(json@),
{
    value_of(json).to_string()
}

/// A value, handed over to `serde_json` one for one.
#[verifier::external_body]
fn value_of(json: Json) -> (r: serde_json::Value) {
    match json {
        Json::Null => serde_json::Value::Null,
        Json::Bool(value) => serde_json::Value::Bool(value),
        Json::Number(n) => serde_json::Value::from(n),
        Json::OtherNumber(n) => serde_json::Value::Number(n),
        Json::Text(text) => serde_json::Value::String(text),
        Json::Array(items) => items.into_iter().map(value_of).collect(),
        Json::Object(fields) => fields.into_iter().map(|(name, json)| (name, value_of(json))).collect(),
    }
}

/// `serde_json::Value`.
#[verifier::external_type_specification]
#[verifier::external_body]
pub struct ExValue(serde_json::Value);

/// `serde_json::Number`.
#[verifier::external_type_specification]
#[verifier::external_body]
pub struct ExNumber(serde_json::Number);

} // verus!
