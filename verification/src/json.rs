//! JSON documents as plain values.
//!
//! What a document says is decided here; writing it out as text is left to the
//! JSON library of the program around it.

use vstd::prelude::*;

verus! {

/// A JSON value.
#[derive(Debug)]
pub enum Json {
    Null,
    Number(u64),
    Text(String),
    List(Vec<Json>),
    /// The fields of an object, each with its name.
    Object(Vec<(String, Json)>),
}

/// The fields of an object.
pub type Fields = Seq<(String, Json)>;

/// Whether field `i` is called `key`.
pub open spec fn named(fields: Fields, i: int, key: &str) -> bool {
    0 <= i < fields.len() && fields[i].0@ == key@
}

/// Whether field `i` is called `key` and holds this text.
pub open spec fn text_at(fields: Fields, i: int, key: &str, value: Seq<char>) -> bool {
    named(fields, i, key) && (fields[i].1 matches Json::Text(s) && s@ == value)
}

/// Whether field `i` is called `key` and holds this number.
pub open spec fn number_at(fields: Fields, i: int, key: &str, value: u64) -> bool {
    named(fields, i, key) && fields[i].1 == Json::Number(value)
}

/// The fields of an object, and none of any other value.
pub open spec fn fields_of(value: Json) -> Fields {
    match value {
        Json::Object(fields) => fields@,
        _ => Seq::empty(),
    }
}

/// The items of a list, and none of any other value.
pub open spec fn items_of(value: Json) -> Seq<Json> {
    match value {
        Json::List(items) => items@,
        _ => Seq::empty(),
    }
}

} // verus!
