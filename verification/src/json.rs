//! Reading JSON values held by `serde_json`.
//!
//! A `serde_json::Value` is opaque here. [`json_of`] names what it holds, as a [`Json`] tree, and
//! the functions below say what they read off it in terms of that tree.

use vstd::prelude::*;

use crate::text::string_views;

verus! {

/// `serde_json::Value`, carried but never looked into.
#[verifier::external_type_specification]
#[verifier::external_body]
pub struct ExValue(serde_json::Value);

/// A JSON value, as far as anything is read off one: what a number is, is left out.
pub ghost enum Json {
    Null,
    Bool(bool),
    Number,
    Text(Seq<char>),
    List(Seq<Json>),
    Object(Map<Seq<char>, Json>),
}

/// What a `serde_json::Value` holds.
pub uninterp spec fn json_of(value: serde_json::Value) -> Json;

impl Json {
    /// The member called `key`, if this is an object that has one.
    pub open spec fn member(self, key: Seq<char>) -> Option<Json> {
        match self {
            Json::Object(members) => if members.dom().contains(key) {
                Some(members[key])
            } else {
                None
            },
            _ => None,
        }
    }

    /// The texts of a list of texts; nothing for any other value.
    pub open spec fn texts(self) -> Option<Seq<Seq<char>>> {
        match self {
            Json::List(items) => if forall|i: int| 0 <= i < items.len() ==> items[i] is Text {
                Some(items.map_values(|item: Json| item->Text_0))
            } else {
                None
            },
            _ => None,
        }
    }
}

/// `serde_json::Value::get` with a string: the member of an object under that key. Arrays and
/// scalars have no members.
#[verifier::external_body]
pub(crate) fn member<'a>(value: &'a serde_json::Value, key: &str) -> (member: Option<
    &'a serde_json::Value,
>)
    ensures
        match member {
            Some(found) => json_of(*value).member(key@) == Some(json_of(*found)),
            None => json_of(*value).member(key@) is None,
        },
{
    value.get(key)
}

/// `serde_json::Value::as_array`: the items of an array, and nothing for any other value.
#[verifier::external_body]
pub(crate) fn items(value: &serde_json::Value) -> (items: Option<&Vec<serde_json::Value>>)
    ensures
        match items {
            Some(list) => json_of(*value) == Json::List(
                list@.map_values(|item: serde_json::Value| json_of(item)),
            ),
            None => !(json_of(*value) is List),
        },
{
    value.as_array()
}

/// `serde_json::from_value` into a list of strings: succeeds on an array of nothing but strings,
/// and then holds them in order.
#[verifier::external_body]
pub(crate) fn strings(value: &serde_json::Value) -> (strings: Option<Vec<String>>)
    ensures
        match strings {
            Some(list) => json_of(*value).texts() == Some(string_views(list@)),
            None => json_of(*value).texts() is None,
        },
{
    serde_json::from_value(value.clone()).ok()
}

} // verus!
