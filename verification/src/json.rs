//! JSON documents: the tree that `serde_json::Value` holds, as a mathematical
//! value, and the few operations of `serde_json` that the library calls.
use serde_json::Value;
use vstd::prelude::*;

verus! {

/// A JSON document as a mathematical value. A number is kept as its text.
pub enum JsonView {
    Null,
    Bool(bool),
    Number(Seq<char>),
    Text(Seq<char>),
    Array(Seq<JsonView>),
    Object(Map<Seq<char>, JsonView>),
}

impl JsonView {
    /// The member of an object that stands under `key`.
    pub open spec fn member(self, key: Seq<char>) -> Option<JsonView> {
        match self {
            JsonView::Object(members) => if members.contains_key(key) {
                Some(members[key])
            } else {
                None
            },
            _ => None,
        }
    }

    /// The text of a string.
    pub open spec fn text(self) -> Option<Seq<char>> {
        match self {
            JsonView::Text(text) => Some(text),
            _ => None,
        }
    }
}

/// The object without members.
pub open spec fn empty_object() -> JsonView {
    JsonView::Object(Map::empty())
}

/// The array without items.
pub open spec fn empty_array() -> JsonView {
    JsonView::Array(Seq::empty())
}

#[verifier::external_type_specification]
#[verifier::external_body]
pub struct ExValue(Value);

/// The document that a `serde_json::Value` holds.
pub uninterp spec fn json_view(value: Value) -> JsonView;

/// Calls `serde_json::Value::get` with a string: the member of that name where the
/// value is an object that has one, and nothing for any other value.
#[verifier::external_body]
pub(crate) fn json_get<'a>(value: &'a Value, key: &str) -> (found: Option<&'a Value>)
    ensures
        match found {
            Some(member) => json_view(*value).member(key@) == Some(json_view(*member)),
            None => json_view(*value).member(key@) is None,
        },
{
    value.get(key)
}

/// Calls `serde_json::Value::as_str`: the text of a string, and nothing for any
/// other value.
#[verifier::external_body]
pub(crate) fn json_as_str(value: &Value) -> (text: Option<&str>)
    ensures
        match text {
            Some(text) => json_view(*value).text() == Some(text@),
            None => json_view(*value).text() is None,
        },
{
    value.as_str()
}

/// Builds `serde_json::Value::Null`.
#[verifier::external_body]
pub(crate) fn json_null() -> (value: Value)
    ensures
        json_view(value) == JsonView::Null,
{
    Value::Null
}

/// Builds `serde_json::Value::Bool`.
#[verifier::external_body]
pub(crate) fn json_bool(flag: bool) -> (value: Value)
    ensures
        json_view(value) == JsonView::Bool(flag),
{
    Value::Bool(flag)
}

/// Builds `serde_json::Value::String` with a copy of the text.
#[verifier::external_body]
pub(crate) fn json_string(text: &str) -> (value: Value)
    ensures
        json_view(value) == JsonView::Text(text@),
{
    Value::String(text.to_owned())
}

/// Builds `serde_json::Value::Array` of the given items, in their order.
#[verifier::external_body]
pub(crate) fn json_array(items: Vec<Value>) -> (value: Value)
    ensures
        json_view(value) == JsonView::Array(items@.map_values(|item: Value| json_view(item))),
{
    Value::Array(items)
}

/// Builds a `serde_json::Value::Object` without members.
#[verifier::external_body]
pub(crate) fn json_object() -> (value: Value)
    ensures
        json_view(value) == empty_object(),
{
    Value::Object(serde_json::Map::new())
}

/// Assigns through the `IndexMut` of `serde_json::Value`: the member of that name is
/// set, an earlier one replaced. Of a value that is neither an object nor null the
/// assignment panics, so the contract asks for an object.
#[verifier::external_body]
pub(crate) fn json_with(object: Value, key: &str, member: Value) -> (value: Value)
    requires
        json_view(object) is Object,
    ensures
        json_view(value) == JsonView::Object(json_view(object)->Object_0.insert(key@, json_view(member))),
{
    let mut value = object;
    value[key] = member;
    value
}

/// The text that `serde_json::to_string` gives for a document.
pub uninterp spec fn json_text(document: JsonView) -> Seq<char>;

/// Calls `serde_json::to_string` on a value. The members of an object are kept sorted
/// by name, so the text is a function of the document. Writing a `Value` does not fail:
/// its objects have strings for keys.
#[verifier::external_body]
pub(crate) fn json_to_string(value: &Value) -> (text: String)
    ensures
        text@ == json_text(json_view(*value)),
{
    serde_json::to_string(value).unwrap()
}

} // verus!
