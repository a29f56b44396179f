//! JSON values: what the library reads from them and how it builds them.
use vstd::prelude::*;

use crate::text::texts_view;

verus! {

/// What a JSON value holds. A number that is kept in floating point is told
/// apart from an integer and not described further.
#[verifier::ext_equal]
pub enum JsonView {
    Null,
    Bool(bool),
    Integer(int),
    Fraction,
    Text(Seq<char>),
    Array(Seq<JsonView>),
    Object(Map<Seq<char>, JsonView>),
}

#[verifier::external_type_specification]
#[verifier::external_body]
pub struct ExJsonValue(serde_json::Value);

#[verifier::external_type_specification]
#[verifier::external_body]
#[verifier::reject_recursive_types(K)]
#[verifier::reject_recursive_types(V)]
pub struct ExJsonMap<K, V>(serde_json::Map<K, V>);

/// What `value` holds.
pub uninterp spec fn value_view(value: serde_json::Value) -> JsonView;

/// The entries of `object`.
pub uninterp spec fn object_entries(object: serde_json::Map<String, serde_json::Value>) -> Map<
    Seq<char>,
    JsonView,
>;

/// The entries of an empty object.
pub open spec fn no_entries() -> Map<Seq<char>, JsonView> {
    Map::empty()
}

/// What the values of a list hold.
pub open spec fn values_view(values: Seq<serde_json::Value>) -> Seq<JsonView> {
    Seq::new(values.len(), |i: int| value_view(values[i]))
}

/// Calls `serde_json::Map::get`: the value of the entry under `key`, and
/// nothing exactly where the object has no such entry.
#[verifier::external_body]
pub(crate) fn object_get<'a>(
    object: &'a serde_json::Map<String, serde_json::Value>,
    key: &str,
) -> (found: Option<&'a serde_json::Value>)
    ensures
        match found {
            Some(value) => object_entries(*object).contains_key(key@) && value_view(*value)
                == object_entries(*object)[key@],
            None => !object_entries(*object).contains_key(key@),
        },
{
    object.get(key)
}

/// Calls `serde_json::Map::new`: an object without entries.
#[verifier::external_body]
pub(crate) fn object_new() -> (object: serde_json::Map<String, serde_json::Value>)
    ensures
        object_entries(object) == no_entries(),
{
    serde_json::Map::new()
}

/// Calls `serde_json::Map::insert`: the object then has `value` under `key`,
/// in place of what it had there, and its other entries as before. The value
/// that the call hands back is dropped.
#[verifier::external_body]
pub(crate) fn object_insert(
    object: &mut serde_json::Map<String, serde_json::Value>,
    key: &str,
    value: serde_json::Value,
)
    ensures
        object_entries(*final(object)) == object_entries(*old(object)).insert(
            key@,
            value_view(value),
        ),
{
    object.insert(key.to_string(), value);
}

/// Calls `serde_json::Value::as_str`: the text of a JSON string, and nothing
/// for a value of another type.
#[verifier::external_body]
pub(crate) fn value_as_str<'a>(value: &'a serde_json::Value) -> (text: Option<&'a str>)
    ensures
        match text {
            Some(found) => value_view(*value) == JsonView::Text(found@),
            None => !(value_view(*value) is Text),
        },
{
    value.as_str()
}

/// Calls `serde_json::Value::as_object`: the object that the value is, and
/// nothing for a value of another type.
#[verifier::external_body]
pub(crate) fn value_as_object<'a>(value: &'a serde_json::Value) -> (object: Option<
    &'a serde_json::Map<String, serde_json::Value>,
>)
    ensures
        match object {
            Some(found) => value_view(*value) == JsonView::Object(object_entries(*found)),
            None => !(value_view(*value) is Object),
        },
{
    value.as_object()
}

/// Calls `serde_json::Value::as_bool`: the truth value of a JSON boolean, and
/// nothing for a value of another type.
#[verifier::external_body]
pub(crate) fn value_as_bool(value: &serde_json::Value) -> (truth: Option<bool>)
    ensures
        match truth {
            Some(found) => value_view(*value) == JsonView::Bool(found),
            None => !(value_view(*value) is Bool),
        },
{
    value.as_bool()
}

/// Calls `serde_json::Value::as_i64`: the number, where the value is an
/// integer in the range of `i64`, and nothing for any other value.
#[verifier::external_body]
pub(crate) fn value_as_i64(value: &serde_json::Value) -> (number: Option<i64>)
    ensures
        match number {
            Some(found) => value_view(*value) == JsonView::Integer(found as int),
            None => !(value_view(*value) matches JsonView::Integer(n) && i64::MIN <= n <= i64::MAX),
        },
{
    value.as_i64()
}

/// Calls the `clone` of `serde_json::Value`: a value that holds the same.
#[verifier::external_body]
pub(crate) fn value_clone(value: &serde_json::Value) -> (copy: serde_json::Value)
    ensures
        value_view(copy) == value_view(*value),
{
    value.clone()
}

/// Makes a `serde_json::Value::Null`.
#[verifier::external_body]
pub(crate) fn null_value() -> (value: serde_json::Value)
    ensures
        value_view(value) == JsonView::Null,
{
    serde_json::Value::Null
}

/// Makes a `serde_json::Value::Bool`.
#[verifier::external_body]
pub(crate) fn bool_value(content: bool) -> (value: serde_json::Value)
    ensures
        value_view(value) == JsonView::Bool(content),
{
    serde_json::Value::Bool(content)
}

/// Calls the `from` of `serde_json::Value` for `i64`: the number `content`.
#[verifier::external_body]
pub(crate) fn integer_value(content: i64) -> (value: serde_json::Value)
    ensures
        value_view(value) == JsonView::Integer(content as int),
{
    serde_json::Value::from(content)
}

/// Makes a `serde_json::Value::String`.
#[verifier::external_body]
pub(crate) fn text_value(content: &str) -> (value: serde_json::Value)
    ensures
        value_view(value) == JsonView::Text(content@),
{
    serde_json::Value::String(content.to_string())
}

/// Makes a `serde_json::Value::Array`.
#[verifier::external_body]
pub(crate) fn array_value(content: Vec<serde_json::Value>) -> (value: serde_json::Value)
    ensures
        value_view(value) == JsonView::Array(values_view(content@)),
{
    serde_json::Value::Array(content)
}

/// Makes a `serde_json::Value::Object`.
#[verifier::external_body]
pub(crate) fn object_value(content: serde_json::Map<String, serde_json::Value>) -> (value:
    serde_json::Value)
    ensures
        value_view(value) == JsonView::Object(object_entries(content)),
{
    serde_json::Value::Object(content)
}

// ---------------------------------------------------------------------------
// Reading
// ---------------------------------------------------------------------------
/// The text under `key`.
pub open spec fn text_at(entries: Map<Seq<char>, JsonView>, key: Seq<char>) -> Option<Seq<char>> {
    if entries.contains_key(key) {
        match entries[key] {
            JsonView::Text(text) => Some(text),
            _ => None,
        }
    } else {
        None
    }
}

/// The text under `key`, where that entry is a string.
pub fn object_text<'a>(
    object: &'a serde_json::Map<String, serde_json::Value>,
    key: &str,
) -> (text: Option<&'a str>)
    ensures
        match text {
            Some(found) => text_at(object_entries(*object), key@) == Some(found@),
            None => text_at(object_entries(*object), key@) is None,
        },
{
    match object_get(object, key) {
        Some(value) => value_as_str(value),
        None => None,
    }
}

// ---------------------------------------------------------------------------
// Building
// ---------------------------------------------------------------------------
/// The list of texts as a JSON array.
pub open spec fn text_array(texts: Seq<Seq<char>>) -> JsonView {
    JsonView::Array(Seq::new(texts.len(), |i: int| JsonView::Text(texts[i])))
}

/// The list of texts as a JSON array.
pub fn texts_value(texts: &Vec<String>) -> (value: serde_json::Value)
    ensures
        value_view(value) == text_array(texts_view(texts@)),
{
    let mut values: Vec<serde_json::Value> = Vec::new();
    let mut i: usize = 0;
    while i < texts.len()
        invariant
            i <= texts.len(),
            values@.len() == i,
            forall|k: int|
                0 <= k < i ==> value_view(#[trigger] values@[k]) == JsonView::Text(texts@[k]@),
        decreases texts.len() - i,
    {
        values.push(text_value(texts[i].as_str()));
        i += 1;
    }
    assert(values_view(values@) =~= Seq::new(
        texts@.len(),
        |i: int| JsonView::Text(texts_view(texts@)[i]),
    ));
    array_value(values)
}

} // verus!
