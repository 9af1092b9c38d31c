//! Free-form metadata of a layer: a `serde_json::Value`, read and written
//! through the few members that the commands know.

use serde_json::Value;
use vstd::prelude::*;

verus! {

#[verifier::external_type_specification]
#[verifier::external_body]
pub struct ExValue(serde_json::Value);

/// The members of a JSON object that are strings, by name.
pub uninterp spec fn json_texts(value: Value) -> Map<Seq<char>, Seq<char>>;

/// The names of all members of a JSON object.
pub uninterp spec fn json_names(value: Value) -> Set<Seq<char>>;

/// The members of a JSON object that are whole numbers from 0 on, by name.
pub uninterp spec fn json_numbers(value: Value) -> Map<Seq<char>, nat>;

/// The members of a JSON object that are truth values, by name.
pub uninterp spec fn json_flags(value: Value) -> Map<Seq<char>, bool>;

/// The members of a JSON object that are none of these, by name, each as the text
/// that stands for it.
pub uninterp spec fn json_others(value: Value) -> Map<Seq<char>, Seq<char>>;

/// Whether a JSON value is an object.
pub uninterp spec fn json_object(value: Value) -> bool;

/// No member at all.
pub open spec fn no_texts() -> Map<Seq<char>, Seq<char>> {
    Map::empty()
}

/// No number at all.
pub open spec fn no_numbers() -> Map<Seq<char>, nat> {
    Map::empty()
}

/// No truth value at all.
pub open spec fn no_flags() -> Map<Seq<char>, bool> {
    Map::empty()
}

/// `Value::is_object`.
#[verifier::external_body]
pub(crate) fn is_object(value: &Value) -> (r: bool)
    ensures
        r == json_object(*value),
{
    value.is_object()
}

/// `Value::get` with a name, and `Value::as_str` on what it finds: the text of
/// a member that is there and is a string.
#[verifier::external_body]
pub(crate) fn text_member(value: &Value, name: &str) -> (r: Option<String>)
    ensures
        r is Some == json_texts(*value).dom().contains(name@),
        r is Some ==> r->0@ == json_texts(*value)[name@],
{
    value.get(name).and_then(Value::as_str).map(str::to_owned)
}

/// `Value::get` with a name: whether a member of that name is there.
#[verifier::external_body]
pub(crate) fn has_member(value: &Value, name: &str) -> (r: bool)
    ensures
        r == json_names(*value).contains(name@),
{
    value.get(name).is_some()
}

/// `Map::new`, as a value: an object without members.
#[verifier::external_body]
pub(crate) fn empty_object() -> (value: Value)
    ensures
        json_object(value),
        json_texts(value) == no_texts(),
        json_numbers(value) == no_numbers(),
        json_flags(value) == no_flags(),
        json_others(value) == no_texts(),
        json_names(value) == Set::<Seq<char>>::empty(),
{
    Value::Object(serde_json::Map::new())
}

/// `Map::insert` of a string into an object: the member holds the text, all
/// others stay.
#[verifier::external_body]
pub(crate) fn insert_text(value: &mut Value, name: &str, text: &str)
    requires
        json_object(*old(value)),
    ensures
        json_object(*final(value)),
        json_texts(*final(value)) == json_texts(*old(value)).insert(name@, text@),
        json_numbers(*final(value)) == json_numbers(*old(value)).remove(name@),
        json_flags(*final(value)) == json_flags(*old(value)).remove(name@),
        json_others(*final(value)) == json_others(*old(value)).remove(name@),
        json_names(*final(value)) == json_names(*old(value)).insert(name@),
{
    if let Some(members) = value.as_object_mut() {
        members.insert(name.to_owned(), Value::from(text));
    }
}

/// `Map::insert` of a whole number into an object: the member holds the number,
/// all others stay.
#[verifier::external_body]
pub(crate) fn insert_number(value: &mut Value, name: &str, number: u32)
    requires
        json_object(*old(value)),
    ensures
        json_object(*final(value)),
        json_texts(*final(value)) == json_texts(*old(value)).remove(name@),
        json_numbers(*final(value)) == json_numbers(*old(value)).insert(name@, number as nat),
        json_flags(*final(value)) == json_flags(*old(value)).remove(name@),
        json_others(*final(value)) == json_others(*old(value)).remove(name@),
        json_names(*final(value)) == json_names(*old(value)).insert(name@),
{
    if let Some(members) = value.as_object_mut() {
        members.insert(name.to_owned(), Value::from(number));
    }
}

/// `Map::insert` of a boolean into an object: the member holds the boolean, all
/// others stay.
#[verifier::external_body]
pub(crate) fn insert_flag(value: &mut Value, name: &str, flag: bool)
    requires
        json_object(*old(value)),
    ensures
        json_object(*final(value)),
        json_texts(*final(value)) == json_texts(*old(value)).remove(name@),
        json_numbers(*final(value)) == json_numbers(*old(value)).remove(name@),
        json_flags(*final(value)) == json_flags(*old(value)).insert(name@, flag),
        json_others(*final(value)) == json_others(*old(value)).remove(name@),
        json_names(*final(value)) == json_names(*old(value)).insert(name@),
{
    if let Some(members) = value.as_object_mut() {
        members.insert(name.to_owned(), Value::from(flag));
    }
}

/// `Map::remove` on an object: no member of that name is left, all others stay.
#[verifier::external_body]
pub(crate) fn remove_member(value: &mut Value, name: &str)
    requires
        json_object(*old(value)),
    ensures
        json_object(*final(value)),
        json_texts(*final(value)) == json_texts(*old(value)).remove(name@),
        json_numbers(*final(value)) == json_numbers(*old(value)).remove(name@),
        json_flags(*final(value)) == json_flags(*old(value)).remove(name@),
        json_others(*final(value)) == json_others(*old(value)).remove(name@),
        json_names(*final(value)) == json_names(*old(value)).remove(name@),
{
    if let Some(members) = value.as_object_mut() {
        members.remove(name);
    }
}

/// What `serde_json::to_string` writes for a JSON value.
pub uninterp spec fn json_text(value: Value) -> Seq<char>;

/// What `serde_json::to_string_pretty` writes for a JSON value.
pub uninterp spec fn json_pretty(value: Value) -> Seq<char>;

/// `serde_json::to_string` on a JSON value, which writes every value without an
/// error: its text.
#[verifier::external_body]
pub(crate) fn text_of(value: &Value) -> (text: String)
    ensures
        text@ == json_text(*value),
{
    serde_json::to_string(value).unwrap_or_default()
}

/// `serde_json::to_string_pretty` on a JSON value, which writes every value
/// without an error: its text on several lines.
#[verifier::external_body]
pub(crate) fn pretty_text_of(value: &Value) -> (text: String)
    ensures
        text@ == json_pretty(*value),
{
    serde_json::to_string_pretty(value).unwrap_or_default()
}

/// `Value::clone`: the same value.
#[verifier::external_body]
pub(crate) fn copy_meta(value: &Value) -> (r: Value)
    ensures
        r == *value,
{
    value.clone()
}

/// The value itself where it is an object, and an empty object otherwise.
pub(crate) fn object_or_empty(value: &Value) -> (r: Value)
    ensures
        json_object(r),
        json_object(*value) ==> r == *value,
        !json_object(*value) ==> json_texts(r) == no_texts() && json_numbers(r) == no_numbers()
            && json_flags(r) == no_flags() && json_others(r) == no_texts() && json_names(r)
            == Set::<Seq<char>>::empty(),
{
    if is_object(value) {
        copy_meta(value)
    } else {
        empty_object()
    }
}

/// Members that are strings once the value has been made an object.
pub open spec fn object_texts(value: Value) -> Map<Seq<char>, Seq<char>> {
    if json_object(value) {
        json_texts(value)
    } else {
        no_texts()
    }
}

/// Members that are whole numbers once the value has been made an object.
pub open spec fn object_numbers(value: Value) -> Map<Seq<char>, nat> {
    if json_object(value) {
        json_numbers(value)
    } else {
        no_numbers()
    }
}

/// Members that are truth values once the value has been made an object.
pub open spec fn object_flags(value: Value) -> Map<Seq<char>, bool> {
    if json_object(value) {
        json_flags(value)
    } else {
        no_flags()
    }
}

/// All other members once the value has been made an object.
pub open spec fn object_others(value: Value) -> Map<Seq<char>, Seq<char>> {
    if json_object(value) {
        json_others(value)
    } else {
        no_texts()
    }
}

/// Names of the members once the value has been made an object.
pub open spec fn object_names(value: Value) -> Set<Seq<char>> {
    if json_object(value) {
        json_names(value)
    } else {
        Set::empty()
    }
}

} // verus!
