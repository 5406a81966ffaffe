//! JSON values of `serde_json`, as this crate sees them.
//!
//! A [`serde_json::Value`] is opaque here; what it holds goes by the name
//! [`json_contents`]. The calls that read, build and change values are trusted:
//! their contracts are stated over that name and believed.

use crate::text::decimal;
use serde_json::Value;
use vstd::prelude::*;

verus! {

/// `serde_json::Value`, opaque.
#[verifier::external_type_specification]
#[verifier::external_body]
pub struct ExValue(serde_json::Value);

/// `serde_json::Map`, opaque.
#[verifier::external_type_specification]
#[verifier::external_body]
#[verifier::reject_recursive_types(K)]
#[verifier::reject_recursive_types(V)]
pub struct ExObject<K, V>(serde_json::Map<K, V>);

/// What a JSON value holds.
pub enum Json {
    /// `null`.
    Null,
    /// `true` or `false`.
    Bool(bool),
    /// A whole number from zero up that fits 64 bits.
    Unsigned(u64),
    /// A whole number below zero that fits 64 bits.
    Negative(i64),
    /// Any other number, by the bits of its double-precision value.
    Float(u64),
    /// A string.
    Text(Seq<char>),
    /// An array.
    Array(Seq<Json>),
    /// An object; its members are kept in the order of their names.
    Object(Map<Seq<char>, Json>),
}

/// What a value holds.
pub uninterp spec fn json_contents(value: Value) -> Json;

/// The members of an object.
pub uninterp spec fn object_members(object: serde_json::Map<String, Value>) -> Map<
    Seq<char>,
    Json,
>;

/// The members of the empty object.
pub open spec fn no_members() -> Map<Seq<char>, Json> {
    Map::empty()
}

/// The member of an object, if the value is an object and has it.
pub open spec fn member(json: Json, name: Seq<char>) -> Option<Json> {
    match json {
        Json::Object(members) => if members.contains_key(name) {
            Some(members[name])
        } else {
            None
        },
        _ => None,
    }
}

/// The text of a string.
pub open spec fn text_of(json: Json) -> Option<Seq<char>> {
    match json {
        Json::Text(text) => Some(text),
        _ => None,
    }
}

/// The value of a whole number from zero up.
pub open spec fn unsigned_of(json: Json) -> Option<u64> {
    match json {
        Json::Unsigned(number) => Some(number),
        _ => None,
    }
}

/// The position that `token` denotes in an array of length `len`: its decimal
/// numeral, without a leading zero.
pub open spec fn array_position(token: Seq<char>, len: nat) -> Option<nat> {
    if exists|i: nat| i < len && #[trigger] decimal(i) == token {
        Some(choose|i: nat| i < len && #[trigger] decimal(i) == token)
    } else {
        None
    }
}

/// The child that one reference token leads to.
pub open spec fn child(json: Json, token: Seq<char>) -> Option<Json> {
    match json {
        Json::Array(items) => match array_position(token, items.len()) {
            Some(i) => Some(items[i as int]),
            None => None,
        },
        _ => member(json, token),
    }
}

/// The value with the child at `token` replaced.
pub open spec fn with_child(json: Json, token: Seq<char>, replacement: Json) -> Json {
    match json {
        Json::Array(items) => match array_position(token, items.len()) {
            Some(i) => Json::Array(items.update(i as int, replacement)),
            None => json,
        },
        Json::Object(members) => Json::Object(members.insert(token, replacement)),
        _ => json,
    }
}

/// The value that a path of reference tokens leads to.
pub open spec fn at_path(json: Json, path: Seq<Seq<char>>) -> Option<Json>
    decreases path.len(),
{
    if path.len() == 0 {
        Some(json)
    } else {
        match child(json, path[0]) {
            Some(next) => at_path(next, path.skip(1)),
            None => None,
        }
    }
}

/// The value with what `path` leads to replaced; the value itself where `path`
/// leads nowhere.
pub open spec fn with_path(json: Json, path: Seq<Seq<char>>, replacement: Json) -> Json
    decreases path.len(),
{
    if path.len() == 0 {
        replacement
    } else {
        match child(json, path[0]) {
            Some(next) => with_child(json, path[0], with_path(next, path.skip(1), replacement)),
            None => json,
        }
    }
}

/// The pieces of `text` between slashes.
pub open spec fn between_slashes(text: Seq<char>) -> Seq<Seq<char>>
    decreases text.len(),
{
    if text.len() == 0 {
        seq![Seq::empty()]
    } else {
        let pieces = between_slashes(text.drop_last());
        if text.last() == '/' {
            pieces.push(Seq::empty())
        } else {
            pieces.drop_last().push(pieces.last().push(text.last()))
        }
    }
}

/// A reference token with `~1` read as `/` and `~0` as `~`.
pub open spec fn unescaped(token: Seq<char>) -> Seq<char>
    decreases token.len(),
{
    if token.len() == 0 {
        Seq::empty()
    } else if token.len() >= 2 && token[0] == '~' && token[1] == '1' {
        seq!['/'] + unescaped(token.skip(2))
    } else if token.len() >= 2 && token[0] == '~' && token[1] == '0' {
        seq!['~'] + unescaped(token.skip(2))
    } else {
        seq![token[0]] + unescaped(token.skip(1))
    }
}

/// The path that a JSON Pointer (RFC 6901) spells; `None` for a text that is not
/// empty and does not start with a slash.
pub open spec fn pointer_path(pointer: Seq<char>) -> Option<Seq<Seq<char>>> {
    if pointer.len() == 0 {
        Some(Seq::empty())
    } else if pointer[0] != '/' {
        None
    } else {
        Some(between_slashes(pointer).skip(1).map_values(|token: Seq<char>| unescaped(token)))
    }
}

/// The value that a JSON Pointer addresses.
pub open spec fn at_pointer(json: Json, pointer: Seq<char>) -> Option<Json> {
    match pointer_path(pointer) {
        Some(path) => at_path(json, path),
        None => None,
    }
}

/// The value with what a JSON Pointer addresses replaced.
pub open spec fn with_pointer(json: Json, pointer: Seq<char>, replacement: Json) -> Json {
    match pointer_path(pointer) {
        Some(path) => with_path(json, path, replacement),
        None => json,
    }
}

/// Replacing what a path leads to by itself changes nothing.
pub proof fn lemma_with_path_same(json: Json, path: Seq<Seq<char>>)
    ensures
        at_path(json, path) matches Some(found) ==> with_path(json, path, found) == json,
    decreases path.len(),
{
    if path.len() > 0 {
        match child(json, path[0]) {
            Some(next) => {
                lemma_with_path_same(next, path.skip(1));
                match json {
                    Json::Array(items) => {
                        let i = array_position(path[0], items.len())->0;
                        assert(items.update(i as int, next) =~= items);
                    },
                    Json::Object(members) => {
                        assert(members.insert(path[0], next) =~= members);
                    },
                    _ => {},
                }
            },
            None => {},
        }
    }
}

/// What was put where a path leads is found there.
pub proof fn lemma_at_path_with_path(json: Json, path: Seq<Seq<char>>, replacement: Json)
    requires
        at_path(json, path) is Some,
    ensures
        at_path(with_path(json, path, replacement), path) == Some(replacement),
    decreases path.len(),
{
    if path.len() > 0 {
        let next = child(json, path[0])->0;
        lemma_at_path_with_path(next, path.skip(1), replacement);
    }
}

/// Of two replacements at one place the later one stays.
pub proof fn lemma_with_path_twice(json: Json, path: Seq<Seq<char>>, first: Json, second: Json)
    requires
        at_path(json, path) is Some,
    ensures
        with_path(with_path(json, path, first), path, second) == with_path(json, path, second),
    decreases path.len(),
{
    if path.len() > 0 {
        let next = child(json, path[0])->0;
        let rest = path.skip(1);
        lemma_with_path_twice(next, rest, first, second);
        match json {
            Json::Array(items) => {
                let i = array_position(path[0], items.len())->0;
                assert(items.update(i as int, with_path(next, rest, first)).update(
                    i as int,
                    with_path(next, rest, second),
                ) =~= items.update(i as int, with_path(next, rest, second)));
            },
            Json::Object(members) => {
                assert(members.insert(path[0], with_path(next, rest, first)).insert(
                    path[0],
                    with_path(next, rest, second),
                ) =~= members.insert(path[0], with_path(next, rest, second)));
            },
            _ => {},
        }
    }
}

/// `Value::get` with a string: the member of that name, if the value is an
/// object and has it.
#[verifier::external_body]
pub(crate) fn get_member<'a>(value: &'a Value, name: &str) -> (found: Option<&'a Value>)
    ensures
        match member(json_contents(*value), name@) {
            Some(json) => found matches Some(inner) && json_contents(*inner) == json,
            None => found is None,
        },
{
    value.get(name)
}

/// `Value::clone`: a value with the same contents.
pub assume_specification[ <Value as Clone>::clone ](value: &Value) -> (copy: Value)
    ensures
        json_contents(copy) == json_contents(*value),
;

/// `Value::as_str`: the text of a string.
pub assume_specification[ Value::as_str ](value: &Value) -> (text: Option<&str>)
    ensures
        match text_of(json_contents(*value)) {
            Some(chars) => text matches Some(inner) && inner@ == chars,
            None => text is None,
        },
;

/// `Value::as_u64`: the value of a whole number from zero up.
pub assume_specification[ Value::as_u64 ](value: &Value) -> (number: Option<u64>)
    ensures
        number == unsigned_of(json_contents(*value)),
;

/// `Value::pointer_mut`: a reference to the value that the JSON Pointer
/// addresses. What is written through it takes that place.
pub assume_specification<'a>[ Value::pointer_mut ](value: &'a mut Value, pointer: &str) -> (target:
    Option<&'a mut Value>)
    ensures
        match at_pointer(json_contents(*old(value)), pointer@) {
            Some(json) => {
                &&& target is Some
                &&& json_contents(*target->0) == json
                &&& json_contents(*final(value)) == with_pointer(
                    json_contents(*old(value)),
                    pointer@,
                    json_contents(*final(target->0)),
                )
            },
            None => target is None && json_contents(*final(value)) == json_contents(*old(value)),
        },
;

/// `Value::as_object_mut`: a reference to the members of an object. What is
/// written through it changes the object.
pub assume_specification[ Value::as_object_mut ](value: &mut Value) -> (object: Option<
    &mut serde_json::Map<String, Value>,
>)
    ensures
        match json_contents(*old(value)) {
            Json::Object(members) => {
                &&& object is Some
                &&& object_members(*object->0) == members
                &&& json_contents(*final(value)) == Json::Object(object_members(*final(object->0)))
            },
            _ => object is None && json_contents(*final(value)) == json_contents(*old(value)),
        },
;

/// `Map::clear`: removes all members.
#[verifier::external_body]
pub(crate) fn clear_members(object: &mut serde_json::Map<String, Value>)
    ensures
        object_members(*final(object)) == no_members(),
{
    object.clear();
}

/// `Map::insert`: sets one member and returns the one it replaced, if any.
#[verifier::external_body]
pub(crate) fn insert_member(
    object: &mut serde_json::Map<String, Value>,
    name: String,
    value: Value,
) -> (replaced: Option<Value>)
    ensures
        object_members(*final(object)) == object_members(*old(object)).insert(
            name@,
            json_contents(value),
        ),
        match replaced {
            Some(previous) => object_members(*old(object)).contains_key(name@)
                && json_contents(previous) == object_members(*old(object))[name@],
            None => !object_members(*old(object)).contains_key(name@),
        },
{
    object.insert(name, value)
}

/// `Value::String`: a string value.
#[verifier::external_body]
pub(crate) fn string_value(text: String) -> (value: Value)
    ensures
        json_contents(value) == Json::Text(text@),
{
    Value::String(text)
}

/// `Value::Array`: an array value.
#[verifier::external_body]
pub(crate) fn array_value(items: Vec<Value>) -> (value: Value)
    ensures
        json_contents(value) == Json::Array(
            items@.map_values(|item: Value| json_contents(item)),
        ),
{
    Value::Array(items)
}

} // verus!
