//! JSON values and their text, as the `json` crate builds and writes them.
//!
//! Nothing in this file is proved. Each function here makes one call into
//! the `json` crate and states what that call does; the code that builds
//! response bodies is verified against these statements. The text of a
//! string, of a number and of an object is not written out here: it is named,
//! and it is the `json` crate that settles it.

use crate::rows::{distinct_names, upsert};
use json::object::Object;
use json::JsonValue;
use vstd::prelude::*;

verus! {

/// `json::JsonValue`, a JSON value of any kind.
#[verifier::external_type_specification]
#[verifier::external_body]
pub struct ExJsonValue(json::JsonValue);

/// `json::object::Object`, a JSON object under construction.
#[verifier::external_type_specification]
#[verifier::external_body]
pub struct ExObject(json::object::Object);

/// The text that `JsonValue::dump` returns for `v`.
pub uninterp spec fn json_text(v: json::JsonValue) -> Seq<char>;

/// The members that `o` holds, in the order in which `Object::iter` walks
/// them, each as its key and the text of its value.
pub uninterp spec fn object_members(o: json::object::Object) -> Seq<(Seq<char>, Seq<char>)>;

/// The text of the value that `JsonValue::from` makes of the string `s`:
/// `s` in double quotes, with the escapes that the `json` crate writes.
pub uninterp spec fn json_string_text(s: Seq<char>) -> Seq<char>;

/// The text of the value that `JsonValue::from` makes of the number `n`.
pub uninterp spec fn json_number_text(n: int) -> Seq<char>;

/// The text of the value that `JsonValue::from` makes of an object with
/// these members: braces around the members, each written as the text of its
/// key as a string, a colon and the text of its value, with commas between.
pub uninterp spec fn json_object_text(members: Seq<(Seq<char>, Seq<char>)>) -> Seq<char>;

/// The text of a JSON boolean.
pub open spec fn json_bool_text(b: bool) -> Seq<char> {
    if b {
        seq!['t', 'r', 'u', 'e']
    } else {
        seq!['f', 'a', 'l', 's', 'e']
    }
}

/// `Object::new`: an object without members.
#[verifier::external_body]
pub(crate) fn object_new() -> (o: Object)
    ensures
        object_members(o) == Seq::<(Seq<char>, Seq<char>)>::empty(),
{
    Object::new()
}

/// `Object::insert`: the member `key` gets `value`, in place where the
/// object has a member with that key and at the end where it has none. No
/// object has two members with one key.
#[verifier::external_body]
pub(crate) fn object_insert(o: &mut Object, key: &str, value: JsonValue)
    ensures
        object_members(*final(o)) == upsert(object_members(*old(o)), key@, json_text(value)),
        distinct_names(object_members(*final(o))),
{
    o.insert(key, value);
}

/// `JsonValue::from` on an object: the value whose text is that of an object
/// with the same members.
#[verifier::external_body]
pub(crate) fn json_object(o: Object) -> (v: JsonValue)
    ensures
        json_text(v) == json_object_text(object_members(o)),
{
    JsonValue::from(o)
}

/// `JsonValue::from` on a string slice: the value whose text is that of the
/// string.
#[verifier::external_body]
pub(crate) fn json_string(s: &str) -> (v: JsonValue)
    ensures
        json_text(v) == json_string_text(s@),
{
    JsonValue::from(s)
}

/// `JsonValue::from` on a `bool`: the value whose text is `true` or `false`.
#[verifier::external_body]
pub(crate) fn json_bool(b: bool) -> (v: JsonValue)
    ensures
        json_text(v) == json_bool_text(b),
{
    JsonValue::from(b)
}

/// `JsonValue::from` on a `u8`: the value whose text is that of the number.
#[verifier::external_body]
pub(crate) fn json_number(n: u8) -> (v: JsonValue)
    ensures
        json_text(v) == json_number_text(n as int),
{
    JsonValue::from(n)
}

/// `JsonValue::dump`: the text of the value.
#[verifier::external_body]
pub(crate) fn json_dump(v: &JsonValue) -> (text: String)
    ensures
        text@ == json_text(*v),
{
    v.dump()
}

} // verus!
