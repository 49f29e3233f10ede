//! JSON objects with scalar members, held as [`serde_json::Value`].
use vstd::prelude::*;

verus! {

/// A JSON value, which can be of any kind.
#[verifier::external_type_specification]
#[verifier::external_body]
pub struct ExJsonValue(serde_json::Value);

/// What a member of a JSON object is.
pub enum JsonScalar {
    Null,
    Bool(bool),
    /// A number that is held as an unsigned integer of 64 bits.
    Unsigned(u64),
    Text(Seq<char>),
    /// Any other number, an array or an object.
    Other,
}

/// Members of a JSON object by their keys.
pub type JsonMembers = Map<Seq<char>, JsonScalar>;

/// The members of a JSON object. A value of another kind has none.
pub uninterp spec fn json_members(value: serde_json::Value) -> JsonMembers;

/// Whether a JSON value is an object.
pub uninterp spec fn json_is_object(value: serde_json::Value) -> bool;

/// The boolean member `key`, if there is such a member and it is a boolean.
pub open spec fn bool_member(members: JsonMembers, key: Seq<char>) -> Option<bool> {
    if members.contains_key(key) {
        match members[key] {
            JsonScalar::Bool(b) => Some(b),
            _ => None,
        }
    } else {
        None
    }
}

/// The number member `key`, if there is such a member and it is unsigned.
pub open spec fn unsigned_member(members: JsonMembers, key: Seq<char>) -> Option<
    u64,
> {
    if members.contains_key(key) {
        match members[key] {
            JsonScalar::Unsigned(n) => Some(n),
            _ => None,
        }
    } else {
        None
    }
}

/// The text member `key`, if there is such a member and it is a string.
pub open spec fn text_member(members: JsonMembers, key: Seq<char>) -> Option<
    Seq<char>,
> {
    if members.contains_key(key) {
        match members[key] {
            JsonScalar::Text(s) => Some(s),
            _ => None,
        }
    } else {
        None
    }
}

/// Reads a member with indexing by a key and [`serde_json::Value::as_bool`].
///
/// Taken on trust: indexing a value that is no object, or by a key that it does
/// not have, gives null, and of all values only a boolean is read as one.
#[verifier::external_body]
pub(crate) fn get_bool(value: &serde_json::Value, key: &str) -> (res: Option<bool>)
    ensures
        res == bool_member(json_members(*value), key@),
        !json_is_object(*value) ==> res is None,
{
    value[key].as_bool()
}

/// Reads a member with indexing by a key and [`serde_json::Value::as_u64`].
///
/// Taken on trust: indexing a value that is no object, or by a key that it does
/// not have, gives null, and of all values only a number that is held as an
/// unsigned integer is read as one.
#[verifier::external_body]
pub(crate) fn get_unsigned(value: &serde_json::Value, key: &str) -> (res: Option<u64>)
    ensures
        res == unsigned_member(json_members(*value), key@),
        !json_is_object(*value) ==> res is None,
{
    value[key].as_u64()
}

/// Reads a member with indexing by a key and [`serde_json::Value::as_str`].
///
/// Taken on trust: indexing a value that is no object, or by a key that it does
/// not have, gives null, and of all values only a string is read as one.
#[verifier::external_body]
pub(crate) fn get_text(value: &serde_json::Value, key: &str) -> (res: Option<String>)
    ensures
        res.deep_view() == text_member(json_members(*value), key@),
        !json_is_object(*value) ==> res is None,
{
    value[key].as_str().map(|text| text.to_string())
}

/// Makes an object without members, with [`serde_json::Map::new`].
///
/// Taken on trust: the new map is empty.
#[verifier::external_body]
pub(crate) fn empty_object() -> (res: serde_json::Value)
    ensures
        json_is_object(res),
        json_members(res) == JsonMembers::empty(),
{
    serde_json::Value::Object(serde_json::Map::new())
}

/// Writes a boolean member with assignment to an index.
///
/// Taken on trust: of an object, assigning to a key adds that member or
/// replaces it and leaves the others alone.
#[verifier::external_body]
pub(crate) fn set_bool(object: &mut serde_json::Value, key: &str, member: bool)
    requires
        json_is_object(*old(object)),
    ensures
        json_is_object(*final(object)),
        json_members(*final(object)) == json_members(*old(object)).insert(
            key@,
            JsonScalar::Bool(member),
        ),
{
    object[key] = serde_json::Value::from(member);
}

/// Writes a text member, or null, with assignment to an index.
///
/// Taken on trust: of an object, assigning to a key adds that member or
/// replaces it and leaves the others alone; `Some` text becomes a string with
/// the same characters and `None` becomes null.
#[verifier::external_body]
pub(crate) fn set_text(object: &mut serde_json::Value, key: &str, member: Option<&str>)
    requires
        json_is_object(*old(object)),
    ensures
        json_is_object(*final(object)),
        json_members(*final(object)) == json_members(*old(object)).insert(
            key@,
            match member {
                Some(text) => JsonScalar::Text(text@),
                None => JsonScalar::Null,
            },
        ),
{
    object[key] = serde_json::Value::from(member);
}

/// Writes a number member, or null, with assignment to an index.
///
/// Taken on trust: of an object, assigning to a key adds that member or
/// replaces it and leaves the others alone; `Some` number becomes that number
/// and `None` becomes null.
#[verifier::external_body]
pub(crate) fn set_unsigned(object: &mut serde_json::Value, key: &str, member: Option<u64>)
    requires
        json_is_object(*old(object)),
    ensures
        json_is_object(*final(object)),
        json_members(*final(object)) == json_members(*old(object)).insert(
            key@,
            match member {
                Some(number) => JsonScalar::Unsigned(number),
                None => JsonScalar::Null,
            },
        ),
{
    object[key] = serde_json::Value::from(member);
}

} // verus!
