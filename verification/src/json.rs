//! The trusted boundary to the `serde_json` crate, which reads and prints
//! JSON documents. A document stays a `serde_json::Value`; the contracts
//! below describe it through a handful of named observations, and nothing
//! here is proved.

use vstd::prelude::*;

verus! {

#[verifier::external_type_specification]
#[verifier::external_body]
pub struct ExValue(serde_json::Value);

#[verifier::external_type_specification]
#[verifier::external_body]
pub struct ExJsonError(serde_json::Error);

/// The document that a text denotes, if the text is valid JSON.
pub uninterp spec fn json_value(text: Seq<char>) -> Option<serde_json::Value>;

/// The names of an object's members, in the order in which the object keeps
/// them; `None` for a value that is not an object.
pub uninterp spec fn object_keys(value: serde_json::Value) -> Option<Seq<Seq<char>>>;

/// The member that an object holds under `key`; `None` where it holds none,
/// or where the value is not an object.
pub uninterp spec fn member(value: serde_json::Value, key: Seq<char>) -> Option<serde_json::Value>;

/// The characters of a JSON string; `None` for any other value.
pub uninterp spec fn string_content(value: serde_json::Value) -> Option<Seq<char>>;

/// A value printed as JSON on one line.
pub uninterp spec fn compact_text(value: serde_json::Value) -> Seq<char>;

/// A value printed as indented JSON, if it can be printed.
pub uninterp spec fn pretty_text(value: serde_json::Value) -> Option<Seq<char>>;

/// A document in which the member `name` of the object stored under
/// `section` has been replaced by the JSON string `text`.
pub uninterp spec fn with_text_member(
    document: serde_json::Value,
    section: Seq<char>,
    name: Seq<char>,
    text: Seq<char>,
) -> serde_json::Value;

/// Whether an object holds a member under `key`.
pub open spec fn has_key(value: serde_json::Value, key: Seq<char>) -> bool {
    object_keys(value) matches Some(keys) && keys.contains(key)
}

/// `serde_json::from_str`, read as a `Value`: succeeds exactly on valid
/// JSON, with the document that the text denotes.
#[verifier::external_body]
pub(crate) fn parse_value(text: &str) -> (r: Result<serde_json::Value, serde_json::Error>)
    ensures
        r matches Ok(v) ==> json_value(text@) == Some(v),
        r is Err ==> json_value(text@) is None,
{
    serde_json::from_str::<serde_json::Value>(text)
}

/// `Value::get` with a string key: the member under that key, which exists
/// exactly when the value is an object with that key.
#[verifier::external_body]
pub(crate) fn get_member<'a>(value: &'a serde_json::Value, key: &str) -> (r: Option<
    &'a serde_json::Value,
>)
    ensures
        r matches Some(v) ==> member(*value, key@) == Some(*v),
        r is None ==> member(*value, key@) is None,
        r is Some <==> has_key(*value, key@),
{
    value.get(key)
}

/// `Value::as_object` and `Map::keys`: the names of an object's members, in
/// the object's order. No name occurs twice, since the object is a map.
#[verifier::external_body]
pub(crate) fn member_names(value: &serde_json::Value) -> (r: Option<Vec<String>>)
    ensures
        r matches Some(names) ==> object_keys(*value) == Some(names.deep_view())
            && names.deep_view().no_duplicates(),
        r is None ==> object_keys(*value) is None,
{
    value.as_object().map(|object| object.keys().cloned().collect())
}

/// `Value::as_str`: the characters of a JSON string.
#[verifier::external_body]
pub(crate) fn text_of<'a>(value: &'a serde_json::Value) -> (r: Option<&'a str>)
    ensures
        r matches Some(s) ==> string_content(*value) == Some(s@),
        r is None ==> string_content(*value) is None,
{
    value.as_str()
}

/// `Value`'s `Display`, through `to_string`: the value as JSON on one line.
#[verifier::external_body]
pub(crate) fn compact(value: &serde_json::Value) -> (r: String)
    ensures
        r@ == compact_text(*value),
{
    value.to_string()
}

/// `serde_json::to_string_pretty`: the value as indented JSON.
#[verifier::external_body]
pub(crate) fn pretty(value: &serde_json::Value) -> (r: Result<String, serde_json::Error>)
    ensures
        r matches Ok(s) ==> pretty_text(*value) == Some(s@),
        r is Err ==> pretty_text(*value) is None,
{
    serde_json::to_string_pretty(value)
}

/// What replacing the member `name` of an object by the JSON string `text`
/// leaves behind: the same keys in the same order, the same other members,
/// and the string under `name`.
pub open spec fn member_replaced(
    before: serde_json::Value,
    after: serde_json::Value,
    name: Seq<char>,
    text: Seq<char>,
) -> bool {
    &&& object_keys(after) == object_keys(before)
    &&& forall|other: Seq<char>|
        other != name ==> #[trigger] member(after, other) == member(before, other)
    &&& member(after, name) matches Some(entry) && string_content(entry) == Some(text)
}

/// Assignment through `Value`'s `IndexMut`, two keys deep: replaces an
/// existing member of the object under `section` by a JSON string. The
/// object keeps its keys and its other members, and the document keeps its
/// keys and its other top-level members.
#[verifier::external_body]
pub(crate) fn put_text(document: &mut serde_json::Value, section: &str, name: &str, text: &str)
    requires
        member(*old(document), section@) matches Some(object) && has_key(object, name@),
    ensures
        *final(document) == with_text_member(*old(document), section@, name@, text@),
        object_keys(*final(document)) == object_keys(*old(document)),
        forall|key: Seq<char>|
            key != section@ ==> #[trigger] member(*final(document), key) == member(
                *old(document),
                key,
            ),
        member(*final(document), section@) matches Some(after) && member_replaced(
            member(*old(document), section@)->0,
            after,
            name@,
            text@,
        ),
{
    document[section][name] = serde_json::Value::String(text.to_owned());
}

} // verus!
