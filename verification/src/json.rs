//! JSON documents, as read by `serde_json`, held as plain values.

use vstd::prelude::*;
use crate::text::str_eq;

verus! {

#[verifier::external_type_specification]
#[verifier::external_body]
pub struct ExJsonDocument(serde_json::Value);

/// A JSON value. Objects keep their members in the order `serde_json`
/// hands them out; a number holds its value where it is an integer that
/// fits in `u64` (`serde_json::Number::as_u64`), else `None`.
pub enum JsonValue {
    Null,
    Bool(bool),
    Number(Option<u64>),
    Str(String),
    Array(Vec<JsonValue>),
    Object(Vec<(String, JsonValue)>),
}

/// What `serde_json::from_str::<serde_json::Value>` makes of a text:
/// `None` where it reports an error, else the value it read.
pub uninterp spec fn json_parse(text: Seq<char>) -> Option<JsonValue>;

/// Turns a `serde_json::Value` into the same value as a `JsonValue`,
/// variant by variant.
#[verifier::external_body]
fn from_document(v: serde_json::Value) -> JsonValue {
    match v {
        serde_json::Value::Null => JsonValue::Null,
        serde_json::Value::Bool(b) => JsonValue::Bool(b),
        serde_json::Value::Number(n) => JsonValue::Number(n.as_u64()),
        serde_json::Value::String(s) => JsonValue::Str(s),
        serde_json::Value::Array(a) => JsonValue::Array(a.into_iter().map(from_document).collect()),
        serde_json::Value::Object(m) => JsonValue::Object(
            m.into_iter().map(|(k, x)| (k, from_document(x))).collect(),
        ),
    }
}

/// Calls `serde_json::from_str::<serde_json::Value>` on `text`. The result
/// is named `json_parse` of the text's characters; nothing more is claimed.
#[verifier::external_body]
pub(crate) fn parse_json(text: &str) -> (r: Option<JsonValue>)
    ensures
        r == json_parse(text@),
{
    serde_json::from_str::<serde_json::Value>(text).ok().map(from_document)
}

/// The strings of `items`, where every item is a string.
pub open spec fn string_items(items: Seq<JsonValue>) -> Option<Seq<Seq<char>>>
    decreases items.len(),
{
    if items.len() == 0 {
        Some(Seq::empty())
    } else {
        match (string_items(items.drop_last()), items.last()) {
            (Some(p), JsonValue::Str(s)) => Some(p.push(s@)),
            _ => None,
        }
    }
}

/// The strings of `v`, where `v` is an array of strings.
pub open spec fn string_array(v: JsonValue) -> Option<Seq<Seq<char>>> {
    match v {
        JsonValue::Array(items) => string_items(items@),
        _ => None,
    }
}

/// The value of the first member of `entries` named `key`.
pub open spec fn member(entries: Seq<(String, JsonValue)>, key: Seq<char>) -> Option<JsonValue>
    decreases entries.len(),
{
    if entries.len() == 0 {
        None
    } else if entries[0].0@ == key {
        Some(entries[0].1)
    } else {
        member(entries.drop_first(), key)
    }
}

/// The list of strings that a record with a single field `key` of type
/// "list of strings" is read from: an object whose member `key` is an array
/// of strings (other members are ignored), or an array whose only item is
/// an array of strings.
pub open spec fn string_list_field(v: JsonValue, key: Seq<char>) -> Option<Seq<Seq<char>>> {
    match v {
        JsonValue::Object(entries) => match member(entries@, key) {
            Some(f) => string_array(f),
            None => None,
        },
        JsonValue::Array(items) => if items@.len() == 1 {
            string_array(items@[0])
        } else {
            None
        },
        _ => None,
    }
}

/// A sequence with a prefix that is not all strings is not all strings.
proof fn lemma_string_items_prefix(items: Seq<JsonValue>, k: int)
    requires
        0 <= k <= items.len(),
        string_items(items.take(k)) is None,
    ensures
        string_items(items) is None,
    decreases items.len(),
{
    if k == items.len() {
        assert(items.take(k) =~= items);
    } else {
        assert(items.drop_last().take(k) =~= items.take(k));
        lemma_string_items_prefix(items.drop_last(), k);
    }
}

/// The strings of an array of strings.
pub fn strings_of(v: &JsonValue) -> (r: Option<Vec<String>>)
    ensures
        r matches Some(l) ==> string_array(*v) == Some(l.deep_view()),
        r is None ==> string_array(*v) is None,
{
    match v {
        JsonValue::Array(items) => {
            let mut out: Vec<String> = Vec::new();
            for i in 0..items.len()
                invariant
                    string_array(*v) == string_items(items@),
                    string_items(items@.take(i as int)) == Some(out.deep_view()),
            {
                assert(items@.take(i + 1).drop_last() =~= items@.take(i as int));
                match &items[i] {
                    JsonValue::Str(s) => {
                        let ghost prev = out.deep_view();
                        out.push(s.clone());
                        assert(out.deep_view() =~= prev.push(s@));
                    },
                    _ => {
                        proof {
                            assert(items@.take(i + 1).last() == items@[i as int]);
                            assert(string_items(items@.take(i + 1)) is None);
                            lemma_string_items_prefix(items@, i + 1);
                        }
                        return None;
                    },
                }
            }
            assert(items@.take(items@.len() as int) =~= items@);
            Some(out)
        },
        _ => None,
    }
}


/// The value of the first member of `entries` named `key`.
pub fn member_of<'a>(entries: &'a Vec<(String, JsonValue)>, key: &str) -> (r: Option<&'a JsonValue>)
    ensures
        r matches Some(x) ==> member(entries@, key@) == Some(*x),
        r is None ==> member(entries@, key@) is None,
{
    assert(entries@.skip(0) =~= entries@);
    for i in 0..entries.len()
        invariant
            member(entries@, key@) == member(entries@.skip(i as int), key@),
    {
        assert(entries@.skip(i as int)[0] == entries@[i as int]);
        if str_eq(entries[i].0.as_str(), key) {
            return Some(&entries[i].1);
        }
        assert(entries@.skip(i as int).drop_first() =~= entries@.skip(i + 1));
    }
    None
}

/// The list of strings that a record with the single field `key`, a list of
/// strings, is read from `v` (see `string_list_field`).
pub fn string_list_of(v: &JsonValue, key: &str) -> (r: Option<Vec<String>>)
    ensures
        r matches Some(l) ==> string_list_field(*v, key@) == Some(l.deep_view()),
        r is None ==> string_list_field(*v, key@) is None,
{
    match v {
        JsonValue::Object(entries) => match member_of(entries, key) {
            Some(f) => strings_of(f),
            None => None,
        },
        JsonValue::Array(items) => {
            if items.len() == 1 {
                strings_of(&items[0])
            } else {
                None
            }
        },
        _ => None,
    }
}

} // verus!
