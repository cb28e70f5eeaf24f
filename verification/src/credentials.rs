//! Credential storage: API keys by name, kept in a string map that the
//! application reads from and writes back to a local file.

use vstd::prelude::*;
use vstd::string::StringExecFns;
use crate::strmap::{distinct_keys, map_of, StringMap};
use crate::json::{json_parse, parse_json, JsonValue};

verus! {

/// Credential key of the OpenRouter API key.
pub const KEY_OPENROUTER: &'static str = "openrouter_api_key";

/// Credential key of the WhoisFreaks API key.
pub const KEY_WHOISFREAKS: &'static str = "whoisfreaks_api_key";

/// The credential stored under `key`: its value, where one is present and
/// non-empty.
pub open spec fn credential(m: Map<Seq<char>, Seq<char>>, key: Seq<char>) -> Option<Seq<char>> {
    if m.contains_key(key) && m[key].len() > 0 {
        Some(m[key])
    } else {
        None
    }
}

/// Save a credential.
pub fn save_credential(store: &mut StringMap, key: &str, value: &str)
    ensures
        final(store)@ == old(store)@.insert(key@, value@),
{
    store.insert(String::from_str(key), String::from_str(value));
}

/// Load a credential: present only when stored and non-empty.
pub fn load_credential(store: &StringMap, key: &str) -> (r: Option<String>)
    ensures
        r matches Some(v) ==> credential(store@, key@) == Some(v@),
        r is None ==> credential(store@, key@) is None,
{
    match store.get(key) {
        Some(v) => {
            if v.as_str().is_empty() {
                None
            } else {
                Some(v.clone())
            }
        },
        None => None,
    }
}

/// Delete a credential.
pub fn delete_credential(store: &mut StringMap, key: &str)
    ensures
        final(store)@ == old(store)@.remove(key@),
{
    store.remove(key);
}

/// The map of the members of an object whose members are all strings, a
/// later member overriding an earlier one with the same name; `None` when
/// some member is not a string.
pub open spec fn string_members(entries: Seq<(String, JsonValue)>) -> Option<Map<Seq<char>, Seq<char>>>
    decreases entries.len(),
{
    if entries.len() == 0 {
        Some(Map::empty())
    } else {
        match (string_members(entries.drop_last()), entries.last().1) {
            (Some(m), JsonValue::Str(v)) => Some(m.insert(entries.last().0@, v@)),
            _ => None,
        }
    }
}

/// The credentials that a credentials file holds: the members of a JSON
/// object whose members are all strings; nothing when the text is not such
/// an object.
pub open spec fn stored_credentials(parsed: Option<JsonValue>) -> Map<Seq<char>, Seq<char>> {
    match parsed {
        Some(JsonValue::Object(entries)) => match string_members(entries@) {
            Some(m) => m,
            None => Map::empty(),
        },
        _ => Map::empty(),
    }
}

proof fn lemma_string_members_prefix(entries: Seq<(String, JsonValue)>, k: int)
    requires
        0 <= k <= entries.len(),
        string_members(entries.take(k)) is None,
    ensures
        string_members(entries) is None,
    decreases entries.len(),
{
    if k == entries.len() {
        assert(entries.take(k) =~= entries);
    } else {
        assert(entries.drop_last().take(k) =~= entries.take(k));
        lemma_string_members_prefix(entries.drop_last(), k);
    }
}

/// The credentials stored in the text of a credentials file.
pub fn credentials_from_text(text: &str) -> (m: StringMap)
    ensures
        m@ == stored_credentials(json_parse(text@)),
{
    let parsed = parse_json(text);
    match &parsed {
        Some(JsonValue::Object(entries)) => {
            let mut m = StringMap::new();
            for i in 0..entries.len()
                invariant
                    string_members(entries@.take(i as int)) == Some(m@),
                    stored_credentials(json_parse(text@)) == match string_members(entries@) {
                        Some(x) => x,
                        None => Map::empty(),
                    },
            {
                assert(entries@.take(i + 1).drop_last() =~= entries@.take(i as int));
                assert(entries@.take(i + 1).last() == entries@[i as int]);
                match &entries[i].1 {
                    JsonValue::Str(v) => {
                        m.insert(entries[i].0.clone(), v.clone());
                    },
                    _ => {
                        proof {
                            assert(string_members(entries@.take(i + 1)) is None);
                            lemma_string_members_prefix(entries@, i + 1);
                        }
                        return StringMap::new();
                    },
                }
            }
            assert(entries@.take(entries.len() as int) =~= entries@);
            m
        },
        _ => StringMap::new(),
    }
}

/// What `serde_json::to_string_pretty` writes for a map from strings to
/// strings held in a `BTreeMap`: a JSON object with the keys in ascending
/// order, indented by two spaces.
pub uninterp spec fn pretty_string_map(m: Map<Seq<char>, Seq<char>>) -> Seq<char>;

/// Calls `serde_json::to_string_pretty` on the entries held in a
/// `BTreeMap<&str, &str>` (the keys are distinct, so each entry is one
/// member). The text is named `pretty_string_map` of the entries' map.
/// serde_json documents that serializing fails only where a `Serialize`
/// impl fails or a map has non-string keys; neither can happen for string
/// keys and values written into memory, so the result is always `Some`.
#[verifier::external_body]
fn pretty_json(entries: &Vec<(String, String)>) -> (r: Option<String>)
    requires
        distinct_keys(entries@),
    ensures
        r is Some,
        r matches Some(t) ==> t@ == pretty_string_map(map_of(entries@)),
{
    let m: std::collections::BTreeMap<&str, &str> =
        entries.iter().map(|(k, v)| (k.as_str(), v.as_str())).collect();
    serde_json::to_string_pretty(&m).ok()
}

/// The text of a credentials file that stores `store`: a JSON object of its
/// keys and values (see `pretty_string_map`).
pub fn credentials_file_text(store: &StringMap) -> (r: String)
    ensures
        r@ == pretty_string_map(store@),
{
    let entries = store.to_entries();
    match pretty_json(&entries) {
        Some(t) => t,
        None => String::new(),
    }
}

/// Loading a key right after saving it gives the saved value, or nothing
/// when the saved value is empty.
pub proof fn law_load_after_save(m: Map<Seq<char>, Seq<char>>, key: Seq<char>, value: Seq<char>)
    ensures
        credential(m.insert(key, value), key) == (if value.len() > 0 {
            Some(value)
        } else {
            None
        }),
{
}

/// Loading a key right after deleting it gives nothing.
pub proof fn law_load_after_delete(m: Map<Seq<char>, Seq<char>>, key: Seq<char>)
    ensures
        credential(m.remove(key), key) is None,
{
}

/// Saving or deleting one key leaves every other key's credential as it was.
pub proof fn law_other_keys_unchanged(
    m: Map<Seq<char>, Seq<char>>,
    key: Seq<char>,
    value: Seq<char>,
    other: Seq<char>,
)
    requires
        other != key,
    ensures
        credential(m.insert(key, value), other) == credential(m, other),
        credential(m.remove(key), other) == credential(m, other),
{
}

} // verus!
