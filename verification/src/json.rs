//! JSON values as the library holds them, read with `serde_json`, and the
//! lookups gitpkg makes in them.
use vstd::prelude::*;

use crate::package::opt_string_view;
use crate::text::{chars_eq, chars_of};

verus! {

broadcast use vstd::string::group_string_axioms;

/// A JSON value: one variant per kind of value, numbers kept as the text
/// `serde_json` prints for them, objects as their entries in order.
#[derive(Debug)]
pub enum Json {
    Null,
    Bool(bool),
    Number(String),
    Str(String),
    Array(Vec<Json>),
    Object(Vec<(String, Json)>),
}

#[verifier::external_type_specification]
#[verifier::external_body]
pub struct ExJsonValue(serde_json::Value);

/// The JSON value `serde_json` reads from `text`; none when the text is not
/// JSON.
pub uninterp spec fn json_of_text(text: Seq<char>) -> Option<Json>;

/// `serde_json::from_str` into a `serde_json::Value`, converted whole into
/// a `Json`. The result is named `json_of_text(text)`; JSON's grammar is
/// not stated.
#[verifier::external_body]
pub fn parse_json(text: &str) -> (r: Option<Json>)
    ensures
        r == json_of_text(text@),
{
    serde_json::from_str::<serde_json::Value>(text).ok().map(json_from_value)
}

/// A `serde_json::Value` as a `Json`, variant for variant (numbers by
/// their `Display` text, objects in the order of `serde_json`'s map); the
/// conversion `parse_json` makes.
#[verifier::external_body]
fn json_from_value(v: serde_json::Value) -> Json {
    match v {
        serde_json::Value::Null => Json::Null,
        serde_json::Value::Bool(b) => Json::Bool(b),
        serde_json::Value::Number(n) => Json::Number(n.to_string()),
        serde_json::Value::String(s) => Json::Str(s),
        serde_json::Value::Array(a) => Json::Array(a.into_iter().map(json_from_value).collect()),
        serde_json::Value::Object(o) => Json::Object(
            o.into_iter().map(|(k, x)| (k, json_from_value(x))).collect(),
        ),
    }
}

/// The value of the first entry with key `key`.
pub open spec fn entry_lookup(o: Seq<(String, Json)>, key: Seq<char>) -> Option<Json>
    decreases o.len(),
{
    if o.len() == 0 {
        None
    } else if o[0].0@ == key {
        Some(o[0].1)
    } else {
        entry_lookup(o.drop_first(), key)
    }
}

/// `Value::get` with a key: the entry's value when `j` is an object with
/// that key, else none.
pub open spec fn json_lookup(j: Json, key: Seq<char>) -> Option<Json> {
    match j {
        Json::Object(o) => entry_lookup(o@, key),
        _ => None,
    }
}

/// `Value::as_str`: the text of a string value.
pub open spec fn json_str(j: Json) -> Option<Seq<char>> {
    match j {
        Json::Str(s) => Some(s@),
        _ => None,
    }
}

/// The value under `key` when `j` is an object holding it.
pub fn json_get<'a>(j: &'a Json, key: &str) -> (r: Option<&'a Json>)
    ensures
        match r {
            Some(x) => json_lookup(*j, key@) == Some(*x),
            None => json_lookup(*j, key@) is None,
        },
{
    match j {
        Json::Object(o) => {
            let kv = chars_of(key);
            assert(json_lookup(*j, key@) == entry_lookup(o@, key@));
            let mut i: usize = 0;
            assert(o@.skip(0) =~= o@);
            while i < o.len()
                invariant
                    i <= o@.len(),
                    kv@ == key@,
                    json_lookup(*j, key@) == entry_lookup(o@, key@),
                    entry_lookup(o@, key@) == entry_lookup(o@.skip(i as int), key@),
                decreases o@.len() - i,
            {
                assert(o@.skip(i as int)[0] == o@[i as int]);
                assert(o@.skip(i as int).drop_first() =~= o@.skip(i + 1));
                let k = chars_of(o[i].0.as_str());
                if chars_eq(k.as_slice(), kv.as_slice()) {
                    return Some(&o[i].1);
                }
                i = i + 1;
            }
            assert(o@.skip(i as int).len() == 0);
            None
        },
        _ => None,
    }
}

/// The text of a string value.
pub fn json_as_str(j: &Json) -> (r: Option<String>)
    ensures
        opt_string_view(r) == json_str(*j),
{
    match j {
        Json::Str(s) => Some(s.clone()),
        _ => None,
    }
}

} // verus!
