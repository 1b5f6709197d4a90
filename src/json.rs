//! A plain model of a JSON document, and the reading of one from text.
use vstd::prelude::*;

verus! {

/// A JSON value as the envelope decoder reads it.
///
/// Numbers keep the text that serde_json writes for them; arrays and objects
/// keep, beside their elements, their own compact text, which is what a
/// composite value reads as when it stands where a text is expected.
pub enum Json {
    Null,
    Bool(bool),
    Number(String),
    Str(String),
    Array { items: Vec<Json>, text: String },
    Object { entries: Vec<(String, Json)>, text: String },
}

/// The document that serde_json reads from a text, or `None` where the text
/// is no JSON document.
pub uninterp spec fn json_parsed(s: Seq<char>) -> Option<Json>;

#[verifier::external_type_specification]
#[verifier::external_body]
pub struct ExValue(serde_json::Value);

/// Relies on serde_json::from_str::<serde_json::Value>: reads the text as one
/// JSON document, or fails; the outcome depends on the text alone.
#[verifier::external_body]
pub fn parse_json(text: &str) -> (r: Option<Json>)
    ensures
        r == json_parsed(text@),
{
    serde_json::from_str::<serde_json::Value>(text).ok().map(|v| json_of_value(&v))
}

/// Moves a serde_json value into the model, variant for variant; numbers and
/// composite values take the text that serde_json's `to_string` gives them.
#[verifier::external_body]
fn json_of_value(v: &serde_json::Value) -> Json {
    match v {
        serde_json::Value::Null => Json::Null,
        serde_json::Value::Bool(b) => Json::Bool(*b),
        serde_json::Value::Number(n) => Json::Number(n.to_string()),
        serde_json::Value::String(s) => Json::Str(s.clone()),
        serde_json::Value::Array(a) => Json::Array { items: a.iter().map(json_of_value).collect(), text: v.to_string() },
        serde_json::Value::Object(m) => Json::Object {
            entries: m.iter().map(|(k, x)| (k.clone(), json_of_value(x))).collect(),
            text: v.to_string(),
        },
    }
}

/// The value of the first entry named `key`.
pub open spec fn lookup(entries: Seq<(String, Json)>, key: Seq<char>) -> Option<Json>
    decreases entries.len(),
{
    if entries.len() == 0 {
        None
    } else if entries[0].0@ == key {
        Some(entries[0].1)
    } else {
        lookup(entries.drop_first(), key)
    }
}

/// Finds the value of the first entry named `key`.
pub fn find_entry<'a>(entries: &'a Vec<(String, Json)>, key: &String) -> (r: Option<&'a Json>)
    ensures
        match r {
            Some(v) => lookup(entries@, key@) == Some(*v),
            None => lookup(entries@, key@) is None,
        },
{
    let n = entries.len();
    let mut i: usize = 0;
    assert(entries@.subrange(0, n as int) =~= entries@);
    while i < n
        invariant
            i <= n,
            n == entries@.len(),
            lookup(entries@, key@) == lookup(entries@.subrange(i as int, n as int), key@),
        decreases n - i,
    {
        let ghost rest = entries@.subrange(i as int, n as int);
        assert(rest.drop_first() =~= entries@.subrange(i + 1, n as int));
        if entries[i].0 == *key {
            return Some(&entries[i].1);
        }
        i += 1;
    }
    None
}

} // verus!
