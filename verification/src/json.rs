//! A plain-value model of JSON documents.
//!
//! Payloads and commands travel as JSON text. The gateway's rules read and
//! build JSON trees as values of [`JsonVal`]; only the two conversions between
//! text and tree are entrusted to the `serde_json` crate.

use vstd::prelude::*;

verus! {

/// A JSON document as a plain value: numbers are split into the unsigned,
/// signed-negative and other (textual) cases so that no floating point value
/// is ever held.
pub enum JsonVal {
    Null,
    Bool(bool),
    /// A number that fits in `u64`.
    UInt(u64),
    /// A negative number that fits in `i64`.
    Int(i64),
    /// Any other number, carried as its decimal rendering.
    NumText(String),
    Str(String),
    Arr(Vec<JsonVal>),
    Obj(Vec<(String, JsonVal)>),
}

/// What `serde_json` parses a given text to, under this module's model;
/// `None` where the text is not valid JSON.
pub uninterp spec fn json_val_of(s: Seq<char>) -> Option<JsonVal>;

/// The text `serde_json` renders a given tree to.
pub uninterp spec fn json_text_of(v: JsonVal) -> Seq<char>;

#[verifier::external_type_specification]
#[verifier::external_body]
pub struct ExJsonValue(serde_json::Value);

/// Relies on `serde_json::Value`'s enum shape: each variant is carried over
/// one for one, with numbers split by `Number::as_u64` / `as_i64`.
#[verifier::external_body]
fn conv_from_value(v: serde_json::Value) -> JsonVal {
    match v {
        serde_json::Value::Null => JsonVal::Null,
        serde_json::Value::Bool(b) => JsonVal::Bool(b),
        serde_json::Value::Number(n) => n.as_u64().map(JsonVal::UInt)
            .or_else(|| n.as_i64().map(JsonVal::Int))
            .unwrap_or_else(|| JsonVal::NumText(n.to_string())),
        serde_json::Value::String(s) => JsonVal::Str(s),
        serde_json::Value::Array(a) => JsonVal::Arr(a.into_iter().map(conv_from_value).collect()),
        serde_json::Value::Object(m) => JsonVal::Obj(m.into_iter().map(|(k, w)| (k, conv_from_value(w))).collect()),
    }
}

/// Relies on `serde_json::Value`'s enum shape: the inverse carry-over of
/// `conv_from_value`.
#[verifier::external_body]
fn conv_to_value(v: &JsonVal) -> serde_json::Value {
    match v {
        JsonVal::Null => serde_json::Value::Null,
        JsonVal::Bool(b) => serde_json::Value::Bool(*b),
        JsonVal::UInt(u) => serde_json::Value::from(*u),
        JsonVal::Int(i) => serde_json::Value::from(*i),
        JsonVal::NumText(s) => serde_json::from_str(s.as_str()).unwrap_or(serde_json::Value::Null),
        JsonVal::Str(s) => serde_json::Value::String(s.clone()),
        JsonVal::Arr(a) => serde_json::Value::Array(a.iter().map(conv_to_value).collect()),
        JsonVal::Obj(o) => serde_json::Value::Object(o.iter().map(|(k, w)| (k.clone(), conv_to_value(w))).collect()),
    }
}

/// Relies on `serde_json::from_str`: parsing is a function of the text alone,
/// named by `json_val_of`.
#[verifier::external_body]
pub fn parse_json(s: &str) -> (r: Option<JsonVal>)
    ensures
        r == json_val_of(s@),
{
    serde_json::from_str::<serde_json::Value>(s).ok().map(conv_from_value)
}

/// Relies on `serde_json::to_string`: rendering is a function of the tree
/// alone, named by `json_text_of`.
#[verifier::external_body]
pub fn render_json(v: &JsonVal) -> (r: String)
    ensures
        r@ == json_text_of(*v),
{
    serde_json::to_string(&conv_to_value(v)).unwrap_or_else(|_| String::new())
}

/// The first value under `key` in an object's field list, by textual key
/// equality.
pub open spec fn fields_get(fields: Seq<(String, JsonVal)>, key: Seq<char>) -> Option<JsonVal>
    decreases fields.len(),
{
    if fields.len() == 0 {
        None
    } else if fields[0].0@ == key {
        Some(fields[0].1)
    } else {
        fields_get(fields.drop_first(), key)
    }
}

/// The value under `key` where the tree is an object holding that key.
pub open spec fn json_get(v: JsonVal, key: Seq<char>) -> Option<JsonVal> {
    match v {
        JsonVal::Obj(fields) => fields_get(fields@, key),
        _ => None,
    }
}

/// Look a key up in an object's field list.
pub fn obj_get<'a>(fields: &'a Vec<(String, JsonVal)>, key: &str) -> (r: Option<&'a JsonVal>)
    ensures
        (match r {
            Some(v) => Some(*v),
            None => None,
        }) == fields_get(fields@, key@),
{
    let mut i: usize = 0;
    assert(fields@.skip(0) =~= fields@);
    while i < fields.len()
        invariant
            i <= fields.len(),
            fields_get(fields@, key@) == fields_get(fields@.skip(i as int), key@),
        decreases fields.len() - i,
    {
        assert(fields@.skip(i as int).drop_first() =~= fields@.skip(i + 1));
        assert(fields@.skip(i as int)[0] == fields@[i as int]);
        if crate::strutil::str_eq(fields[i].0.as_str(), key) {
            return Some(&fields[i].1);
        }
        i += 1;
    }
    None
}

} // verus!
