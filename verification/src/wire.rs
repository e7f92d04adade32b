//! The trusted boundary to the JSON codec.
//!
//! Each executable function here is `external_body`: its body makes a call
//! into `serde_json` and converts the outcome into plain values, and the
//! stated contract is believed rather than proved. The uninterpreted spec
//! functions give names to what those calls return: each one is a pure
//! function of the document bytes (and of the field name), so equal inputs
//! always stand for equal results.

use vstd::prelude::*;

verus! {

/// The string value under the top-level `field` of the JSON document `doc`:
/// `Some` exactly when `doc` is one JSON object whose `field` holds a string.
pub uninterp spec fn str_field_of(doc: Seq<u8>, field: Seq<char>) -> Option<Seq<char>>;

/// The boolean value under the top-level `field` of the JSON document `doc`:
/// `Some` exactly when `doc` is one JSON object whose `field` holds a boolean.
pub uninterp spec fn bool_field_of(doc: Seq<u8>, field: Seq<char>) -> Option<bool>;

/// Whether `doc` is one JSON object whose top-level `field` is present and
/// not `null`.
pub uninterp spec fn field_set_of(doc: Seq<u8>, field: Seq<char>) -> bool;

/// The tool invocation under `tool.fields` of the JSON document `doc`: the
/// `name` string and the `args` array of strings, `Some` exactly when all
/// of that shape is present.
pub uninterp spec fn tool_of(doc: Seq<u8>) -> Option<(Seq<char>, Seq<Seq<char>>)>;

/// Relies on `serde_json::from_slice::<Value>`, `Value::get` and
/// `Value::as_str`: reads the string under a top-level field of a JSON
/// document. Their result depends on the document bytes and the field
/// name alone.
#[verifier::external_body]
pub(crate) fn json_str_field(doc: &[u8], field: &str) -> (r: Option<String>)
    ensures
        match (r, str_field_of(doc@, field@)) {
            (Some(s), Some(v)) => s@ == v,
            (None, None) => true,
            _ => false,
        },
{
    let v: serde_json::Value = serde_json::from_slice(doc).ok()?;
    Some(v.get(field)?.as_str()?.to_string())
}

/// Relies on `serde_json::from_slice::<Value>`, `Value::get` and
/// `Value::as_bool`: reads the boolean under a top-level field of a JSON
/// document. Their result depends on the document bytes and the field
/// name alone.
#[verifier::external_body]
pub(crate) fn json_bool_field(doc: &[u8], field: &str) -> (r: Option<bool>)
    ensures
        r == bool_field_of(doc@, field@),
{
    let v: serde_json::Value = serde_json::from_slice(doc).ok()?;
    v.get(field)?.as_bool()
}

/// Relies on `serde_json::from_slice::<Value>`, `Value::get` and
/// `Value::is_null`: tells whether a top-level field of a JSON document is
/// present and not `null`. Their result depends on the document bytes and
/// the field name alone.
#[verifier::external_body]
pub(crate) fn json_field_is_set(doc: &[u8], field: &str) -> (r: bool)
    ensures
        r == field_set_of(doc@, field@),
{
    match serde_json::from_slice::<serde_json::Value>(doc) {
        Ok(v) => match v.get(field) {
            Some(x) => !x.is_null(),
            None => false,
        },
        Err(_) => false,
    }
}

/// Relies on `serde_json::from_slice::<Value>`, `Value::get`,
/// `Value::as_str` and `Value::as_array`: reads the tool name and the tool
/// argument strings nested under `tool.fields` of a JSON document. Their
/// result depends on the document bytes alone.
#[verifier::external_body]
pub(crate) fn json_tool_field(doc: &[u8]) -> (r: Option<(String, Vec<String>)>)
    ensures
        match (r, tool_of(doc@)) {
            (Some(t), Some(v)) => t.0@ == v.0 && t.1.deep_view() == v.1,
            (None, None) => true,
            _ => false,
        },
{
    let v: serde_json::Value = serde_json::from_slice(doc).ok()?;
    let f = v.get("tool")?.get("fields")?;
    let name = f.get("name")?.as_str()?.to_string();
    let mut args: Vec<String> = Vec::new();
    for a in f.get("args")?.as_array()? {
        args.push(a.as_str()?.to_string());
    }
    Some((name, args))
}

/// Relies on `String::push_str`: appends the characters of `t` to `s`.
#[verifier::external_body]
pub(crate) fn push_str(s: &mut String, t: &str)
    ensures
        final(s)@ == old(s)@ + t@,
{
    s.push_str(t);
}

} // verus!
