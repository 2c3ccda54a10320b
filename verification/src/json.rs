//! Metadata as JSON text.
use vstd::prelude::*;
use serde_json::Value;
use crate::trace::{distinct_keys, MetaEntry, MetaValue};

verus! {

/// `serde_json::Value`, carried through unread.
#[verifier::external_type_specification]
#[verifier::external_body]
pub struct ExJsonValue(serde_json::Value);

/// `<serde_json::Value as Clone>::clone`: the copy is the value.
pub assume_specification[ <serde_json::Value as Clone>::clone ](v: &serde_json::Value) -> (r:
    serde_json::Value)
    ensures
        r == *v,
;

/// The JSON object text of a list of entries, a later entry replacing an
/// earlier one of the same key; `None` where the entries cannot be written.
pub uninterp spec fn metadata_text(entries: Seq<MetaEntry>) -> Option<Seq<char>>;

/// The entries of a JSON object text, one for each key; `None` where the text
/// is not a JSON object.
pub uninterp spec fn metadata_entries(text: Seq<char>) -> Option<Seq<MetaEntry>>;

/// `serde_json::to_string` on a `serde_json::Map` collected from the entries
/// in order, each value turned into the `serde_json::Value` of its variant
/// (`Value::Null`, `Value::Bool`, `Value::from` of an `i64`, `Value::String`,
/// or the carried value itself): the object's text, or the text of
/// serde_json's error.
#[verifier::external_body]
pub(crate) fn encode_metadata(entries: &Vec<MetaEntry>) -> (r: Result<String, String>)
    ensures
        r.is_ok() == metadata_text(entries@).is_some(),
        r matches Ok(s) ==> metadata_text(entries@) == Some(s@),
{
    let object: serde_json::Map<String, Value> = entries.iter().map(|e| (e.key.clone(), match &e.value {
        MetaValue::Null => Value::Null,
        MetaValue::Bool(b) => Value::Bool(*b),
        MetaValue::Int(i) => Value::from(*i),
        MetaValue::Text(s) => Value::String(s.clone()),
        MetaValue::Json(j) => j.clone(),
    })).collect();
    serde_json::to_string(&object).map_err(|e| e.to_string())
}

/// `serde_json::from_str` into a `serde_json::Map`, whose entries are handed
/// out in the map's own order, each value by its variant (null, a boolean, a
/// string, a number for which `Number::as_i64` gives an integer, or anything
/// else, which is carried as it is): one entry for each key of the object, or
/// the text of serde_json's error where the text is not a JSON object.
#[verifier::external_body]
pub(crate) fn decode_metadata(text: &str) -> (r: Result<Vec<MetaEntry>, String>)
    ensures
        r.is_ok() == metadata_entries(text@).is_some(),
        r matches Ok(v) ==> metadata_entries(text@) == Some(v@) && distinct_keys(v@),
{
    let object = serde_json::from_str::<serde_json::Map<String, Value>>(text).map_err(|e| e.to_string())?;
    Ok(object.into_iter().map(|(key, j)| MetaEntry { key, value: match j {
        Value::Null => MetaValue::Null,
        Value::Bool(b) => MetaValue::Bool(b),
        Value::String(s) => MetaValue::Text(s),
        Value::Number(n) => n.as_i64().map_or(MetaValue::Json(Value::Number(n)), MetaValue::Int),
        other => MetaValue::Json(other),
    } }).collect())
}

} // verus!
