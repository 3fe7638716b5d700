//! The one line the aggregator emits per iteration: a JSON object with a
//! `text` and a `tooltip` field, for a status-bar host that re-reads its
//! input line by line.

use vstd::prelude::*;

verus! {

/// The JSON encoding of the object `{"text": ..., "tooltip": ...}` with
/// the given field values.
pub uninterp spec fn json_pair_of(text: Seq<char>, tooltip: Seq<char>) -> Seq<char>;

/// Relies on serde_json::Value::to_string: the encoding of an object of
/// two string members is a function of the member strings alone (the
/// default map keeps keys sorted, so the layout is fixed too).
#[verifier::external_body]
pub(crate) fn encode_status_json(text: &str, tooltip: &str) -> (r: String)
    ensures
        r@ == json_pair_of(text@, tooltip@),
{
    let mut fields = serde_json::Map::new();
    fields.insert("text".to_string(), serde_json::Value::String(text.to_string()));
    fields.insert("tooltip".to_string(), serde_json::Value::String(tooltip.to_string()));
    serde_json::Value::Object(fields).to_string()
}

} // verus!
