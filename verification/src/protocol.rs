//! The protocol description: a JSON document whose `protocol` member lists
//! the commands the device knows.

use vstd::prelude::*;

verus! {

/// A JSON value, as the `serde_json` crate holds it.
#[verifier::external_type_specification]
#[verifier::external_body]
pub struct ExJsonValue(serde_json::Value);

/// The error that `serde_json` reports for a document it cannot read.
#[verifier::external_type_specification]
#[verifier::external_body]
pub struct ExJsonError(serde_json::Error);

/// Whether `serde_json` accepts `text` as one JSON value (by its own
/// grammar and nesting limit; only whitespace may follow the value).
pub uninterp spec fn json_text_is_valid(text: Seq<u8>) -> bool;

/// Why a protocol description could not be read.
#[derive(Debug, Clone, Copy, PartialEq, Eq)]
pub enum ProtocolError {
    /// The text is not a JSON document.
    InvalidJson,
    /// The document has no `protocol` member holding an array.
    MissingProtocol,
}

/// When `serde_json` accepts `text` and the member `key` of the value it
/// reads is an array, that array's elements, in order; `None` when the
/// value is not an object, lacks the member, or the member is not an array.
pub uninterp spec fn json_member_array(text: Seq<u8>, key: Seq<char>) -> Option<Seq<serde_json::Value>>;

/// Parses `text` with `serde_json::from_slice`, takes the member `key` by
/// `Value`'s `Index<&str>` (`Value::Null` when absent or when the value is
/// not an object), and copies its elements when `Value::as_array` finds an
/// array. Trusted: the parse succeeds exactly when `serde_json` accepts the
/// text (`json_text_is_valid`), and the elements come back exactly when the
/// member is an array, as the copies, in order, of the elements that
/// `json_member_array` names. What an element holds is not stated: Verus
/// sees nothing inside a `Value`.
#[verifier::external_body]
fn member_array(text: &[u8], key: &str) -> (r: Result<Option<Vec<serde_json::Value>>, serde_json::Error>)
    ensures
        r is Ok <==> json_text_is_valid(text@),
        r matches Ok(o) ==> (o is Some <==> json_member_array(text@, key@) is Some),
        r matches Ok(Some(v)) ==> json_member_array(text@, key@) == Some(v@),
{
    match serde_json::from_slice::<serde_json::Value>(text) {
        Ok(document) => match document[key].as_array() {
            Some(items) => Ok(Some(items.to_vec())),
            None => Ok(None),
        },
        Err(e) => Err(e),
    }
}

/// The entries of the `protocol` array of the JSON document `text`.
pub fn protocol_entries(text: &[u8]) -> (r: Result<Vec<serde_json::Value>, ProtocolError>)
    ensures
        r is Ok <==> json_text_is_valid(text@) && json_member_array(text@, "protocol"@) is Some,
        r matches Ok(v) ==> json_member_array(text@, "protocol"@) == Some(v@),
        (r matches Err(e) && e == ProtocolError::InvalidJson) <==> !json_text_is_valid(text@),
        (r matches Err(e) && e == ProtocolError::MissingProtocol) <==> json_text_is_valid(text@)
            && json_member_array(text@, "protocol"@) is None,
{
    match member_array(text, "protocol") {
        Ok(Some(items)) => Ok(items),
        Ok(None) => Err(ProtocolError::MissingProtocol),
        Err(_) => Err(ProtocolError::InvalidJson),
    }
}

} // verus!
