//! What this library takes from the `serde_json` crate, and what it believes
//! of it without proof.
//!
//! Stored values are JSON text. The grammar is the parser's business: the
//! library asks it two questions about a text and gives each answer a name, so
//! that its own contracts can say exactly what depends on the parser.

use vstd::prelude::*;

verus! {

/// A parsed JSON document. Nothing inside it is visible to the proofs.
#[verifier::external_type_specification]
#[verifier::external_body]
pub struct ExJsonValue(serde_json::Value);

/// The parser's error.
#[verifier::external_type_specification]
#[verifier::external_body]
pub struct ExJsonError(serde_json::Error);

/// Whether `text` is one JSON document, from its first byte to its last, as
/// `serde_json::from_slice` decides it.
pub uninterp spec fn is_json(text: Seq<u8>) -> bool;

/// The boolean that the member `member` holds in the JSON object that `text`
/// is, as `serde_json` reads it; `None` where `text` is no JSON document, the
/// document no object, the member missing or its value no boolean.
pub uninterp spec fn json_flag(text: Seq<u8>, member: Seq<char>) -> Option<bool>;

/// Parses `text` with `serde_json::from_slice`.
///
/// Believed, not proved: the parser accepts exactly the texts that `is_json`
/// names. That makes acceptance a matter of the bytes alone, which holds of a
/// parser that reads nothing else.
#[verifier::external_body]
pub(crate) fn parse_json(text: &[u8]) -> (parsed: Result<serde_json::Value, serde_json::Error>)
    ensures
        parsed.is_ok() == is_json(text@),
{
    serde_json::from_slice(text)
}

/// Parses `text` with `serde_json::from_slice` and reads the member `member`
/// of the document with `Value::get` and `Value::as_bool`.
///
/// Believed, not proved: the answer is the one that `json_flag` names, so it
/// depends on the bytes and the member's name alone.
#[verifier::external_body]
pub(crate) fn read_json_flag(text: &[u8], member: &str) -> (flag: Option<bool>)
    ensures
        flag == json_flag(text@, member@),
{
    let parsed: Result<serde_json::Value, serde_json::Error> = serde_json::from_slice(text);
    match parsed {
        Ok(document) => match document.get(member) {
            Some(value) => value.as_bool(),
            None => None,
        },
        Err(_) => None,
    }
}

} // verus!
