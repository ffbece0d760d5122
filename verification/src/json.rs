//! Text that holds JSON: the name of a banner is written as a JSON object
//! with the visible text under `text`.

use vstd::prelude::*;
use crate::error::DecodeError;
use crate::error::DecodeErrorM;
use crate::error::Kind;

verus! {

/// The string under the member `key` of the JSON object that `serde_json`
/// reads from `json`; nothing where `json` is no JSON, is no object, has no
/// such member, or holds something other than a string there.
pub uninterp spec fn json_member(json: Seq<char>, key: Seq<char>) -> Option<Seq<char>>;

/// Reads one string member of a JSON object.
///
/// Trusted: parses with `serde_json::from_str` into a `serde_json::Value`,
/// indexes it with `Value::get` and reads the string with `Value::as_str`.
/// Each of the three gives nothing rather than panic. The contract only
/// gives the outcome its name.
#[verifier::external_body]
pub(crate) fn member_text(json: &str, key: &str) -> (r: Option<String>)
    ensures
        match json_member(json@, key@) {
            Some(text) => r matches Some(s) && s@ == text,
            None => r is None,
        },
{
    serde_json::from_str::<serde_json::Value>(json).ok()?.get(key)?.as_str().map(str::to_owned)
}

/// The visible text of a name, given what was found under `text`.
pub open spec fn name_text(found: Option<Seq<char>>) -> Result<Seq<char>, DecodeErrorM> {
    match found {
        Some(text) => Ok(text),
        None => Err(DecodeErrorM::TypeMismatch(Kind::Json, Kind::Text)),
    }
}

/// Settles what a name is from what was found under `text` in its JSON:
/// the string, or a mismatch where there was none.
pub fn text_found(found: Option<String>) -> (r: Result<String, DecodeError>)
    ensures
        match found {
            Some(text) => r == Ok::<String, DecodeError>(text),
            None => r matches Err(e) && e@ == DecodeErrorM::TypeMismatch(Kind::Json, Kind::Text),
        },
{
    match found {
        Some(text) => Ok(text),
        None => Err(DecodeError::TypeMismatch(Kind::Json, Kind::Text)),
    }
}

/// Reads the visible text out of a name written as JSON.
pub fn text_from_json(json: &str) -> (r: Result<String, DecodeError>)
    ensures
        match name_text(json_member(json@, "text"@)) {
            Ok(text) => r matches Ok(s) && s@ == text,
            Err(e) => r matches Err(x) && x@ == e,
        },
{
    text_found(member_text(json, "text"))
}

} // verus!
