//! The computations the log format takes from outside code: UTF-8 decoding
//! of bodies, JSON pretty printing, header value text and status reasons.

use vstd::prelude::*;
use vstd::utf8::{decode_utf8, valid_utf8};

verus! {

#[verifier::external_type_specification]
#[verifier::external_body]
pub struct ExUtf8Error(std::str::Utf8Error);

/// Reads a body as UTF-8 text (std's `str::from_utf8`).
///
/// Claimed of it: it succeeds exactly on valid UTF-8 and then yields the
/// decoded characters; otherwise it returns std's description of the fault.
#[verifier::external_body]
pub(crate) fn utf8_text(bytes: &[u8]) -> (res: Result<&str, std::str::Utf8Error>)
    ensures
        res is Ok <==> valid_utf8(bytes@),
        res matches Ok(s) ==> s@ == decode_utf8(bytes@),
{
    std::str::from_utf8(bytes)
}

/// What `serde_json::from_str::<serde_json::Value>` followed by
/// `serde_json::to_string_pretty` yields for a text: `None` where the text
/// is no JSON document.
pub uninterp spec fn json_pretty(text: Seq<char>) -> Option<Seq<char>>;

/// Re-renders a JSON document in serde_json's pretty form
/// (`serde_json::from_str` into a `Value`, then `serde_json::to_string_pretty`).
///
/// Claimed of it: the result is the value of `json_pretty` on the text.
#[verifier::external_body]
pub(crate) fn pretty_json(text: &str) -> (res: Option<String>)
    ensures
        match res {
            Some(s) => json_pretty(text@) == Some(s@),
            None => json_pretty(text@) is None,
        },
{
    match serde_json::from_str::<serde_json::Value>(text) {
        Ok(value) => serde_json::to_string_pretty(&value).ok(),
        Err(_) => None,
    }
}

/// A byte that `http::HeaderValue::to_str` accepts: visible ASCII or a tab.
pub open spec fn visible_ascii(b: u8) -> bool {
    (32 <= b && b < 127) || b == 9
}

/// The characters of a byte sequence read one byte per character.
pub open spec fn ascii_text(bytes: Seq<u8>) -> Seq<char> {
    bytes.map_values(|b: u8| b as char)
}

/// The text of a header value, as `http::HeaderValue::from_bytes` followed by
/// `http::HeaderValue::to_str` gives it.
///
/// Claimed of it: there is a text exactly when every byte is visible ASCII
/// or a tab (`from_bytes` refuses only control bytes other than the tab and
/// DEL, all of which `to_str` refuses too), and the text is the bytes read as
/// ASCII characters.
#[verifier::external_body]
pub(crate) fn header_value_text(value: &[u8]) -> (res: Option<String>)
    ensures
        res is Some <==> (forall|i: int| 0 <= i < value@.len() ==> visible_ascii(#[trigger] value@[i])),
        res matches Some(s) ==> s@ == ascii_text(value@),
{
    match http::HeaderValue::from_bytes(value) {
        Ok(v) => match v.to_str() {
            Ok(s) => Some(s.to_string()),
            Err(_) => None,
        },
        Err(_) => None,
    }
}

/// The reason phrase that `http::StatusCode::canonical_reason` gives for a code.
pub uninterp spec fn canonical_reason(code: u16) -> Option<Seq<char>>;

/// The reason phrase of a status code (`http::StatusCode::from_u16`, then
/// `http::StatusCode::canonical_reason`).
///
/// Claimed of it: the result is `canonical_reason(code)`; codes outside
/// 100..=999 have none (`from_u16` refuses them); and no phrase of the
/// table holds a line break.
#[verifier::external_body]
pub(crate) fn status_reason(code: u16) -> (res: Option<String>)
    ensures
        match res {
            Some(r) => canonical_reason(code) == Some(r@),
            None => canonical_reason(code) is None,
        },
        (code < 100 || code > 999) ==> res is None,
        res matches Some(r) ==> !r@.contains('\n'),
{
    match http::StatusCode::from_u16(code) {
        Ok(status) => match status.canonical_reason() {
            Some(reason) => Some(reason.to_string()),
            None => None,
        },
        Err(_) => None,
    }
}

} // verus!
