//! The few JSON operations the library needs from `serde_json`: quoting a
//! string, and reading a string or a boolean out of a JSON text by pointer.
use crate::process::opt_str;
use vstd::prelude::*;

verus! {

/// The JSON string literal that `serde_json` writes for a text.
pub uninterp spec fn json_quoted(s: Seq<char>) -> Seq<char>;

/// The error message `serde_json` gives for a text that does not parse as
/// JSON, or `None` when it parses.
pub uninterp spec fn json_error(text: Seq<char>) -> Option<Seq<char>>;

/// The string at JSON pointer `pointer` (RFC 6901) in the JSON text, if the
/// text parses and holds a string there.
pub uninterp spec fn json_str_pointer(text: Seq<char>, pointer: Seq<char>) -> Option<Seq<char>>;

/// The boolean at JSON pointer `pointer` in the JSON text, if the text parses
/// and holds a boolean there.
pub uninterp spec fn json_bool_pointer(text: Seq<char>, pointer: Seq<char>) -> Option<bool>;

/// `serde_json::to_string` on a string: its JSON literal, quoted and escaped.
/// Claimed: the result depends on the text alone (named `json_quoted`); writing
/// a string into memory cannot fail, so the error arm is never taken.
#[verifier::external_body]
pub(crate) fn json_quote(s: &str) -> (r: String)
    ensures
        r@ == json_quoted(s@),
{
    match serde_json::to_string(s) {
        Ok(t) => t,
        Err(_) => String::new(),
    }
}

/// `serde_json::from_str::<Value>`, keeping only the error's message
/// (`Display`). Claimed: the outcome depends on the text alone (named `json_error`).
#[verifier::external_body]
pub(crate) fn json_syntax_error(text: &str) -> (r: Option<String>)
    ensures
        opt_str(r) == json_error(text@),
{
    match serde_json::from_str::<serde_json::Value>(text) {
        Ok(_) => None,
        Err(e) => Some(e.to_string()),
    }
}

/// `serde_json::from_str::<Value>` then `Value::pointer` and `Value::as_str`.
/// Claimed: the result depends on the two texts alone (named `json_str_pointer`).
#[verifier::external_body]
pub(crate) fn json_str_at(text: &str, pointer: &str) -> (r: Option<String>)
    ensures
        opt_str(r) == json_str_pointer(text@, pointer@),
{
    match serde_json::from_str::<serde_json::Value>(text) {
        Ok(v) => v.pointer(pointer).and_then(serde_json::Value::as_str).map(String::from),
        Err(_) => None,
    }
}

/// `serde_json::from_str::<Value>` then `Value::pointer` and `Value::as_bool`.
/// Claimed: the result depends on the two texts alone (named `json_bool_pointer`).
#[verifier::external_body]
pub(crate) fn json_bool_at(text: &str, pointer: &str) -> (r: Option<bool>)
    ensures
        r == json_bool_pointer(text@, pointer@),
{
    match serde_json::from_str::<serde_json::Value>(text) {
        Ok(v) => v.pointer(pointer).and_then(serde_json::Value::as_bool),
        Err(_) => None,
    }
}

} // verus!
