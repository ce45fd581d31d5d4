//! Serialization adapters over serde_json: validity of opaque JSON payloads
//! and the encoding of a dataset's column list as JSON text.

use vstd::prelude::*;

verus! {

/// Whether a piece of text is well-formed JSON, as serde_json decides it.
pub uninterp spec fn json_wf(s: Seq<char>) -> bool;

/// The column list encoded in a piece of JSON text, if it decodes as one,
/// as serde_json decides it.
pub uninterp spec fn cols_parsed(s: Seq<char>) -> Option<Seq<Seq<char>>>;

/// The views of a list of column names.
pub open spec fn col_views(v: Seq<String>) -> Seq<Seq<char>> {
    v.map_values(|s: String| s@)
}

/// The column list a piece of stored JSON text decodes to, an empty list
/// when the text does not decode as one.
pub open spec fn decoded_cols(s: Seq<char>) -> Seq<Seq<char>> {
    match cols_parsed(s) {
        Some(cs) => cs,
        None => Seq::empty(),
    }
}

/// Relies on serde_json::from_str::<serde_json::Value>: it accepts exactly
/// the well-formed JSON texts, a function of the text alone.
#[verifier::external_body]
pub fn json_valid(s: &str) -> (r: bool)
    ensures
        r == json_wf(s@),
{
    serde_json::from_str::<serde_json::Value>(s).is_ok()
}

/// Relies on serde_json::to_string: a `Vec<String>` is encoded as a JSON
/// array of strings, and decoding that text yields the same list back.
#[verifier::external_body]
pub fn encode_columns(cols: &Vec<String>) -> (r: Result<String, String>)
    ensures
        r matches Ok(s) ==> cols_parsed(s@) == Some(col_views(cols@)),
        r matches Ok(s) ==> json_wf(s@),
{
    match serde_json::to_string(cols) {
        Ok(s) => Ok(s),
        Err(e) => Err(format!("{}", e)),
    }
}

/// Relies on serde_json::from_str::<Vec<String>>: it decodes exactly the
/// texts that encode a list of strings, a function of the text alone.
#[verifier::external_body]
pub fn decode_columns(s: &str) -> (r: Option<Vec<String>>)
    ensures
        r is Some <==> cols_parsed(s@) is Some,
        r matches Some(v) ==> cols_parsed(s@) == Some(col_views(v@)),
{
    match serde_json::from_str::<Vec<String>>(s) {
        Ok(v) => Some(v),
        Err(_) => None,
    }
}

} // verus!
