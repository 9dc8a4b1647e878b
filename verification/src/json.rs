//! Structured table input.
//!
//! A table may be loaded from a JSON object mapping each symbol name to an
//! array of candidate fragments.  The parse itself is serde_json's; what it
//! yields for a given text is named by [`json_table_of`] and everything the
//! generator then does with the pairs is verified.

use vstd::prelude::*;

verus! {

/// serde_json's error type, carried opaquely out of the parse and mapped
/// to the library's own error by the caller.
#[verifier::external_type_specification]
#[verifier::external_body]
pub struct ExSerdeError(serde_json::Error);

/// The table a JSON text denotes: its name/candidates pairs ordered by
/// name, or nothing when the text is not such an object.
pub uninterp spec fn json_table_of(s: Seq<char>) -> Option<Seq<(Seq<char>, Seq<Seq<char>>)>>;

/// Relies on serde_json::from_str: parses a JSON object of string arrays.
/// Collecting through an ordered map makes the pair order a function of the
/// text alone (sorted by name, a repeated name collapsed to its last value).
#[verifier::external_body]
pub fn parse_json_table(json: &str) -> (r: Result<Vec<(String, Vec<String>)>, serde_json::Error>)
    ensures
        match r {
            Ok(v) => json_table_of(json@) == Some(v.deep_view()),
            Err(_) => json_table_of(json@) is None,
        },
{
    match serde_json::from_str::<std::collections::BTreeMap<String, Vec<String>>>(json) {
        Ok(m) => Ok(m.into_iter().collect()),
        Err(e) => Err(e),
    }
}

} // verus!
