//! Trusted boundary: the few calls into outside crates (and into parts of std
//! that vstd gives no specification) that the library relies on. Each wrapper
//! states no more than the callee's own documentation and source show.

use vstd::prelude::*;
use crate::ident::is_uuid_text;

verus! {

/// Relies on std's String::push: appends exactly one character at the end.
#[verifier::external_body]
pub(crate) fn push_char(s: &mut String, c: char)
    ensures
        final(s)@ == old(s)@ + seq![c],
{
    s.push(c);
}

/// Relies on uuid::Uuid::new_v4 and its Display form: a freshly generated
/// random UUID, written as 36 characters of lower-case hexadecimal digits
/// with hyphens at positions 8, 13, 18 and 23. Nothing is promised about
/// which identifier comes back: it is random.
#[verifier::external_body]
pub(crate) fn fresh_uuid() -> (r: String)
    ensures
        is_uuid_text(r@),
{
    uuid::Uuid::new_v4().to_string()
}

/// Relies on chrono's Utc::now and DateTime::to_rfc3339: the current UTC
/// instant as an RFC 3339 / ISO 8601 text. The value depends on the clock,
/// so nothing is promised about which text comes back.
#[verifier::external_body]
pub(crate) fn now_utc_text() -> (r: String)
{
    chrono::Utc::now().to_rfc3339()
}

/// Whether a text is one well-formed JSON document, as serde_json's parser
/// accepts it: exactly one JSON value, with nothing but whitespace around it.
pub uninterp spec fn is_json_text(s: Seq<char>) -> bool;

/// Relies on serde_json::from_str::<Value>: it succeeds exactly on texts that
/// are one well-formed JSON document.
#[verifier::external_body]
pub(crate) fn json_text_ok(s: &str) -> (r: bool)
    ensures
        r == is_json_text(s@),
{
    serde_json::from_str::<serde_json::Value>(s).is_ok()
}

/// Whether a text is one well-formed YAML document, as serde_yaml's parser
/// accepts it when the result is read as a JSON-shaped value.
pub uninterp spec fn is_yaml_doc(s: Seq<char>) -> bool;

/// The JSON text a well-formed YAML document translates to: the document's
/// mappings, sequences and scalars rewritten as one compact JSON document.
/// Both parse and reserialization are functions of the input text alone.
pub uninterp spec fn yaml_as_json(s: Seq<char>) -> Seq<char>;

/// Relies on serde_yaml::from_str::<serde_json::Value> to read the document
/// and serde_json::to_string to write it back out as JSON: the composition
/// is deterministic, and it succeeds exactly on well-formed documents.
#[verifier::external_body]
pub(crate) fn yaml_to_json(s: &str) -> (r: Option<String>)
    ensures
        r is Some <==> is_yaml_doc(s@),
        r is Some ==> r->0@ == yaml_as_json(s@),
{
    match serde_yaml::from_str::<serde_json::Value>(s) {
        Ok(v) => serde_json::to_string(&v).ok(),
        Err(_) => None,
    }
}

} // verus!
