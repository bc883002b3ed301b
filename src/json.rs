//! The JSON reading and writing that the library hands to serde_json.
//! A JSON value is carried as its compact text, as serde_json prints it.
use vstd::prelude::*;

verus! {

pub open spec fn opt_view(o: Option<String>) -> Option<Seq<char>> {
    match o {
        Some(s) => Some(s@),
        None => None,
    }
}

pub open spec fn members_view(o: Option<Vec<(String, String)>>) -> Option<
    Seq<(Seq<char>, Seq<char>)>,
> {
    match o {
        Some(v) => Some(v@.map_values(|p: (String, String)| (p.0@, p.1@))),
        None => None,
    }
}

/// The compact text of the JSON value that `s` holds, if `s` is JSON.
pub uninterp spec fn json_text_of(s: Seq<char>) -> Option<Seq<char>>;

/// The members of the JSON object that `s` holds, each as its key and the
/// compact text of its value, if `s` is a JSON object.
pub uninterp spec fn json_members_of(s: Seq<char>) -> Option<Seq<(Seq<char>, Seq<char>)>>;

/// The string that the JSON string literal `s` denotes, if it is one.
pub uninterp spec fn json_string_of(s: Seq<char>) -> Option<Seq<char>>;

/// The JSON string literal that denotes `s`.
pub uninterp spec fn json_quoted_of(s: Seq<char>) -> Seq<char>;

/// The compact texts of the elements of the JSON array that `s` holds, if
/// `s` is a JSON array.
pub uninterp spec fn json_elements_of(s: Seq<char>) -> Option<Seq<Seq<char>>>;

/// Relies on `serde_json::from_str::<serde_json::Value>` to parse `s`, and on
/// the value's `Display` to print it back in compact form.
#[verifier::external_body]
pub(crate) fn canonical_json(s: &str) -> (r: Option<String>)
    ensures
        opt_view(r) == json_text_of(s@),
{
    serde_json::from_str::<serde_json::Value>(s).ok().map(|v| v.to_string())
}

/// Relies on `serde_json::from_str::<serde_json::Map<String, serde_json::Value>>`
/// to read a JSON object; each member's value is printed back in compact form.
#[verifier::external_body]
pub(crate) fn json_members(s: &str) -> (r: Option<Vec<(String, String)>>)
    ensures
        members_view(r) == json_members_of(s@),
{
    serde_json::from_str::<serde_json::Map<String, serde_json::Value>>(s).ok().map(
        |m| m.into_iter().map(|(k, v)| (k, v.to_string())).collect(),
    )
}

/// Relies on `serde_json::from_str::<String>` to read a JSON string literal.
#[verifier::external_body]
pub(crate) fn json_string(s: &str) -> (r: Option<String>)
    ensures
        opt_view(r) == json_string_of(s@),
{
    serde_json::from_str::<String>(s).ok()
}

/// Relies on `serde_json::to_string` to write `s` as a JSON string literal;
/// serialising a string has no failure case.
#[verifier::external_body]
pub(crate) fn json_quote(s: &str) -> (r: String)
    ensures
        r@ == json_quoted_of(s@),
{
    serde_json::to_string(s).unwrap_or_default()
}

/// Relies on `serde_json::from_str::<Vec<serde_json::Value>>` to read a JSON
/// array; each element is printed back in compact form.
#[verifier::external_body]
pub(crate) fn json_elements(s: &str) -> (r: Option<Vec<String>>)
    ensures
        r matches Some(v) ==> json_elements_of(s@) == Some(v@.map_values(|x: String| x@)),
        r is None ==> json_elements_of(s@) is None,
{
    serde_json::from_str::<Vec<serde_json::Value>>(s).ok().map(
        |v| v.into_iter().map(|x| x.to_string()).collect(),
    )
}

} // verus!
