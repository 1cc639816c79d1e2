use vstd::prelude::*;

verus! {

/// serde_json's JSON value type. It is opaque here: values of it are only
/// carried through to the serializer, never inspected.
#[verifier::external_type_specification]
#[verifier::external_body]
pub struct ExValue(serde_json::Value);

/// serde_json's error type, carried opaquely inside
/// `HttpRequestError::SerializationError`.
#[verifier::external_type_specification]
#[verifier::external_body]
pub struct ExJsonError(serde_json::Error);

/// What serde_json::to_string returns for a value: its JSON text, or None
/// when serialization fails. For a given value the outcome is a function of
/// the value alone, so it gets a name; what the text looks like is not
/// stated.
pub uninterp spec fn spec_json_text(v: serde_json::Value) -> Option<Seq<char>>;

/// Relies on serde_json::to_string: the same value always gives the same
/// text, or always fails.
#[verifier::external_body]
pub(crate) fn json_to_text(v: &serde_json::Value) -> (r: Result<String, serde_json::Error>)
    ensures
        r matches Ok(s) ==> spec_json_text(*v) == Some(s@),
        r is Err <==> spec_json_text(*v) is None,
{
    serde_json::to_string(v)
}

} // verus!
