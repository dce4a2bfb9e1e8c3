use vstd::prelude::*;

verus! {

/// Whether `serde_json::from_slice` reads the bytes as one JSON document.
pub uninterp spec fn json_parses(bytes: Seq<u8>) -> bool;

/// What the document in the bytes holds at `outer.inner`: `None` when
/// either member is missing (or its parent is not an object), `Some(None)`
/// when the value is not an unsigned integer that fits in `u64`.
pub uninterp spec fn json_u64_member(bytes: Seq<u8>, outer: Seq<char>, inner: Seq<char>) -> Option<
    Option<u64>,
>;

/// Relies on `serde_json::from_slice` to parse the bytes (a failure comes
/// back as its message), then on `Value::get` for each member and
/// `Value::as_u64` for the value: all depend on the bytes and keys alone.
#[verifier::external_body]
pub(crate) fn json_u64_at(bytes: &[u8], outer: &str, inner: &str) -> (r: Result<
    Option<Option<u64>>,
    String,
>)
    ensures
        r is Ok == json_parses(bytes@),
        r matches Ok(c) ==> c == json_u64_member(bytes@, outer@, inner@),
{
    match serde_json::from_slice::<serde_json::Value>(bytes) {
        Ok(root) => Ok(root.get(outer).and_then(|o| o.get(inner)).map(|v| v.as_u64())),
        Err(e) => Err(e.to_string()),
    }
}

} // verus!
