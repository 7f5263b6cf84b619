use vstd::prelude::*;

verus! {

/// What standard-alphabet, padded base64 decoding yields for a string: the
/// decoded bytes, or nothing when the string is not valid base64.  The
/// outcome depends on the input characters alone.
pub uninterp spec fn base64_decode_of(s: Seq<char>) -> Option<Seq<u8>>;

/// Relies on base64's standard engine (`general_purpose::STANDARD.decode`):
/// a pure function of the input string.
#[verifier::external_body]
pub(crate) fn base64_decode(s: &str) -> (r: Option<Vec<u8>>)
    ensures
        (r matches Some(b) ==> base64_decode_of(s@) == Some(b@)),
        (r is None ==> base64_decode_of(s@) is None),
{
    match base64::Engine::decode(&base64::engine::general_purpose::STANDARD, s) {
        Ok(v) => Some(v),
        Err(_) => None,
    }
}

} // verus!
