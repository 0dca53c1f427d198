use vstd::prelude::*;
use base64::Engine;

verus! {

/// The text encoding that base64's standard engine gives a byte string.
/// Canonical: one text form per byte string, and the engine's decoder
/// accepts exactly these forms.
pub uninterp spec fn b64_of(b: Seq<u8>) -> Seq<char>;

/// Relies on base64's `general_purpose::STANDARD` engine: encoding is a
/// pure function of the input bytes, and is injective, since decoding
/// inverts it.
#[verifier::external_body]
pub(crate) fn b64_encode(b: &[u8]) -> (r: String)
    ensures
        r@ == b64_of(b@),
        forall|c: Seq<u8>| r@ == #[trigger] b64_of(c) ==> c == b@,
{
    base64::engine::general_purpose::STANDARD.encode(b)
}

/// Relies on base64's `general_purpose::STANDARD` engine decode. With this
/// engine's configuration (canonical padding required, no trailing bits),
/// decoding succeeds exactly on canonical encodings, and inverts `encode`.
#[verifier::external_body]
pub(crate) fn b64_decode(s: &str) -> (r: Option<Vec<u8>>)
    ensures
        r is Some ==> s@ == b64_of(r->Some_0@),
        forall|b: Seq<u8>| s@ == #[trigger] b64_of(b) ==> r is Some && r->Some_0@ == b,
{
    match base64::engine::general_purpose::STANDARD.decode(s.as_bytes()) {
        Ok(v) => Some(v),
        Err(_) => None,
    }
}

} // verus!
