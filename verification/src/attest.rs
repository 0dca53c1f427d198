use vstd::prelude::*;
use vstd::bytes::{spec_u64_to_le_bytes, u64_to_le_bytes};
use ring::signature::{Ed25519KeyPair, KeyPair, UnparsedPublicKey, ED25519};

verus! {

/// The Ed25519 signature that ring's `Ed25519KeyPair::sign` produces for a
/// message under the signing key held in a PKCS#8 document. Ed25519
/// signing is deterministic, so this is a function of key and message
/// alone.
pub uninterp spec fn sig_of(pkcs8: Seq<u8>, msg: Seq<u8>) -> Seq<u8>;

/// The public-key bytes that ring derives from the signing key held in a
/// PKCS#8 document.
pub uninterp spec fn pub_of(pkcs8: Seq<u8>) -> Seq<u8>;

/// Whether ring's `Ed25519KeyPair::from_pkcs8` accepts a document — a
/// function of the document's bytes alone. Every document that
/// `generate_signing_key` hands out satisfies it.
pub uninterp spec fn pkcs8_parses(pkcs8: Seq<u8>) -> bool;

/// Whether ring's Ed25519 verification accepts a signature over a message
/// under a public key — a deterministic function of the three byte
/// strings alone. The signature that `sign` produces under the matching
/// key is always accepted.
pub uninterp spec fn ed25519_accepts(pk: Seq<u8>, msg: Seq<u8>, sig: Seq<u8>) -> bool;

/// Relies on ring's `Ed25519KeyPair::generate_pkcs8`: a fresh signing key,
/// drawn from the system's secure random source, in PKCS#8 v2 form. The
/// key is random, so all that is promised is that `from_pkcs8` accepts
/// what this returns.
#[verifier::external_body]
pub(crate) fn generate_signing_key() -> (r: Option<Vec<u8>>)
    ensures
        r is Some ==> pkcs8_parses(r->Some_0@),
{
    let rng = ring::rand::SystemRandom::new();
    match Ed25519KeyPair::generate_pkcs8(&rng) {
        Ok(doc) => Some(doc.as_ref().to_vec()),
        Err(_) => None,
    }
}

/// Relies on ring's `Ed25519KeyPair::from_pkcs8` and the `KeyPair` trait:
/// the public key of a parsed signing key is a function of the document,
/// and parsing succeeds exactly on the documents `from_pkcs8` accepts.
#[verifier::external_body]
pub(crate) fn signing_public_key(pkcs8: &[u8]) -> (r: Option<Vec<u8>>)
    ensures
        r is Some <==> pkcs8_parses(pkcs8@),
        r is Some ==> r->Some_0@ == pub_of(pkcs8@),
{
    match Ed25519KeyPair::from_pkcs8(pkcs8) {
        Ok(kp) => Some(kp.public_key().as_ref().to_vec()),
        Err(_) => None,
    }
}

/// Relies on ring's `Ed25519KeyPair::sign`: deterministic Ed25519 signing
/// of the message under the document's key. `None` exactly when the
/// document does not parse as a signing key.
#[verifier::external_body]
pub(crate) fn sign_message(pkcs8: &[u8], msg: &[u8]) -> (r: Option<Vec<u8>>)
    ensures
        r is Some <==> pkcs8_parses(pkcs8@),
        r is Some ==> r->Some_0@ == sig_of(pkcs8@, msg@),
{
    match Ed25519KeyPair::from_pkcs8(pkcs8) {
        Ok(kp) => Some(kp.sign(msg).as_ref().to_vec()),
        Err(_) => None,
    }
}

/// Relies on ring's `UnparsedPublicKey::verify` with the `ED25519`
/// algorithm: verification is a deterministic function of public key,
/// message and signature, and the signature that `sign` produces for a
/// message verifies under the matching public key.
#[verifier::external_body]
pub(crate) fn ed25519_verify(public_key: &[u8], msg: &[u8], sig: &[u8]) -> (r: bool)
    ensures
        r == ed25519_accepts(public_key@, msg@, sig@),
        forall|k: Seq<u8>|
            public_key@ == pub_of(k) && sig@ == #[trigger] sig_of(k, msg@) ==> r,
{
    UnparsedPublicKey::new(&ED25519, public_key).verify(msg, sig).is_ok()
}

/// A decrypted value together with the service's signature over its
/// canonical eight-byte little-endian encoding. A third party that holds
/// the service's public key can check it without trusting the channel.
pub struct Attestation {
    pub value: u64,
    pub signature: Vec<u8>,
}

/// Sign a plaintext value under the service's signing key. The signed
/// message is the fixed-width little-endian encoding of the value.
/// `None` exactly when the signing-key document does not parse.
pub fn attest_value(signing_key: &[u8], value: u64) -> (r: Option<Attestation>)
    ensures
        r is Some <==> pkcs8_parses(signing_key@),
        r is Some ==> r->Some_0.value == value && r->Some_0.signature@ == sig_of(
            signing_key@,
            spec_u64_to_le_bytes(value),
        ),
{
    let msg = u64_to_le_bytes(value);
    match sign_message(signing_key, msg.as_slice()) {
        Some(signature) => Some(Attestation { value, signature }),
        None => None,
    }
}

/// The client-side check of an attestation: verify the signature over the
/// same fixed-width encoding of the value. The result is exactly what
/// Ed25519 verification decides on these bytes; in particular, whenever
/// the signature is the one the service signed under the key behind
/// `public_key`, this returns true.
pub fn verify_attested_value(public_key: &[u8], value: u64, signature: &[u8]) -> (r: bool)
    ensures
        r == ed25519_accepts(public_key@, spec_u64_to_le_bytes(value), signature@),
        forall|k: Seq<u8>|
            public_key@ == pub_of(k) && signature@ == #[trigger] sig_of(
                k,
                spec_u64_to_le_bytes(value),
            ) ==> r,
{
    let msg = u64_to_le_bytes(value);
    ed25519_verify(public_key, msg.as_slice(), signature)
}

} // verus!
