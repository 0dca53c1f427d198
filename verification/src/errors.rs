use vstd::prelude::*;

verus! {

/// Failure of decoding a ciphertext wire string into an envelope.
#[derive(Clone, Copy, PartialEq, Eq, Structural, Debug)]
pub enum DecodeError {
    /// The wire string is structurally invalid: not a valid transport
    /// encoding, or the framed bytes do not form an envelope.
    Malformed,
    /// The envelope decoded, but its binding tag (semantic type or key
    /// generation) disagrees with what the caller expected.
    TypeMismatch,
}

/// Client-facing error of a service operation. Every operation returns one
/// of these instead of panicking, so one tenant's bad request never takes
/// the service down for the others.
#[derive(Clone, Copy, PartialEq, Eq, Structural, Debug)]
pub enum ServiceError {
    /// The tenant handle has never been provisioned.
    NotFound,
    /// A ciphertext wire string failed to decode.
    Malformed,
    /// A ciphertext envelope is bound to a different semantic type or key
    /// generation than the operation expected.
    TypeMismatch,
    /// An aggregation was requested over zero ciphertexts.
    EmptyInput,
    /// The external cryptographic primitive rejected its input.
    EngineFailure,
}

impl ServiceError {
    /// Lift a codec failure into the service-level taxonomy.
    pub fn from_decode(e: DecodeError) -> (r: ServiceError)
        ensures
            r == ServiceError::spec_from_decode(e),
    {
        match e {
            DecodeError::Malformed => ServiceError::Malformed,
            DecodeError::TypeMismatch => ServiceError::TypeMismatch,
        }
    }

    /// What `from_decode` returns for each codec failure.
    pub open spec fn spec_from_decode(e: DecodeError) -> ServiceError {
        match e {
            DecodeError::Malformed => ServiceError::Malformed,
            DecodeError::TypeMismatch => ServiceError::TypeMismatch,
        }
    }
}

} // verus!
