//! Core of a multi-tenant homomorphic-aggregation service.
//!
//! Tenants register key material, submit encrypted values, ask for a
//! homomorphic sum over them, and fetch signed decryption results. This
//! crate holds the verified core: the ciphertext envelope codec, the key
//! vault, the session context switch that keeps every homomorphic
//! operation under the right tenant's operational key, and the
//! orchestration of the five client-facing operations. The homomorphic
//! and signature primitives themselves are external engines, reached only
//! through narrow trusted wrappers.

pub mod agg;
pub mod attest;
pub mod b64;
pub mod codec;
pub mod errors;
pub mod service;
pub mod types;
pub mod vault;
