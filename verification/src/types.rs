use vstd::prelude::*;

verus! {

/// Body of a key-provisioning or public-key-fetch call. `public_key` is
/// the caller-chosen tenant handle under which key material is filed.
pub struct KeyGenRequest {
    pub public_key: String,
}

/// Body of an encrypt call: tenant handle, semantic type label and the
/// plaintext value to encrypt.
pub struct EncryptRequest {
    pub public_key: String,
    pub data_type: String,
    pub value: u8,
}

/// Body of an aggregation call: tenant handle, a caller-side task
/// identifier (echoed through, never interpreted), semantic type label,
/// and the ordered ciphertext wire strings to combine.
pub struct ComputeRequest {
    pub public_key: String,
    pub task_id: String,
    pub data_type: String,
    pub encrypted_values: Vec<String>,
}

/// Body of a decrypt-and-attest call.
pub struct DecryptRequest {
    pub public_key: String,
    pub data_type: String,
    pub encrypted_value: String,
}

/// Response to provisioning or a public-key fetch: the exportable key
/// artifacts in transport encoding. The secret decryption key is never
/// among them.
#[derive(Debug)]
pub struct KeyResponse {
    pub fhe_public_key: String,
    pub server_key: String,
}

/// Response to an encrypt call: the ciphertext envelope's wire string.
#[derive(Debug)]
pub struct EncryptResponse {
    pub encrypted_value: String,
}

/// Response to an aggregation call: the combined ciphertext's wire string.
#[derive(Debug)]
pub struct ComputeResponse {
    pub result: String,
}

/// Response to a decrypt-and-attest call: the recovered plaintext value
/// and the transport-encoded signature over its canonical encoding. The
/// field is wide enough for either semantic type, so the signed value
/// and the reported value are always the same.
#[derive(Debug)]
pub struct DecryptResponse {
    pub value: u64,
    pub signature: String,
}

} // verus!
