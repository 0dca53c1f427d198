use vstd::prelude::*;
use vstd::bytes::spec_u64_to_le_bytes;
use vstd::slice::slice_to_vec;

use crate::attest::{
    attest_value, generate_signing_key, pkcs8_parses, pub_of, sig_of, signing_public_key,
};
use crate::b64::{b64_encode, b64_of};
use crate::codec::{
    decode, encode, parse_label, spec_encode, spec_label, CiphertextEnvelope, EnvelopeModel,
    SemanticType, HEADER_LEN,
};
use crate::errors::{DecodeError, ServiceError};
use crate::types::{
    ComputeRequest, ComputeResponse, DecryptRequest, DecryptResponse, EncryptRequest,
    EncryptResponse, KeyGenRequest, KeyResponse,
};
use crate::vault::{KeyRecord, KeyRecordModel, KeyVault};

verus! {

/// The deployment's trust-model configuration, fixed at startup. The
/// observed variants differ in which key artifacts a provisioning call
/// exports and whether encryption runs with zero-knowledge proofs; both
/// are intentional, documented choices, not defaults to hard-wire.
#[derive(Clone, Copy, PartialEq, Eq, Structural, Debug)]
pub struct ServiceConfig {
    /// Whether the provisioning response carries the tenant's operational
    /// key (it is public-safe, but large).
    pub export_operational_key: bool,
    /// Whether the provisioning response carries the tenant's decryption
    /// key. In the privacy-preserving configuration this is off, and the
    /// decryption key never leaves the process.
    pub export_decryption_key: bool,
    /// Whether the encrypt path must generate and check a zero-knowledge
    /// proof of correct encryption.
    pub verified_encryption: bool,
}

/// The whole service's in-memory state: the per-tenant key vault, the
/// next free key-generation number, and the process-wide signing key
/// (a PKCS#8 Ed25519 document, generated once at startup and never
/// exported). The surrounding runtime wraps this in its locks; every
/// operation here is a whole, atomic step of the state.
///
/// Requests for one tenant are not ordered across concurrent calls: when
/// two provisioning calls race, the last write wins, and a concurrent
/// aggregation or decryption observes either the old or the new key
/// material, whole — never a half-written record. All state lives in
/// process memory and is lost on teardown; there is no revocation
/// operation.
pub struct ServiceState {
    pub vault: KeyVault,
    pub next_generation: u64,
    pub signing_key: Vec<u8>,
    pub config: ServiceConfig,
}

impl ServiceState {
    /// The state's invariant: the vault maps each tenant to one record,
    /// every stored generation number is below the next free one, and no
    /// two tenants share a generation number.
    pub open spec fn wf(&self) -> bool {
        &&& self.vault.wf()
        &&& self.vault.generations_below(self.next_generation)
        &&& self.vault.generations_unique()
    }

    /// Start the service under the given configuration: an empty vault
    /// and a fresh signing key. `None` only if the system's random source
    /// fails to produce a key.
    pub fn new(config: ServiceConfig) -> (r: Option<ServiceState>)
        ensures
            r is Some ==> r->Some_0.wf() && r->Some_0.vault@ == Map::<
                Seq<char>,
                KeyRecordModel,
            >::empty() && r->Some_0.next_generation == 0 && pkcs8_parses(r->Some_0.signing_key@)
                && r->Some_0.config == config,
    {
        match generate_signing_key() {
            Some(signing_key) => Some(
                ServiceState { vault: KeyVault::new(), next_generation: 0, signing_key, config },
            ),
            None => None,
        }
    }

    /// The public half of the service's signing key, for third parties
    /// that check attestations. `None` only if the stored document does
    /// not parse, which a document from `new` always does.
    pub fn public_signing_key(&self) -> (r: Option<Vec<u8>>)
        ensures
            r is Some <==> pkcs8_parses(self.signing_key@),
            r is Some ==> r->Some_0@ == pub_of(self.signing_key@),
    {
        signing_public_key(self.signing_key.as_slice())
    }

    /// File freshly generated key material under the request's tenant
    /// handle, replacing whatever the tenant had (last write wins), and
    /// return the exported artifacts in transport encoding. The response
    /// always carries the encryption key; the operational key and the
    /// decryption key appear exactly when the configuration exports
    /// them, so in the privacy-preserving configuration the decryption
    /// key never leaves the process. The new record is bound to a
    /// generation number no earlier material ever carried, so
    /// ciphertexts of the replaced material no longer open under the new
    /// record.
    pub fn provision(
        &mut self,
        req: KeyGenRequest,
        client_key: Vec<u8>,
        public_key: Vec<u8>,
        server_key: Vec<u8>,
    ) -> (r: ProvisionOutcome)
        requires
            old(self).wf(),
            old(self).next_generation < u64::MAX,
        ensures
            final(self).wf(),
            final(self).signing_key == old(self).signing_key,
            final(self).config == old(self).config,
            final(self).next_generation == old(self).next_generation + 1,
            final(self).vault@ == old(self).vault@.insert(
                req.public_key@,
                KeyRecordModel {
                    generation: old(self).next_generation,
                    client_key: client_key@,
                    public_key: public_key@,
                    server_key: server_key@,
                },
            ),
            forall|k: Seq<char>|
                old(self).vault@.dom().contains(k) ==> (#[trigger] old(self).vault@[k]).generation
                    != old(self).next_generation,
            r.response.fhe_public_key@ == b64_of(public_key@),
            r.response.server_key@ == if old(self).config.export_operational_key {
                b64_of(server_key@)
            } else {
                Seq::<char>::empty()
            },
            match r.decryption_key {
                Some(s) => old(self).config.export_decryption_key && s@ == b64_of(client_key@),
                None => !old(self).config.export_decryption_key,
            },
    {
        let server_key_wire = if self.config.export_operational_key {
            b64_encode(server_key.as_slice())
        } else {
            String::new()
        };
        let decryption_key = if self.config.export_decryption_key {
            Some(b64_encode(client_key.as_slice()))
        } else {
            None
        };
        let resp = ProvisionOutcome {
            response: KeyResponse {
                fhe_public_key: b64_encode(public_key.as_slice()),
                server_key: server_key_wire,
            },
            decryption_key,
        };
        let generation = self.next_generation;
        let record = KeyRecord { generation, client_key, public_key, server_key };
        self.vault.store(req.public_key, record);
        self.next_generation = self.next_generation + 1;
        proof {
            let t = req.public_key@;
            let m0 = old(self).vault@;
            let m1 = self.vault@;
            assert forall|k: Seq<char>| m1.dom().contains(k) implies (#[trigger] m1[k]).generation
                < self.next_generation by {
                if k != t {
                    assert(m0.dom().contains(k) && m1[k] == m0[k]);
                }
            }
            assert forall|k1: Seq<char>, k2: Seq<char>|
                m1.dom().contains(k1) && m1.dom().contains(k2) && k1 != k2 implies (
            #[trigger] m1[k1]).generation != (#[trigger] m1[k2]).generation by {
                if k1 != t && k2 != t {
                    assert(m1[k1] == m0[k1] && m1[k2] == m0[k2]);
                } else if k1 == t {
                    assert(m1[k2] == m0[k2] && m0[k2].generation < old(self).next_generation);
                } else {
                    assert(m1[k1] == m0[k1] && m0[k1].generation < old(self).next_generation);
                }
            }
        }
        resp
    }

    /// Read-only fetch of a tenant's exportable encryption key. The
    /// response carries no operational key; an unknown tenant handle is
    /// `NotFound`, never a crash.
    pub fn get_public_key(&self, req: &KeyGenRequest) -> (r: Result<KeyResponse, ServiceError>)
        requires
            self.wf(),
        ensures
            match r {
                Ok(resp) => self.vault@.dom().contains(req.public_key@) && resp.fhe_public_key@
                    == b64_of(self.vault@[req.public_key@].public_key) && resp.server_key@
                    == Seq::<char>::empty(),
                Err(e) => e == ServiceError::NotFound && !self.vault@.dom().contains(
                    req.public_key@,
                ),
            },
    {
        match self.vault.lookup(&req.public_key) {
            Some(record) => Ok(
                KeyResponse {
                    fhe_public_key: b64_encode(record.public_key.as_slice()),
                    server_key: String::new(),
                },
            ),
            None => Err(ServiceError::NotFound),
        }
    }

    /// First half of an encrypt call: resolve the tenant's encryption
    /// context. The engine then encrypts `value` under `client_key`, and
    /// `seal_ciphertext` binds the resulting payload into an envelope.
    pub fn encrypt_open(&self, req: &EncryptRequest) -> (r: Result<EncryptJob, ServiceError>)
        requires
            self.wf(),
        ensures
            match r {
                Ok(job) => {
                    &&& self.vault@.dom().contains(req.public_key@)
                    &&& spec_label(req.data_type@) == Some(job.stype)
                    &&& job.key_gen == self.vault@[req.public_key@].generation
                    &&& job.client_key@ == self.vault@[req.public_key@].client_key
                    &&& job.public_key@ == self.vault@[req.public_key@].public_key
                    &&& job.value == req.value as u64
                    &&& job.verified == self.config.verified_encryption
                },
                Err(ServiceError::NotFound) => !self.vault@.dom().contains(req.public_key@),
                Err(ServiceError::Malformed) => self.vault@.dom().contains(req.public_key@)
                    && spec_label(req.data_type@) is None,
                Err(_) => false,
            },
    {
        let record = match self.vault.lookup(&req.public_key) {
            Some(record) => record,
            None => {
                return Err(ServiceError::NotFound);
            },
        };
        let stype = match parse_label(&req.data_type) {
            Some(stype) => stype,
            None => {
                return Err(ServiceError::Malformed);
            },
        };
        Ok(
            EncryptJob {
                stype,
                key_gen: record.generation,
                client_key: slice_to_vec(record.client_key.as_slice()),
                public_key: slice_to_vec(record.public_key.as_slice()),
                value: req.value as u64,
                verified: self.config.verified_encryption,
            },
        )
    }

    /// Bind an engine-produced ciphertext payload to the tenant's current
    /// key generation and the given semantic type, and encode it for the
    /// wire. Both the encrypt and the aggregate path seal their result
    /// through here, so every wire string the service hands out carries
    /// the binding tag of exactly one tenant record.
    pub fn seal_ciphertext(&self, tenant: &String, stype: SemanticType, payload: Vec<u8>) -> (r:
        Result<String, ServiceError>)
        requires
            self.wf(),
            payload@.len() + HEADER_LEN <= usize::MAX,
        ensures
            match r {
                Ok(w) => {
                    &&& self.vault@.dom().contains(tenant@)
                    &&& w@ == spec_encode(
                        EnvelopeModel {
                            stype,
                            key_gen: self.vault@[tenant@].generation,
                            payload: payload@,
                        },
                    )
                    &&& forall|e: EnvelopeModel| w@ == #[trigger] spec_encode(e) ==> e
                        == EnvelopeModel {
                        stype,
                        key_gen: self.vault@[tenant@].generation,
                        payload: payload@,
                    }
                },
                Err(e) => e == ServiceError::NotFound && !self.vault@.dom().contains(tenant@),
            },
    {
        let record = match self.vault.lookup(tenant) {
            Some(record) => record,
            None => {
                return Err(ServiceError::NotFound);
            },
        };
        let env = CiphertextEnvelope { stype, key_gen: record.generation, payload };
        Ok(encode(&env))
    }

    /// Tail of an encrypt call: seal the engine's ciphertext payload for
    /// the tenant and wrap it as the encrypt response.
    pub fn encrypt_seal(&self, tenant: &String, stype: SemanticType, payload: Vec<u8>) -> (r:
        Result<EncryptResponse, ServiceError>)
        requires
            self.wf(),
            payload@.len() + HEADER_LEN <= usize::MAX,
        ensures
            match r {
                Ok(resp) => self.vault@.dom().contains(tenant@) && resp.encrypted_value@
                    == spec_encode(
                    EnvelopeModel {
                        stype,
                        key_gen: self.vault@[tenant@].generation,
                        payload: payload@,
                    },
                ),
                Err(e) => e == ServiceError::NotFound && !self.vault@.dom().contains(tenant@),
            },
    {
        match self.seal_ciphertext(tenant, stype, payload) {
            Ok(encrypted_value) => Ok(EncryptResponse { encrypted_value }),
            Err(e) => Err(e),
        }
    }

    /// Tail of an aggregation call: seal the combined ciphertext for the
    /// tenant and wrap it as the compute response.
    pub fn aggregate_seal(&self, tenant: &String, stype: SemanticType, payload: Vec<u8>) -> (r:
        Result<ComputeResponse, ServiceError>)
        requires
            self.wf(),
            payload@.len() + HEADER_LEN <= usize::MAX,
        ensures
            match r {
                Ok(resp) => self.vault@.dom().contains(tenant@) && resp.result@ == spec_encode(
                    EnvelopeModel {
                        stype,
                        key_gen: self.vault@[tenant@].generation,
                        payload: payload@,
                    },
                ),
                Err(e) => e == ServiceError::NotFound && !self.vault@.dom().contains(tenant@),
            },
    {
        match self.seal_ciphertext(tenant, stype, payload) {
            Ok(result) => Ok(ComputeResponse { result }),
            Err(e) => Err(e),
        }
    }

    /// First half of a decrypt call: resolve the tenant's decryption
    /// context and open the submitted envelope. The envelope must carry
    /// the expected semantic type and the tenant's current key
    /// generation; one sealed under replaced key material or another
    /// tenant's record is rejected, never silently decrypted.
    pub fn decrypt_open(&self, req: &DecryptRequest) -> (r: Result<DecryptJob, ServiceError>)
        requires
            self.wf(),
        ensures
            match r {
                Ok(job) => {
                    &&& self.vault@.dom().contains(req.public_key@)
                    &&& spec_label(req.data_type@) == Some(job.stype)
                    &&& job.key_gen == self.vault@[req.public_key@].generation
                    &&& job.client_key@ == self.vault@[req.public_key@].client_key
                    &&& req.encrypted_value@ == spec_encode(
                        EnvelopeModel {
                            stype: job.stype,
                            key_gen: job.key_gen,
                            payload: job.payload@,
                        },
                    )
                },
                Err(ServiceError::NotFound) => !self.vault@.dom().contains(req.public_key@),
                Err(ServiceError::Malformed) => self.vault@.dom().contains(req.public_key@) && (
                spec_label(req.data_type@) is None || !entry_decodes(req.encrypted_value@)),
                Err(ServiceError::TypeMismatch) => {
                    &&& self.vault@.dom().contains(req.public_key@)
                    &&& spec_label(req.data_type@) is Some
                    &&& entry_decodes(req.encrypted_value@)
                    &&& !entry_ok(
                        req.encrypted_value@,
                        spec_label(req.data_type@)->Some_0,
                        self.vault@[req.public_key@].generation,
                    )
                },
                Err(_) => false,
            },
    {
        let record = match self.vault.lookup(&req.public_key) {
            Some(record) => record,
            None => {
                return Err(ServiceError::NotFound);
            },
        };
        let stype = match parse_label(&req.data_type) {
            Some(stype) => stype,
            None => {
                return Err(ServiceError::Malformed);
            },
        };
        let ghost g = record@.generation;
        match decode(req.encrypted_value.as_str(), stype) {
            Ok(env) => {
                if env.key_gen == record.generation {
                    Ok(
                        DecryptJob {
                            stype,
                            key_gen: env.key_gen,
                            client_key: slice_to_vec(record.client_key.as_slice()),
                            payload: env.payload,
                        },
                    )
                } else {
                    proof {
                        assert(entry_decodes(req.encrypted_value@));
                        assert(!entry_ok(req.encrypted_value@, stype, g));
                    }
                    Err(ServiceError::TypeMismatch)
                }
            },
            Err(DecodeError::Malformed) => {
                proof {
                    assert(!entry_decodes(req.encrypted_value@));
                }
                Err(ServiceError::Malformed)
            },
            Err(DecodeError::TypeMismatch) => {
                proof {
                    assert(entry_decodes(req.encrypted_value@));
                    assert(!entry_ok(req.encrypted_value@, stype, g));
                }
                Err(ServiceError::TypeMismatch)
            },
        }
    }
}

/// What a provisioning call hands back: the wire response, and the
/// decryption key only when the configuration exports it.
#[derive(Debug)]
pub struct ProvisionOutcome {
    pub response: KeyResponse,
    /// Transport-encoded decryption key; `Some` exactly in the
    /// export-decryption-key configuration.
    pub decryption_key: Option<String>,
}

/// Everything the engine needs to encrypt one plaintext for one tenant.
#[derive(Debug)]
pub struct EncryptJob {
    /// The semantic type the ciphertext will be bound to.
    pub stype: SemanticType,
    /// The key generation the sealed envelope will carry.
    pub key_gen: u64,
    /// The tenant's encryption-capable key material (serialized).
    pub client_key: Vec<u8>,
    /// The tenant's exportable public key (serialized, compressed); the
    /// proof-bearing encryption path encrypts against it.
    pub public_key: Vec<u8>,
    /// The plaintext, widened to the engine's canonical width.
    pub value: u64,
    /// Whether the engine must generate and check a zero-knowledge proof
    /// of correct encryption (the configuration's verified-encryption
    /// mode).
    pub verified: bool,
}

/// Everything the engine needs to decrypt one opened envelope.
#[derive(Debug)]
pub struct DecryptJob {
    pub stype: SemanticType,
    /// The key generation the envelope was bound to; equal to the
    /// tenant's current generation, or the envelope would not have
    /// opened.
    pub key_gen: u64,
    /// The tenant's decryption key (serialized); it never leaves the
    /// process.
    pub client_key: Vec<u8>,
    /// The opaque ciphertext payload.
    pub payload: Vec<u8>,
}

/// Everything one aggregation needs from the service state: the
/// operational key to activate and the opened payloads to fold. This is
/// the context token of the session context switch: activating
/// `server_key` and folding `payloads` must happen as one critical
/// section, with no other activation interleaved, and verified
/// construction guarantees that key and payloads belong to the same
/// tenant record.
#[derive(Debug)]
pub struct AggregationJob {
    pub stype: SemanticType,
    /// The key generation every opened payload was bound to.
    pub key_gen: u64,
    /// The tenant's operational key (serialized, compressed).
    pub server_key: Vec<u8>,
    /// The opaque ciphertext payloads, in request order.
    pub payloads: Vec<Vec<u8>>,
}

/// The wire string is the encoding of some envelope.
pub open spec fn entry_decodes(w: Seq<char>) -> bool {
    exists|e: EnvelopeModel| w == #[trigger] spec_encode(e)
}

/// The wire string is the encoding of an envelope bound to this semantic
/// type and key generation: exactly the strings an operation under that
/// binding accepts.
pub open spec fn entry_ok(w: Seq<char>, st: SemanticType, g: u64) -> bool {
    exists|e: EnvelopeModel|
        w == #[trigger] spec_encode(e) && e.stype == st && e.key_gen == g
}

/// All wire strings before index `i` open under the given binding.
pub open spec fn prefix_ok(ws: Seq<String>, st: SemanticType, g: u64, i: int) -> bool {
    forall|j: int| 0 <= j < i ==> entry_ok((#[trigger] ws[j])@, st, g)
}

impl ServiceState {
    /// First half of an aggregation call: resolve the tenant's
    /// operational context and open every submitted envelope under it.
    /// The sequence must be non-empty, and every envelope must carry the
    /// expected semantic type and the tenant's current key generation;
    /// the first entry that does not aborts the whole request.
    pub fn aggregate_open(&self, req: &ComputeRequest) -> (r: Result<AggregationJob, ServiceError>)
        requires
            self.wf(),
        ensures
            match r {
                Ok(job) => {
                    &&& self.vault@.dom().contains(req.public_key@)
                    &&& spec_label(req.data_type@) == Some(job.stype)
                    &&& job.key_gen == self.vault@[req.public_key@].generation
                    &&& job.server_key@ == self.vault@[req.public_key@].server_key
                    &&& req.encrypted_values@.len() > 0
                    &&& job.payloads@.len() == req.encrypted_values@.len()
                    &&& forall|i: int|
                        0 <= i < job.payloads@.len() ==> req.encrypted_values@[i]@ == spec_encode(
                            EnvelopeModel {
                                stype: job.stype,
                                key_gen: job.key_gen,
                                payload: (#[trigger] job.payloads@[i])@,
                            },
                        )
                },
                Err(ServiceError::NotFound) => !self.vault@.dom().contains(req.public_key@),
                Err(ServiceError::Malformed) => self.vault@.dom().contains(req.public_key@) && (
                spec_label(req.data_type@) is None || (exists|i: int|
                    0 <= i < req.encrypted_values@.len() && !entry_decodes(
                        (#[trigger] req.encrypted_values@[i])@,
                    ) && prefix_ok(
                        req.encrypted_values@,
                        spec_label(req.data_type@)->Some_0,
                        self.vault@[req.public_key@].generation,
                        i,
                    ))),
                Err(ServiceError::EmptyInput) => {
                    &&& self.vault@.dom().contains(req.public_key@)
                    &&& spec_label(req.data_type@) is Some
                    &&& req.encrypted_values@.len() == 0
                },
                Err(ServiceError::TypeMismatch) => self.vault@.dom().contains(req.public_key@)
                    && spec_label(req.data_type@) is Some && (exists|i: int|
                    0 <= i < req.encrypted_values@.len() && entry_decodes(
                        (#[trigger] req.encrypted_values@[i])@,
                    ) && !entry_ok(
                        req.encrypted_values@[i]@,
                        spec_label(req.data_type@)->Some_0,
                        self.vault@[req.public_key@].generation,
                    ) && prefix_ok(
                        req.encrypted_values@,
                        spec_label(req.data_type@)->Some_0,
                        self.vault@[req.public_key@].generation,
                        i,
                    )),
                Err(_) => false,
            },
    {
        let record = match self.vault.lookup(&req.public_key) {
            Some(record) => record,
            None => {
                return Err(ServiceError::NotFound);
            },
        };
        let stype = match parse_label(&req.data_type) {
            Some(stype) => stype,
            None => {
                return Err(ServiceError::Malformed);
            },
        };
        let generation = record.generation;
        let n = req.encrypted_values.len();
        if n == 0 {
            return Err(ServiceError::EmptyInput);
        }
        let ghost ws = req.encrypted_values@;
        let mut payloads: Vec<Vec<u8>> = Vec::new();
        let mut i: usize = 0;
        while i < n
            invariant
                self.wf(),
                self.vault@.dom().contains(req.public_key@),
                spec_label(req.data_type@) == Some(stype),
                record@ == self.vault@[req.public_key@],
                n == ws.len(),
                ws == req.encrypted_values@,
                n > 0,
                i <= n,
                payloads@.len() == i,
                generation == self.vault@[req.public_key@].generation,
                prefix_ok(ws, stype, generation, i as int),
                forall|k: int|
                    0 <= k < i ==> ws[k]@ == spec_encode(
                        EnvelopeModel {
                            stype,
                            key_gen: generation,
                            payload: (#[trigger] payloads@[k])@,
                        },
                    ),
            decreases n - i,
        {
            match decode(req.encrypted_values[i].as_str(), stype) {
                Ok(env) => {
                    if env.key_gen == generation {
                        proof {
                            assert(entry_ok(ws[i as int]@, stype, generation));
                        }
                        payloads.push(env.payload);
                        i = i + 1;
                    } else {
                        proof {
                            assert(entry_decodes(ws[i as int]@));
                            assert(!entry_ok(ws[i as int]@, stype, generation));
                        }
                        return Err(ServiceError::TypeMismatch);
                    }
                },
                Err(DecodeError::Malformed) => {
                    proof {
                        assert(!entry_decodes(ws[i as int]@));
                    }
                    return Err(ServiceError::Malformed);
                },
                Err(DecodeError::TypeMismatch) => {
                    proof {
                        assert(entry_decodes(ws[i as int]@));
                        assert(!entry_ok(ws[i as int]@, stype, generation));
                    }
                    return Err(ServiceError::TypeMismatch);
                },
            }
        }
        Ok(
            AggregationJob {
                stype,
                key_gen: generation,
                server_key: slice_to_vec(record.server_key.as_slice()),
                payloads,
            },
        )
    }

    /// Final half of a decrypt call: wrap the engine's raw plaintext to
    /// the semantic type's range and sign its canonical eight-byte
    /// little-endian encoding under the service signing key. The
    /// response reports exactly the value the signature covers. Fails
    /// exactly when the stored signing-key document does not parse,
    /// which one from `new` never does.
    pub fn attest_decrypted(&self, stype: SemanticType, raw: u64) -> (r: Result<
        DecryptResponse,
        ServiceError,
    >)
        ensures
            r is Ok <==> pkcs8_parses(self.signing_key@),
            match r {
                Ok(resp) => resp.value as int == raw as int % stype.spec_modulus()
                    && resp.signature@ == b64_of(
                    sig_of(self.signing_key@, spec_u64_to_le_bytes(resp.value)),
                ),
                Err(e) => e == ServiceError::EngineFailure,
            },
    {
        let value = match stype {
            SemanticType::Uint8 => raw % 256,
            SemanticType::Uint64 => raw,
        };
        match attest_value(self.signing_key.as_slice(), value) {
            Some(att) => Ok(
                DecryptResponse {
                    value: att.value,
                    signature: b64_encode(att.signature.as_slice()),
                },
            ),
            None => Err(ServiceError::EngineFailure),
        }
    }
}

/// A wire string stays bound to the key generation it was sealed with:
/// under any other generation it does not open, whatever semantic type is
/// expected. The hypotheses are exactly what `seal_ciphertext` and
/// `encode` ensure of a wire string they produced.
pub proof fn lemma_generation_binding(w: Seq<char>, e: EnvelopeModel, st: SemanticType, g: u64)
    requires
        w == spec_encode(e),
        forall|e2: EnvelopeModel| w == #[trigger] spec_encode(e2) ==> e2 == e,
        e.key_gen != g,
    ensures
        !entry_ok(w, st, g),
{
    if entry_ok(w, st, g) {
        let e2 = choose|e2: EnvelopeModel|
            w == #[trigger] spec_encode(e2) && e2.stype == st && e2.key_gen == g;
        assert(e2 == e);
    }
}

/// Tenant isolation: a ciphertext sealed under one tenant's current key
/// generation never opens under another provisioned tenant, because
/// distinct tenants never share a generation number.
pub proof fn lemma_tenant_isolation(
    s: ServiceState,
    a: Seq<char>,
    b: Seq<char>,
    e: EnvelopeModel,
    w: Seq<char>,
    st: SemanticType,
)
    requires
        s.wf(),
        s.vault@.dom().contains(a),
        s.vault@.dom().contains(b),
        a != b,
        e.key_gen == s.vault@[a].generation,
        w == spec_encode(e),
        forall|e2: EnvelopeModel| w == #[trigger] spec_encode(e2) ==> e2 == e,
    ensures
        !entry_ok(w, st, s.vault@[b].generation),
{
    assert(s.vault@[a].generation != s.vault@[b].generation);
    lemma_generation_binding(w, e, st, s.vault@[b].generation);
}

/// Overwrite semantics: an envelope bound to a tenant's current key
/// generation no longer opens once the tenant is provisioned again,
/// because every later provisioning call hands out a generation at or
/// above the state's next free number, and everything stored lies below
/// it.
pub proof fn lemma_overwrite_invalidates(
    s: ServiceState,
    t: Seq<char>,
    e: EnvelopeModel,
    w: Seq<char>,
    st: SemanticType,
    g_new: u64,
)
    requires
        s.wf(),
        s.vault@.dom().contains(t),
        e.key_gen == s.vault@[t].generation,
        w == spec_encode(e),
        forall|e2: EnvelopeModel| w == #[trigger] spec_encode(e2) ==> e2 == e,
        g_new >= s.next_generation,
    ensures
        !entry_ok(w, st, g_new),
{
    assert(s.vault@[t].generation < s.next_generation);
    lemma_generation_binding(w, e, st, g_new);
}

} // verus!
