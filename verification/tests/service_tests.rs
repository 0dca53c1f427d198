use base64::Engine;

use fhe_service::agg::wrapping_sum;
use fhe_service::attest::verify_attested_value;
use fhe_service::codec::{decode, encode, parse_label, CiphertextEnvelope, SemanticType};
use fhe_service::errors::{DecodeError, ServiceError};
use fhe_service::service::{ServiceConfig, ServiceState};
use fhe_service::types::{ComputeRequest, DecryptRequest, EncryptRequest, KeyGenRequest};

fn private_config() -> ServiceConfig {
    ServiceConfig {
        export_operational_key: true,
        export_decryption_key: false,
        verified_encryption: false,
    }
}

fn fresh_state() -> ServiceState {
    ServiceState::new(private_config()).expect("signing key generation")
}

fn provisioned(tenant: &str, tag: u8) -> ServiceState {
    let mut state = fresh_state();
    state.provision(
        KeyGenRequest { public_key: tenant.to_string() },
        vec![tag, 1, 1],
        vec![tag, 2, 2],
        vec![tag, 3, 3],
    );
    state
}

#[test]
fn codec_round_trip() {
    let env = CiphertextEnvelope { stype: SemanticType::Uint8, key_gen: 7, payload: vec![9, 8, 7, 6] };
    let wire = encode(&env);
    let back = decode(wire.as_str(), SemanticType::Uint8).expect("round trip");
    assert!(matches!(back.stype, SemanticType::Uint8));
    assert_eq!(back.key_gen, 7);
    assert_eq!(back.payload, vec![9, 8, 7, 6]);
}

#[test]
fn codec_round_trip_uint64() {
    let env = CiphertextEnvelope { stype: SemanticType::Uint64, key_gen: u64::MAX, payload: vec![] };
    let wire = encode(&env);
    let back = decode(wire.as_str(), SemanticType::Uint64).expect("round trip");
    assert!(matches!(back.stype, SemanticType::Uint64));
    assert_eq!(back.key_gen, u64::MAX);
    assert_eq!(back.payload, Vec::<u8>::new());
}

#[test]
fn wire_format_is_versioned_frame() {
    let env = CiphertextEnvelope { stype: SemanticType::Uint8, key_gen: 5, payload: vec![0xAB] };
    let wire = encode(&env);
    let mut frame = vec![1u8, 1];
    frame.extend_from_slice(&5u64.to_le_bytes());
    frame.push(0xAB);
    assert_eq!(wire, base64::engine::general_purpose::STANDARD.encode(&frame));
}

#[test]
fn aggregate_with_unknown_label_is_malformed() {
    let state = provisioned("alice", 1);
    let r = state.aggregate_open(&ComputeRequest {
        public_key: "alice".to_string(),
        task_id: "t1".to_string(),
        data_type: "int32".to_string(),
        encrypted_values: vec!["AAAA".to_string()],
    });
    assert_eq!(r.unwrap_err(), ServiceError::Malformed);
}

#[test]
fn decrypt_with_unknown_label_is_malformed() {
    let state = provisioned("alice", 1);
    let r = state.decrypt_open(&DecryptRequest {
        public_key: "alice".to_string(),
        data_type: "text".to_string(),
        encrypted_value: "AAAA".to_string(),
    });
    assert_eq!(r.unwrap_err(), ServiceError::Malformed);
}

#[test]
fn decode_rejects_bad_transport_encoding() {
    let r = decode("@@@not-base64@@@", SemanticType::Uint8);
    assert_eq!(r.unwrap_err(), DecodeError::Malformed);
}

#[test]
fn decode_rejects_short_frame() {
    let wire = base64::engine::general_purpose::STANDARD.encode([1u8, 2]);
    let r = decode(wire.as_str(), SemanticType::Uint8);
    assert_eq!(r.unwrap_err(), DecodeError::Malformed);
}

#[test]
fn decode_rejects_unknown_version_and_tag() {
    let mut frame = vec![9u8, 1];
    frame.extend_from_slice(&[0u8; 8]);
    let wire = base64::engine::general_purpose::STANDARD.encode(&frame);
    assert_eq!(decode(wire.as_str(), SemanticType::Uint8).unwrap_err(), DecodeError::Malformed);

    let mut frame = vec![1u8, 9];
    frame.extend_from_slice(&[0u8; 8]);
    let wire = base64::engine::general_purpose::STANDARD.encode(&frame);
    assert_eq!(decode(wire.as_str(), SemanticType::Uint8).unwrap_err(), DecodeError::Malformed);
}

#[test]
fn decode_rejects_type_mismatch() {
    let env = CiphertextEnvelope { stype: SemanticType::Uint8, key_gen: 3, payload: vec![5] };
    let wire = encode(&env);
    let r = decode(wire.as_str(), SemanticType::Uint64);
    assert_eq!(r.unwrap_err(), DecodeError::TypeMismatch);
}

#[test]
fn parse_label_known_and_unknown() {
    assert!(matches!(parse_label(&"uint8".to_string()), Some(SemanticType::Uint8)));
    assert!(matches!(parse_label(&"uint64".to_string()), Some(SemanticType::Uint64)));
    assert!(parse_label(&"float32".to_string()).is_none());
    assert!(parse_label(&"".to_string()).is_none());
}

#[test]
fn provision_reports_transport_encoded_artifacts() {
    let mut state = fresh_state();
    let outcome = state.provision(
        KeyGenRequest { public_key: "alice".to_string() },
        vec![1, 2, 3],
        vec![4, 5, 6],
        vec![7, 8, 9],
    );
    let engine = base64::engine::general_purpose::STANDARD;
    assert_eq!(outcome.response.fhe_public_key, engine.encode([4u8, 5, 6]));
    assert_eq!(outcome.response.server_key, engine.encode([7u8, 8, 9]));
    assert!(outcome.decryption_key.is_none());
}

#[test]
fn provision_export_modes_govern_the_artifacts() {
    let engine = base64::engine::general_purpose::STANDARD;

    let exporting = ServiceConfig {
        export_operational_key: true,
        export_decryption_key: true,
        verified_encryption: false,
    };
    let mut state = ServiceState::new(exporting).expect("signing key generation");
    let outcome = state.provision(
        KeyGenRequest { public_key: "alice".to_string() },
        vec![1, 2],
        vec![3, 4],
        vec![5, 6],
    );
    assert_eq!(outcome.response.fhe_public_key, engine.encode([3u8, 4]));
    assert_eq!(outcome.response.server_key, engine.encode([5u8, 6]));
    assert_eq!(outcome.decryption_key, Some(engine.encode([1u8, 2])));

    let minimal = ServiceConfig {
        export_operational_key: false,
        export_decryption_key: false,
        verified_encryption: false,
    };
    let mut state = ServiceState::new(minimal).expect("signing key generation");
    let outcome = state.provision(
        KeyGenRequest { public_key: "alice".to_string() },
        vec![1, 2],
        vec![3, 4],
        vec![5, 6],
    );
    assert_eq!(outcome.response.fhe_public_key, engine.encode([3u8, 4]));
    assert_eq!(outcome.response.server_key, "");
    assert!(outcome.decryption_key.is_none());
}

#[test]
fn encrypt_open_carries_the_verified_encryption_mode() {
    let proving = ServiceConfig {
        export_operational_key: true,
        export_decryption_key: false,
        verified_encryption: true,
    };
    let mut state = ServiceState::new(proving).expect("signing key generation");
    state.provision(
        KeyGenRequest { public_key: "alice".to_string() },
        vec![1],
        vec![2, 2],
        vec![3],
    );
    let job = state
        .encrypt_open(&EncryptRequest {
            public_key: "alice".to_string(),
            data_type: "uint64".to_string(),
            value: 9,
        })
        .expect("provisioned tenant");
    assert!(job.verified);
    assert_eq!(job.public_key, vec![2, 2]);

    let quiet = provisioned("bob", 4);
    let job = quiet
        .encrypt_open(&EncryptRequest {
            public_key: "bob".to_string(),
            data_type: "uint64".to_string(),
            value: 9,
        })
        .expect("provisioned tenant");
    assert!(!job.verified);
}

#[test]
fn get_public_key_round_trip_and_not_found() {
    let state = provisioned("alice", 10);
    let resp = state
        .get_public_key(&KeyGenRequest { public_key: "alice".to_string() })
        .expect("provisioned tenant");
    let engine = base64::engine::general_purpose::STANDARD;
    assert_eq!(resp.fhe_public_key, engine.encode([10u8, 2, 2]));
    assert_eq!(resp.server_key, "");

    let missing = state.get_public_key(&KeyGenRequest { public_key: "bob".to_string() });
    assert_eq!(missing.unwrap_err(), ServiceError::NotFound);
}

#[test]
fn encrypt_open_resolves_tenant_context() {
    let state = provisioned("alice", 20);
    let job = state
        .encrypt_open(&EncryptRequest {
            public_key: "alice".to_string(),
            data_type: "uint8".to_string(),
            value: 200,
        })
        .expect("provisioned tenant");
    assert!(matches!(job.stype, SemanticType::Uint8));
    assert_eq!(job.client_key, vec![20, 1, 1]);
    assert_eq!(job.value, 200u64);
}

#[test]
fn encrypt_open_not_found_and_bad_label() {
    let state = provisioned("alice", 20);
    let missing = state.encrypt_open(&EncryptRequest {
        public_key: "bob".to_string(),
        data_type: "uint8".to_string(),
        value: 1,
    });
    assert_eq!(missing.unwrap_err(), ServiceError::NotFound);

    let bad = state.encrypt_open(&EncryptRequest {
        public_key: "alice".to_string(),
        data_type: "int8".to_string(),
        value: 1,
    });
    assert_eq!(bad.unwrap_err(), ServiceError::Malformed);
}

#[test]
fn seal_then_aggregate_opens_in_order() {
    let mut state = fresh_state();
    state.provision(
        KeyGenRequest { public_key: "alice".to_string() },
        vec![1],
        vec![2],
        vec![3, 3],
    );
    let alice = "alice".to_string();
    let w1 = state.seal_ciphertext(&alice, SemanticType::Uint8, vec![11, 11]).unwrap();
    let w2 = state.seal_ciphertext(&alice, SemanticType::Uint8, vec![22]).unwrap();
    let job = state
        .aggregate_open(&ComputeRequest {
            public_key: "alice".to_string(),
            task_id: "t1".to_string(),
            data_type: "uint8".to_string(),
            encrypted_values: vec![w1, w2],
        })
        .expect("all inputs sealed under alice");
    assert_eq!(job.server_key, vec![3, 3]);
    assert_eq!(job.payloads, vec![vec![11, 11], vec![22]]);
}

#[test]
fn encrypt_and_aggregate_seal_wrap_the_same_wire() {
    let state = provisioned("alice", 2);
    let alice = "alice".to_string();
    let wire = state.seal_ciphertext(&alice, SemanticType::Uint8, vec![7, 7]).unwrap();
    let enc = state.encrypt_seal(&alice, SemanticType::Uint8, vec![7, 7]).unwrap();
    let agg = state.aggregate_seal(&alice, SemanticType::Uint8, vec![7, 7]).unwrap();
    assert_eq!(enc.encrypted_value, wire);
    assert_eq!(agg.result, wire);
    let missing = state.encrypt_seal(&"bob".to_string(), SemanticType::Uint8, vec![]);
    assert_eq!(missing.unwrap_err(), ServiceError::NotFound);
}

#[test]
fn aggregate_with_zero_ciphertexts_is_empty_input() {
    let state = provisioned("alice", 1);
    let r = state.aggregate_open(&ComputeRequest {
        public_key: "alice".to_string(),
        task_id: "t1".to_string(),
        data_type: "uint8".to_string(),
        encrypted_values: vec![],
    });
    assert_eq!(r.unwrap_err(), ServiceError::EmptyInput);
}

#[test]
fn aggregate_for_unknown_tenant_is_not_found() {
    let state = fresh_state();
    let r = state.aggregate_open(&ComputeRequest {
        public_key: "nobody".to_string(),
        task_id: "t1".to_string(),
        data_type: "uint8".to_string(),
        encrypted_values: vec!["AAAA".to_string()],
    });
    assert_eq!(r.unwrap_err(), ServiceError::NotFound);
}

#[test]
fn aggregate_rejects_first_malformed_entry() {
    let state = provisioned("alice", 1);
    let alice = "alice".to_string();
    let good = state.seal_ciphertext(&alice, SemanticType::Uint8, vec![1]).unwrap();
    let r = state.aggregate_open(&ComputeRequest {
        public_key: "alice".to_string(),
        task_id: "t1".to_string(),
        data_type: "uint8".to_string(),
        encrypted_values: vec![good, "???".to_string()],
    });
    assert_eq!(r.unwrap_err(), ServiceError::Malformed);
}

#[test]
fn aggregate_rejects_wrong_type_entry() {
    let state = provisioned("alice", 1);
    let alice = "alice".to_string();
    let wrong = state.seal_ciphertext(&alice, SemanticType::Uint64, vec![1]).unwrap();
    let r = state.aggregate_open(&ComputeRequest {
        public_key: "alice".to_string(),
        task_id: "t1".to_string(),
        data_type: "uint8".to_string(),
        encrypted_values: vec![wrong],
    });
    assert_eq!(r.unwrap_err(), ServiceError::TypeMismatch);
}

#[test]
fn isolation_rejects_cross_tenant_ciphertext() {
    let mut state = fresh_state();
    state.provision(KeyGenRequest { public_key: "alice".to_string() }, vec![1], vec![2], vec![3]);
    state.provision(KeyGenRequest { public_key: "bob".to_string() }, vec![4], vec![5], vec![6]);
    let sealed_for_alice = state
        .seal_ciphertext(&"alice".to_string(), SemanticType::Uint8, vec![42])
        .unwrap();
    let r = state.aggregate_open(&ComputeRequest {
        public_key: "bob".to_string(),
        task_id: "t1".to_string(),
        data_type: "uint8".to_string(),
        encrypted_values: vec![sealed_for_alice],
    });
    assert_eq!(r.unwrap_err(), ServiceError::TypeMismatch);
}

#[test]
fn overwrite_invalidates_earlier_ciphertexts() {
    let mut state = fresh_state();
    state.provision(KeyGenRequest { public_key: "alice".to_string() }, vec![1], vec![2], vec![3]);
    let old_wire = state
        .seal_ciphertext(&"alice".to_string(), SemanticType::Uint8, vec![42])
        .unwrap();
    state.provision(KeyGenRequest { public_key: "alice".to_string() }, vec![7], vec![8], vec![9]);
    let r = state.decrypt_open(&DecryptRequest {
        public_key: "alice".to_string(),
        data_type: "uint8".to_string(),
        encrypted_value: old_wire,
    });
    assert_eq!(r.unwrap_err(), ServiceError::TypeMismatch);
}

#[test]
fn decrypt_open_returns_sealed_payload() {
    let state = provisioned("alice", 30);
    let wire = state
        .seal_ciphertext(&"alice".to_string(), SemanticType::Uint64, vec![13, 14])
        .unwrap();
    let job = state
        .decrypt_open(&DecryptRequest {
            public_key: "alice".to_string(),
            data_type: "uint64".to_string(),
            encrypted_value: wire,
        })
        .expect("sealed under current generation");
    assert!(matches!(job.stype, SemanticType::Uint64));
    assert_eq!(job.client_key, vec![30, 1, 1]);
    assert_eq!(job.payload, vec![13, 14]);
}

#[test]
fn decrypt_open_malformed_wire_is_malformed() {
    let state = provisioned("alice", 1);
    let r = state.decrypt_open(&DecryptRequest {
        public_key: "alice".to_string(),
        data_type: "uint8".to_string(),
        encrypted_value: "!!not a ciphertext!!".to_string(),
    });
    assert_eq!(r.unwrap_err(), ServiceError::Malformed);
}

#[test]
fn decrypt_open_unknown_tenant_is_not_found() {
    let state = fresh_state();
    let r = state.decrypt_open(&DecryptRequest {
        public_key: "ghost".to_string(),
        data_type: "uint8".to_string(),
        encrypted_value: "AAAA".to_string(),
    });
    assert_eq!(r.unwrap_err(), ServiceError::NotFound);
}

#[test]
fn attestation_wraps_value_and_verifies() {
    let state = fresh_state();
    let resp = state
        .attest_decrypted(SemanticType::Uint8, 300)
        .expect("fresh signing key");
    let (value, sig_wire) = (resp.value, resp.signature);
    assert_eq!(value, 300 % 256);
    let engine = base64::engine::general_purpose::STANDARD;
    let signature = engine.decode(sig_wire).expect("signature is transport-encoded");
    let public_key = state.public_signing_key().expect("fresh signing key");
    assert!(verify_attested_value(&public_key, value, &signature));
}

#[test]
fn attestation_keeps_wide_values() {
    let state = fresh_state();
    let resp = state
        .attest_decrypted(SemanticType::Uint64, u64::MAX)
        .expect("fresh signing key");
    assert_eq!(resp.value, u64::MAX);
}

#[test]
fn attestation_fails_on_flipped_signature_bit() {
    let state = fresh_state();
    let resp = state
        .attest_decrypted(SemanticType::Uint64, 12345)
        .expect("fresh signing key");
    let (value, sig_wire) = (resp.value, resp.signature);
    let engine = base64::engine::general_purpose::STANDARD;
    let mut signature = engine.decode(sig_wire).expect("signature is transport-encoded");
    let public_key = state.public_signing_key().expect("fresh signing key");
    assert!(verify_attested_value(&public_key, value, &signature));
    for i in 0..signature.len() {
        signature[i] ^= 1;
        assert!(!verify_attested_value(&public_key, value, &signature));
        signature[i] ^= 1;
    }
}

#[test]
fn attestation_fails_on_wrong_value() {
    let state = fresh_state();
    let resp = state
        .attest_decrypted(SemanticType::Uint64, 77)
        .expect("fresh signing key");
    let (value, sig_wire) = (resp.value, resp.signature);
    let engine = base64::engine::general_purpose::STANDARD;
    let signature = engine.decode(sig_wire).expect("signature is transport-encoded");
    let public_key = state.public_signing_key().expect("fresh signing key");
    assert!(!verify_attested_value(&public_key, value + 1, &signature));
}

#[test]
fn wrapping_sum_wraps_at_type_width() {
    assert_eq!(wrapping_sum(&vec![200, 100], SemanticType::Uint8), 44);
    assert_eq!(wrapping_sum(&vec![], SemanticType::Uint8), 0);
    assert_eq!(wrapping_sum(&vec![u64::MAX, 1], SemanticType::Uint64), 0);
    assert_eq!(wrapping_sum(&vec![u64::MAX, 2, 5], SemanticType::Uint64), 6);
}

#[test]
fn wrapping_sum_is_order_independent() {
    let a = vec![250u64, 7, 123, 99, 1];
    let b = vec![1u64, 99, 123, 7, 250];
    assert_eq!(wrapping_sum(&a, SemanticType::Uint8), wrapping_sum(&b, SemanticType::Uint8));
    assert_eq!(wrapping_sum(&a, SemanticType::Uint64), wrapping_sum(&b, SemanticType::Uint64));
}

#[test]
fn attestation_with_unusable_signing_key_is_engine_failure() {
    let mut state = fresh_state();
    state.signing_key = vec![1, 2, 3];
    let r = state.attest_decrypted(SemanticType::Uint8, 5);
    assert_eq!(r.unwrap_err(), ServiceError::EngineFailure);
}
