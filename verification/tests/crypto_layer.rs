use base64ct::{Base64, Encoding};
use envy::crypto::aead::{decrypt, encrypt};
use envy::crypto::artifact::{
    derive_key, seal_envelope, unseal_envelope, ArtifactError, ArtifactPayload, KdfParams,
};
use envy::crypto::diceware::{suggest_passphrase, words};
use envy::crypto::error::CryptoError;
use envy::crypto::keyring::{ci_fallback, decode_key_hex, encode_key_hex, retrieve_key, StoredKey};
use envy::crypto::strength::{charset_size, StrengthLevel};

// ---------------------------------------------------------------------------
// Master-key hex encoding
// ---------------------------------------------------------------------------

#[test]
fn encode_decode_key_hex_round_trip() {
    let key = [0x7Au8; 32];
    let hex = encode_key_hex(&key);
    assert_eq!(hex.len(), 64);
    let decoded = decode_key_hex(&hex).expect("decode must succeed");
    assert_eq!(decoded, key);
}

#[test]
fn decode_key_hex_rejects_malformed_input() {
    let result = decode_key_hex("not-hex-and-wrong-length");
    assert!(matches!(result, Err(CryptoError::KeyCorrupted)));
}

#[test]
fn key_length_validated() {
    let result = decode_key_hex("deadbeefdeadbeefdeadbeef");
    assert!(
        matches!(result, Err(CryptoError::KeyCorrupted)),
        "short hex string must return KeyCorrupted, got: {:?}",
        result
    );

    let long_hex = "a".repeat(66);
    let result = decode_key_hex(&long_hex);
    assert!(
        matches!(result, Err(CryptoError::KeyCorrupted)),
        "66-char hex string must return KeyCorrupted, got: {:?}",
        result
    );

    let valid_hex = "42".repeat(32);
    let result = decode_key_hex(&valid_hex);
    assert!(result.is_ok(), "valid 64-char hex string must succeed, got: {:?}", result);
    let key = result.unwrap();
    assert!(key.iter().all(|&b| b == 0x42), "decoded key bytes must match the hex input");
}

#[test]
fn hex_encoding_is_lowercase_high_nibble_first() {
    let mut key = [0u8; 32];
    key[0] = 0xAB;
    key[31] = 0x01;
    let hex = encode_key_hex(&key);
    assert!(hex.starts_with("ab00"));
    assert!(hex.ends_with("0001"));
}

#[test]
fn uppercase_hex_is_accepted_and_bad_digit_rejected() {
    let upper = "AB".repeat(32);
    assert_eq!(decode_key_hex(&upper).unwrap(), [0xABu8; 32]);
    let mut bad = "ab".repeat(31);
    bad.push_str("zz");
    assert!(matches!(decode_key_hex(&bad), Err(CryptoError::KeyCorrupted)));
}

#[test]
fn stored_key_answers_map_to_key_or_error() {
    let found = retrieve_key(StoredKey::Found("11".repeat(32)));
    assert_eq!(found.unwrap(), [0x11u8; 32]);
    assert!(matches!(retrieve_key(StoredKey::Missing), Err(CryptoError::KeyNotFound)));
    match retrieve_key(StoredKey::Unavailable("no dbus".to_string())) {
        Err(CryptoError::KeyringUnavailable(m)) => assert_eq!(m, "no dbus"),
        other => panic!("unexpected: {:?}", other),
    }
    assert!(matches!(retrieve_key(StoredKey::Found("short".to_string())), Err(CryptoError::KeyCorrupted)));
}

#[test]
fn ci_fallback_gives_zero_key_only_in_ci() {
    assert_eq!(ci_fallback(CryptoError::KeyNotFound, true).unwrap(), [0u8; 32]);
    assert!(matches!(ci_fallback(CryptoError::KeyNotFound, false), Err(CryptoError::KeyNotFound)));
}

// ---------------------------------------------------------------------------
// AES-256-GCM
// ---------------------------------------------------------------------------

#[test]
fn encrypt_produces_ciphertext() {
    let key = [1u8; 32];
    let out = encrypt(&key, b"hello").expect("encrypt must succeed");
    assert_eq!(out.ciphertext.len(), 5 + 16);
    assert_ne!(&out.ciphertext[..5], b"hello");
}

#[test]
fn decrypt_round_trips() {
    let key = [2u8; 32];
    let out = encrypt(&key, b"secret value").expect("encrypt must succeed");
    let plain = decrypt(&key, &out.ciphertext, &out.nonce).expect("decrypt must succeed");
    assert_eq!(plain, b"secret value");
}

#[test]
fn empty_plaintext_succeeds() {
    let key = [3u8; 32];
    let out = encrypt(&key, b"").expect("encrypt must succeed");
    let plain = decrypt(&key, &out.ciphertext, &out.nonce).expect("decrypt must succeed");
    assert!(plain.is_empty());
}

#[test]
fn wrong_key_fails() {
    let out = encrypt(&[4u8; 32], b"data").expect("encrypt must succeed");
    let result = decrypt(&[5u8; 32], &out.ciphertext, &out.nonce);
    assert!(matches!(result, Err(CryptoError::DecryptionFailed)));
}

#[test]
fn tampered_ciphertext_fails() {
    let key = [6u8; 32];
    let mut out = encrypt(&key, b"data").expect("encrypt must succeed");
    out.ciphertext[0] ^= 0xFF;
    let result = decrypt(&key, &out.ciphertext, &out.nonce);
    assert!(matches!(result, Err(CryptoError::DecryptionFailed)));
}

#[test]
fn invalid_nonce_length() {
    let key = [7u8; 32];
    let out = encrypt(&key, b"data").expect("encrypt must succeed");
    let result = decrypt(&key, &out.ciphertext, &out.nonce[..11]);
    assert!(matches!(result, Err(CryptoError::InvalidNonce)));
}

#[test]
fn nonce_uniqueness() {
    let key = [8u8; 32];
    let a = encrypt(&key, b"same").expect("encrypt must succeed");
    let b = encrypt(&key, b"same").expect("encrypt must succeed");
    assert_ne!(a.nonce, b.nonce);
    assert_ne!(a.ciphertext, b.ciphertext);
}

#[test]
fn crypto_error_messages_are_fixed_texts() {
    assert_eq!(CryptoError::InvalidNonce.message(), "nonce must be exactly 12 bytes");
    assert_eq!(
        CryptoError::KeyringUnavailable("x".to_string()).message(),
        "OS credential manager is unavailable: x"
    );
}

// ---------------------------------------------------------------------------
// Artifact envelopes
// ---------------------------------------------------------------------------

fn test_kdf_params() -> KdfParams {
    KdfParams {
        algorithm: "argon2id".to_string(),
        memory_kib: 256,
        time_cost: 1,
        parallelism: 1,
        salt: "AAAAAAAAAAAAAAAAAAAAAA==".to_string(),
    }
}

fn one_secret_payload() -> ArtifactPayload {
    ArtifactPayload { secrets: vec![("STRIPE_KEY".to_string(), "sk_test_12345".to_string())] }
}

#[test]
fn derive_key_round_trip() {
    let salt: [u8; 16] = [42u8; 16];
    let params = test_kdf_params();
    let key1 = derive_key("hunter2", &salt, &params).expect("derive_key must succeed");
    let key2 = derive_key("hunter2", &salt, &params).expect("derive_key must succeed");
    assert_eq!(key1, key2, "same passphrase + salt must yield the same key");
}

#[test]
fn derive_key_different_salts_produce_different_keys() {
    let params = test_kdf_params();
    let key_a = derive_key("hunter2", &[1u8; 16], &params).expect("derive_key must succeed");
    let key_b = derive_key("hunter2", &[2u8; 16], &params).expect("derive_key must succeed");
    assert_ne!(key_a, key_b, "different salts must yield different keys");
}

#[test]
fn derive_key_rejects_blank_passphrase_and_bad_costs() {
    let params = test_kdf_params();
    assert!(matches!(derive_key("  ", &[0u8; 16], &params), Err(ArtifactError::WeakPassphrase)));
    let mut bad = test_kdf_params();
    bad.time_cost = 0;
    assert!(matches!(derive_key("pass", &[0u8; 16], &bad), Err(ArtifactError::KdfFailed(_))));
}

#[test]
fn seal_unseal_envelope_round_trip() {
    let passphrase = "correct-horse-battery-staple";
    let payload = one_secret_payload();
    let envelope = seal_envelope(passphrase, &payload).expect("seal must succeed");
    assert_eq!(envelope.kdf.algorithm, "argon2id");
    let recovered = unseal_envelope(passphrase, "development", &envelope)
        .expect("unseal must succeed with correct passphrase");
    assert_eq!(recovered.secrets, vec![("STRIPE_KEY".to_string(), "sk_test_12345".to_string())]);
}

#[test]
fn wrong_passphrase_returns_malformed_envelope() {
    let envelope = seal_envelope("correct", &one_secret_payload()).expect("seal must succeed");
    let result = unseal_envelope("wrong", "development", &envelope);
    assert!(
        matches!(result, Err(ArtifactError::MalformedEnvelope(_, _))),
        "wrong passphrase must return MalformedEnvelope, got: {:?}",
        result.err()
    );
}

#[test]
fn tampered_ciphertext_returns_malformed_envelope() {
    let mut envelope = seal_envelope("passphrase", &one_secret_payload()).expect("seal must succeed");
    let mut ct_bytes = Base64::decode_vec(&envelope.ciphertext).expect("ciphertext must be valid Base64");
    ct_bytes[0] ^= 0xFF;
    envelope.ciphertext = Base64::encode_string(&ct_bytes);
    let result = unseal_envelope("passphrase", "development", &envelope);
    assert!(
        matches!(result, Err(ArtifactError::MalformedEnvelope(_, _))),
        "tampered ciphertext must return MalformedEnvelope, got: {:?}",
        result.err()
    );
}

#[test]
fn empty_passphrase_returns_weak_passphrase() {
    let payload = one_secret_payload();
    assert!(matches!(seal_envelope("", &payload), Err(ArtifactError::WeakPassphrase)));
    assert!(matches!(seal_envelope("   ", &payload), Err(ArtifactError::WeakPassphrase)));
}

#[test]
fn unknown_kdf_algorithm_is_unsupported() {
    let mut envelope = seal_envelope("p", &one_secret_payload()).expect("seal must succeed");
    envelope.kdf.algorithm = "scrypt".to_string();
    assert!(matches!(
        unseal_envelope("p", "dev", &envelope),
        Err(ArtifactError::UnsupportedVersion(0, 1))
    ));
}

#[test]
fn artifact_error_messages_name_the_environment() {
    let e = ArtifactError::MalformedEnvelope("prod".to_string(), "bad".to_string());
    assert_eq!(e.message(), "envelope for environment 'prod' is malformed: bad");
    assert_eq!(
        ArtifactError::UnsupportedVersion(2, 1).message(),
        "unsupported artifact version 2 (expected 1)"
    );
}

// ---------------------------------------------------------------------------
// Strength and Diceware
// ---------------------------------------------------------------------------

#[test]
fn strength_labels_and_weakness() {
    assert_eq!(StrengthLevel::VeryWeak.label(), "very weak");
    assert_eq!(StrengthLevel::VeryStrong.label(), "very strong");
    assert!(StrengthLevel::Weak.is_weak());
    assert!(!StrengthLevel::Fair.is_weak());
}

#[test]
fn charset_size_counts_character_classes() {
    assert_eq!(charset_size(""), (0, 0));
    assert_eq!(charset_size("abc"), (26, 3));
    assert_eq!(charset_size("aB3!"), (26 + 26 + 10 + 32, 4));
    assert_eq!(charset_size("a b"), (27, 3));
    assert_eq!(charset_size("é"), (100, 1));
}

#[test]
fn word_list_lines_give_their_second_token() {
    let raw = "11111\tabacus\n11112\tabdomen\r\n\n11113 \t abide\nlonely\n";
    assert_eq!(words(raw), vec!["abacus", "abdomen", "abide"]);
}

#[test]
fn suggestions_have_the_requested_word_count() {
    let list: Vec<String> = ["alpha", "bravo", "charlie"].iter().map(|s| s.to_string()).collect();
    let s = suggest_passphrase(&list, 4);
    assert_eq!(s.matches(' ').count(), 3);
    assert!(s.split(' ').all(|w| list.iter().any(|l| l == w)));
    assert_eq!(suggest_passphrase(&list, 0), "");
}

/// A word list in the EFF file's shape (`DDDDD<TAB>word`), 7776 entries.
fn dice_words() -> Vec<String> {
    let mut raw = String::new();
    for i in 0..7776u32 {
        let mut roll = String::new();
        let mut n = i;
        for _ in 0..5 {
            roll.insert(0, char::from(b'1' + (n % 6) as u8));
            n /= 6;
        }
        raw.push_str(&format!("{roll}\tword{i}\n"));
    }
    words(&raw)
}

#[test]
fn suggest_4_words_has_3_spaces() {
    assert_eq!(suggest_passphrase(&dice_words(), 4).matches(' ').count(), 3);
}

#[test]
fn suggest_is_non_empty() {
    assert!(!suggest_passphrase(&dice_words(), 4).is_empty());
}

#[test]
fn two_suggestions_differ() {
    let list = dice_words();
    assert_eq!(list.len(), 7776);
    assert_ne!(suggest_passphrase(&list, 4), suggest_passphrase(&list, 4));
}
