//! End-to-end tests of the `envy.enc` pipeline: sealing the secrets of
//! several environments and unsealing them again with one passphrase.
//!
//! The secrets that a vault would hand over are written here as payloads
//! directly; reading them out of the vault is the application's part.

use base64ct::{Base64, Encoding};

use envy::crypto::artifact::{seal_envelope, ArtifactPayload, SyncArtifact, ARTIFACT_VERSION};
use envy::cli::commands::{apply_encrypt_run, EncryptEntry};
use envy::engine::sync::{check_envelope_passphrase, merge_envelope, new_empty_artifact, seal_artifact, unseal_artifact};

/// A payload as the vault gives it: keys in ascending order.
fn payload(pairs: &[(&str, &str)]) -> ArtifactPayload {
    let mut secrets: Vec<(String, String)> = pairs.iter().map(|(k, v)| (k.to_string(), v.to_string())).collect();
    secrets.sort();
    ArtifactPayload { secrets }
}

fn lookup<'a>(pairs: &'a [(String, String)], key: &str) -> &'a str {
    pairs.iter().find(|(k, _)| k == key).map(|(_, v)| v.as_str()).expect("key must be present")
}

fn imported<'a>(result: &'a [(String, Vec<(String, String)>)], env: &str) -> &'a [(String, String)] {
    result.iter().find(|(n, _)| n == env).map(|(_, s)| s.as_slice()).expect("environment must be imported")
}

#[test]
fn e2e_seal_and_unseal_full_vault() {
    let envs = vec![
        ("development".to_string(), payload(&[("STRIPE_KEY", "sk_test_abc"), ("DATABASE_URL", "postgres://dev")])),
        ("production".to_string(), payload(&[("STRIPE_KEY", "sk_live_xyz")])),
    ];
    let passphrase = "correct-horse-battery-staple";
    let artifact = seal_artifact(passphrase, &envs).expect("seal_artifact must succeed");

    assert_eq!(artifact.version, ARTIFACT_VERSION);
    assert!(artifact.environments.iter().any(|(n, _)| n == "development"));
    assert!(artifact.environments.iter().any(|(n, _)| n == "production"));

    let result = unseal_artifact(&artifact, passphrase).expect("unseal_artifact must succeed");
    assert!(result.skipped.is_empty(), "no environments must be skipped with the correct passphrase");
    assert_eq!(result.imported.len(), 2, "both environments must be imported");

    let dev = imported(&result.imported, "development");
    assert_eq!(lookup(dev, "STRIPE_KEY"), "sk_test_abc");
    assert_eq!(lookup(dev, "DATABASE_URL"), "postgres://dev");
    let prod = imported(&result.imported, "production");
    assert_eq!(lookup(prod, "STRIPE_KEY"), "sk_live_xyz");
}

#[test]
fn e2e_wrong_passphrase_skips_all_environments() {
    let envs = vec![("development".to_string(), payload(&[("KEY", "value")]))];
    let artifact = seal_artifact("correct", &envs).expect("seal_artifact must succeed");

    let result = unseal_artifact(&artifact, "wrong-passphrase")
        .expect("unseal_artifact must return Ok even when all envs are skipped");
    assert!(result.imported.is_empty(), "nothing must be imported with wrong passphrase");
    assert_eq!(result.skipped, vec!["development"], "development must be in skipped list");
}

#[test]
fn e2e_partial_access_progressive_disclosure() {
    let dev_envelope = seal_envelope("dev-key", &payload(&[("API_KEY", "dev-api")])).expect("seal dev envelope must succeed");
    let prod_envelope =
        seal_envelope("prod-key", &payload(&[("DB_URL", "prod-db")])).expect("seal prod envelope must succeed");
    let artifact = SyncArtifact {
        version: ARTIFACT_VERSION,
        environments: vec![("development".to_string(), dev_envelope), ("production".to_string(), prod_envelope)],
    };

    let result = unseal_artifact(&artifact, "dev-key").expect("unseal must succeed with partial access");
    assert!(result.imported.iter().any(|(n, _)| n == "development"), "development must be imported");
    assert_eq!(lookup(imported(&result.imported, "development"), "API_KEY"), "dev-api");
    assert!(result.skipped.contains(&"production".to_string()), "production must be skipped");
    assert_eq!(result.imported.len(), 1, "only development must be imported");
    assert_eq!(result.skipped.len(), 1, "only production must be skipped");
}

#[test]
fn e2e_tampered_ciphertext_skips_environment() {
    let envs = vec![("development".to_string(), payload(&[("SECRET", "value")]))];
    let mut artifact = seal_artifact("pass", &envs).expect("seal_artifact must succeed");

    let envelope = &mut artifact.environments.iter_mut().find(|(n, _)| n == "development").expect("env must exist").1;
    let mut ct_bytes = Base64::decode_vec(&envelope.ciphertext).expect("ciphertext must be valid Base64");
    ct_bytes[0] ^= 0xFF;
    envelope.ciphertext = Base64::encode_string(&ct_bytes);

    let result = unseal_artifact(&artifact, "pass").expect("unseal must return Ok even for tampered envelope");
    assert!(result.imported.is_empty(), "tampered environment must not be imported");
    assert!(result.skipped.contains(&"development".to_string()), "tampered env must be in skipped");
}

#[test]
fn check_envelope_passphrase_returns_false_for_rotation_detection() {
    let envs = vec![("development".to_string(), payload(&[("K", "v")]))];
    let artifact = seal_artifact("pass-A", &envs).expect("seal_artifact must succeed");
    let envelope = &artifact.environments.iter().find(|(n, _)| n == "development").expect("development must be present").1;

    assert!(
        !check_envelope_passphrase("pass-B", "development", envelope),
        "wrong passphrase must return false (key-rotation warning path)"
    );
    assert!(check_envelope_passphrase("pass-A", "development", envelope), "correct passphrase must return true");
}

#[test]
fn seal_artifact_produces_valid_json_structure() {
    let envs = vec![("development".to_string(), payload(&[("STRIPE_KEY", "sk_test")]))];
    let artifact = seal_artifact("team-pass", &envs).expect("seal_artifact must succeed");

    assert_eq!(artifact.version, ARTIFACT_VERSION);
    let env = &artifact.environments.iter().find(|(n, _)| n == "development").expect("must contain development").1;
    assert!(!env.ciphertext.is_empty(), "ciphertext must be non-empty");
    assert!(!env.nonce.is_empty(), "nonce must be non-empty");
    assert_eq!(env.kdf.algorithm, "argon2id");
}

#[test]
fn sealing_lowercases_requested_environment_names() {
    let envs = vec![("Development".to_string(), payload(&[("KEY", "v")]))];
    let artifact = seal_artifact("pass", &envs).expect("seal_artifact must succeed");
    let names: Vec<&str> = artifact.environments.iter().map(|(n, _)| n.as_str()).collect();
    assert_eq!(names, vec!["development"]);
    let result = unseal_artifact(&artifact, "pass").expect("unseal must succeed");
    assert_eq!(result.imported[0].0, "development");
    assert_eq!(lookup(imported(&result.imported, "development"), "KEY"), "v");
}

fn entry(name: &str, count: usize, envelope: Option<envy::crypto::artifact::EncryptedEnvelope>) -> EncryptEntry {
    EncryptEntry {
        name: name.to_string(),
        secret_count: count,
        has_passphrase: true,
        existing_opens: None,
        confirmed: false,
        envelope,
    }
}

#[test]
fn headless_encrypt_run_adds_only_environments_with_secrets() {
    let mut artifact = new_empty_artifact();
    let kept = seal_envelope("old", &payload(&[("P", "1")])).unwrap();
    let kept_nonce = kept.nonce.clone();
    merge_envelope(&mut artifact, "production".to_string(), kept);

    let dev = seal_envelope("pw", &payload(&[("A", "1"), ("B", "2")])).unwrap();
    let run = vec![entry("development", 2, Some(dev)), entry("staging", 0, None)];
    let sealed = apply_encrypt_run(&mut artifact, &run, true);

    assert_eq!(sealed, vec!["development".to_string()]);
    let names: Vec<&str> = artifact.environments.iter().map(|(n, _)| n.as_str()).collect();
    assert_eq!(names, vec!["development", "production"]);
    assert_eq!(artifact.environments[1].1.nonce, kept_nonce);
    assert!(check_envelope_passphrase("pw", "development", &artifact.environments[0].1));
}

#[test]
fn unconfirmed_rotation_keeps_the_old_envelope() {
    let mut artifact = new_empty_artifact();
    let old = seal_envelope("old", &payload(&[("K", "1")])).unwrap();
    let old_nonce = old.nonce.clone();
    merge_envelope(&mut artifact, "development".to_string(), old);
    let fresh = seal_envelope("new", &payload(&[("K", "2")])).unwrap();
    let mut e = entry("development", 1, Some(fresh));
    e.existing_opens = Some(false);
    let sealed = apply_encrypt_run(&mut artifact, &vec![e], false);
    assert!(sealed.is_empty());
    assert_eq!(artifact.environments[0].1.nonce, old_nonce);
}
