use std::collections::BTreeMap;

use envy::crypto::artifact::{seal_envelope, ArtifactError, ArtifactPayload, SyncArtifact, ARTIFACT_VERSION};
use envy::crypto::error::CryptoError;
use envy::db::{AuditLogRecord, DbError, EnvId, SecretId, SecretRecord, SqliteFailure, map_rusqlite_error, not_found_or};
use envy::engine::audit::{audit_entries, AuditAction};
use envy::engine::diff::{compute_diff, ChangeType};
use envy::engine::error::CoreError;
use envy::engine::manifest::{default_rotation_reminder_days, manifest_content, rewrite_auto_inject};
use envy::engine::ops::{decrypt_records, decrypt_value, encrypt_value, normalize_env, validate_key, DEFAULT_ENV};
use envy::engine::scan::{add_needles, is_probably_binary, scan_bytes, scan_text, Needle};
use envy::engine::status::{derive_sync_status, stale_secret_keys, SyncStatus};
use envy::engine::sync::{
    check_artifact_version, check_envelope_passphrase, merge_envelope, new_empty_artifact, seal_artifact, unseal_artifact,
    unseal_env, SyncError,
};

fn secrets(pairs: &[(&str, &str)]) -> Vec<(String, String)> {
    let map: BTreeMap<String, String> = pairs.iter().map(|(k, v)| (k.to_string(), v.to_string())).collect();
    map.into_iter().collect()
}

// ---------------------------------------------------------------------------
// Diff
// ---------------------------------------------------------------------------

#[test]
fn diff_all_added() {
    let report = compute_diff("development", &secrets(&[("A", "a"), ("B", "b")]), &Vec::new());
    assert_eq!(report.entries.len(), 2, "expected 2 Added entries");
    assert!(report.has_differences());
    assert_eq!(report.added, 2);
    assert_eq!(report.removed, 0);
    assert_eq!(report.modified, 0);
    assert_eq!(report.entries[0].key, "A");
    assert_eq!(report.entries[1].key, "B");
    assert_eq!(report.entries[0].change, ChangeType::Added);
    assert_eq!(report.entries[1].change, ChangeType::Added);
}

#[test]
fn diff_all_removed() {
    let report = compute_diff("development", &Vec::new(), &secrets(&[("X", "x"), ("Y", "y")]));
    assert_eq!(report.entries.len(), 2, "expected 2 Removed entries");
    assert!(report.has_differences());
    assert_eq!(report.removed, 2);
    assert_eq!(report.entries[0].key, "X");
    assert_eq!(report.entries[1].key, "Y");
    assert_eq!(report.entries[0].change, ChangeType::Removed);
    assert_eq!(report.entries[1].change, ChangeType::Removed);
}

#[test]
fn diff_all_modified() {
    let report = compute_diff("development", &secrets(&[("A", "new")]), &secrets(&[("A", "old")]));
    assert_eq!(report.entries.len(), 1, "expected 1 Modified entry");
    assert!(report.has_differences());
    assert_eq!(report.modified, 1);
    assert_eq!(report.entries[0].change, ChangeType::Modified);
    assert_eq!(report.entries[0].old_value.as_deref(), Some("old"));
    assert_eq!(report.entries[0].new_value.as_deref(), Some("new"));
}

#[test]
fn diff_mixed_changes() {
    let vault = secrets(&[("A", "same"), ("B", "new_val"), ("D", "added")]);
    let artifact = secrets(&[("A", "same"), ("B", "old_val"), ("C", "removed")]);
    let report = compute_diff("development", &vault, &artifact);
    assert_eq!(report.entries.len(), 3, "A is identical, so 3 entries");
    assert_eq!(report.added, 1);
    assert_eq!(report.removed, 1);
    assert_eq!(report.modified, 1);
    assert_eq!(report.entries[0].key, "B");
    assert_eq!(report.entries[0].change, ChangeType::Modified);
    assert_eq!(report.entries[1].key, "C");
    assert_eq!(report.entries[1].change, ChangeType::Removed);
    assert_eq!(report.entries[2].key, "D");
    assert_eq!(report.entries[2].change, ChangeType::Added);
}

#[test]
fn diff_no_changes() {
    let report = compute_diff("development", &secrets(&[("A", "v")]), &secrets(&[("A", "v")]));
    assert!(report.entries.is_empty(), "identical values => no entries");
    assert!(!report.has_differences());
    assert_eq!(report.total(), 0);
}

#[test]
fn diff_empty_both() {
    let report = compute_diff("development", &Vec::new(), &Vec::new());
    assert!(report.entries.is_empty());
    assert!(!report.has_differences());
}

#[test]
fn diff_sorted_output() {
    let report = compute_diff("development", &secrets(&[("Z", "z"), ("A", "a"), ("M", "m")]), &Vec::new());
    assert_eq!(report.entries.len(), 3);
    assert_eq!(report.entries[0].key, "A");
    assert_eq!(report.entries[1].key, "M");
    assert_eq!(report.entries[2].key, "Z");
}

#[test]
fn diff_values_retained_for_modified() {
    let report = compute_diff("development", &secrets(&[("K", "new_secret")]), &secrets(&[("K", "old_secret")]));
    assert_eq!(report.entries.len(), 1);
    let entry = &report.entries[0];
    assert_eq!(entry.change, ChangeType::Modified);
    assert_eq!(entry.old_value.as_deref(), Some("old_secret"));
    assert_eq!(entry.new_value.as_deref(), Some("new_secret"));
}

#[test]
fn diff_counts_add_up_to_entries() {
    let report = compute_diff(
        "staging",
        &secrets(&[("A", "1"), ("B", "2"), ("E", "5")]),
        &secrets(&[("B", "3"), ("C", "4"), ("E", "5")]),
    );
    assert_eq!(report.env_name, "staging");
    assert_eq!(report.total(), report.entries.len());
    assert_eq!(report.entries.iter().map(|e| e.key.as_str()).collect::<Vec<_>>(), vec!["A", "B", "C"]);
}

// ---------------------------------------------------------------------------
// Sync status
// ---------------------------------------------------------------------------

#[test]
fn derive_sync_status_never_sealed_when_no_marker() {
    assert_eq!(derive_sync_status(None, None), SyncStatus::NeverSealed, "no sealed_at must yield NeverSealed");
    assert_eq!(
        derive_sync_status(Some(1_000), None),
        SyncStatus::NeverSealed,
        "secrets present but no sealed_at must yield NeverSealed"
    );
}

#[test]
fn derive_sync_status_modified_when_secret_newer_than_seal() {
    assert_eq!(
        derive_sync_status(Some(2_000), Some(1_000)),
        SyncStatus::Modified,
        "secret modified after seal must yield Modified"
    );
}

#[test]
fn derive_sync_status_in_sync_when_modified_equals_sealed() {
    assert_eq!(
        derive_sync_status(Some(1_000), Some(1_000)),
        SyncStatus::InSync,
        "secret modified at exactly the seal time must yield InSync"
    );
}

#[test]
fn derive_sync_status_in_sync_when_secret_older_than_seal() {
    assert_eq!(
        derive_sync_status(Some(500), Some(1_000)),
        SyncStatus::InSync,
        "secret modified before seal must yield InSync"
    );
}

#[test]
fn derive_sync_status_in_sync_for_empty_env_with_marker() {
    assert_eq!(
        derive_sync_status(None, Some(1_000)),
        SyncStatus::InSync,
        "empty env with a sync marker must yield InSync"
    );
}

fn record(key: &str, updated_at: i64) -> SecretRecord {
    SecretRecord {
        id: SecretId(format!("id-{key}")),
        environment_id: EnvId("env".to_string()),
        key: key.to_string(),
        value_encrypted: Vec::new(),
        value_nonce: Vec::new(),
        created_at: 0,
        updated_at,
    }
}

#[test]
fn stale_keys_are_those_older_than_the_threshold() {
    let now = 100 * 86_400;
    let records = vec![record("OLD", now - 91 * 86_400), record("EDGE", now - 90 * 86_400), record("NEW", now)];
    assert_eq!(stale_secret_keys(&records, 90, now), vec!["OLD"]);
    assert!(stale_secret_keys(&records, 0, now).is_empty());
    assert_eq!(stale_secret_keys(&vec![record("ANCIENT", i64::MIN)], 1, i64::MAX), vec!["ANCIENT"]);
}

// ---------------------------------------------------------------------------
// Secret operations
// ---------------------------------------------------------------------------

#[test]
fn invalid_keys_are_rejected() {
    assert!(validate_key("API_KEY").is_ok());
    assert!(matches!(validate_key(""), Err(CoreError::InvalidSecretKey(k)) if k.is_empty()));
    assert!(matches!(validate_key("FOO=BAR"), Err(CoreError::InvalidSecretKey(k)) if k == "FOO=BAR"));
}

#[test]
fn environment_names_default_and_lowercase() {
    assert_eq!(DEFAULT_ENV, "development");
    assert_eq!(normalize_env(""), "development");
    assert_eq!(normalize_env("Staging"), "staging");
}

#[test]
fn stored_value_decrypts_to_what_was_written() {
    let key = [9u8; 32];
    let stored = encrypt_value(&key, "API_KEY", "secret123").expect("encrypt must succeed");
    assert_eq!(decrypt_value(&key, &stored.ciphertext, &stored.nonce).unwrap(), "secret123");
    assert!(matches!(encrypt_value(&key, "BAD=KEY", "x"), Err(CoreError::InvalidSecretKey(_))));
    assert!(matches!(
        decrypt_value(&[1u8; 32], &stored.ciphertext, &stored.nonce),
        Err(CoreError::Crypto(CryptoError::DecryptionFailed))
    ));
}

#[test]
fn decrypting_records_is_all_or_nothing() {
    let key = [3u8; 32];
    let a = encrypt_value(&key, "A", "1").unwrap();
    let b = encrypt_value(&key, "B", "2").unwrap();
    let mut ra = record("A", 0);
    ra.value_encrypted = a.ciphertext.clone();
    ra.value_nonce = a.nonce.to_vec();
    let mut rb = record("B", 0);
    rb.value_encrypted = b.ciphertext.clone();
    rb.value_nonce = b.nonce.to_vec();
    let ok = decrypt_records(&key, &vec![ra.clone(), rb.clone()]).unwrap();
    assert_eq!(ok, vec![("A".to_string(), "1".to_string()), ("B".to_string(), "2".to_string())]);
    let mut bad = record("C", 0);
    bad.value_encrypted = b"not-valid-gcm-ciphertext-xxxxx".to_vec();
    bad.value_nonce = vec![0u8; 12];
    assert!(matches!(
        decrypt_records(&key, &vec![ra, bad, rb]),
        Err(CoreError::Crypto(CryptoError::DecryptionFailed))
    ));
}

#[test]
fn core_error_messages() {
    assert_eq!(
        CoreError::InvalidSecretKey("A=B".to_string()).message(),
        "invalid secret key name \"A=B\": must be non-empty and must not contain `=`"
    );
    assert_eq!(CoreError::Db(DbError::NotFound).message(), "database error: record not found");
}

// ---------------------------------------------------------------------------
// Store error mapping and audit entries
// ---------------------------------------------------------------------------

#[test]
fn sqlite_failures_map_to_store_errors() {
    let wrong_key = SqliteFailure::Sqlite { extended_code: 26, is_constraint: false, message: None, display: "x".into() };
    assert!(matches!(map_rusqlite_error(wrong_key), DbError::EncryptionError));
    let unique = SqliteFailure::Sqlite { extended_code: 2067, is_constraint: true, message: None, display: "x".into() };
    assert!(matches!(map_rusqlite_error(unique), DbError::AlreadyExists));
    let check = SqliteFailure::Sqlite {
        extended_code: 275,
        is_constraint: true,
        message: Some("CHECK failed".into()),
        display: "x".into(),
    };
    assert!(matches!(map_rusqlite_error(check), DbError::ConstraintViolation(m) if m == "CHECK failed"));
    assert!(matches!(not_found_or(SqliteFailure::NoRows("none".into())), DbError::NotFound));
    assert!(matches!(map_rusqlite_error(SqliteFailure::NoRows("none".into())), DbError::Internal(m) if m == "none"));
}

#[test]
fn audit_rows_become_entries_in_order() {
    assert_eq!(AuditAction::SetKey.as_str(), "set");
    assert_eq!(AuditAction::Run.as_str(), "run");
    let rows = vec![
        AuditLogRecord {
            id: "1".into(),
            environment_name: "development".into(),
            action: "run".into(),
            key: None,
            created_at: 20,
        },
        AuditLogRecord {
            id: "2".into(),
            environment_name: "production".into(),
            action: "get".into(),
            key: Some("TOKEN".into()),
            created_at: 10,
        },
    ];
    let entries = audit_entries(rows);
    assert_eq!(entries.len(), 2);
    assert_eq!(entries[0].action, "run");
    assert!(entries[0].key.is_none());
    assert_eq!(entries[1].key.as_deref(), Some("TOKEN"));
    assert_eq!(entries[1].created_at, 10);
}

// ---------------------------------------------------------------------------
// Manifest text
// ---------------------------------------------------------------------------

#[test]
fn new_manifest_text_holds_id_and_flag() {
    let text = manifest_content("f47ac10b-58cc-4372-a567-0e02b2c3d479", false);
    assert!(text.contains("project_id = \"f47ac10b-58cc-4372-a567-0e02b2c3d479\"\n"));
    assert!(text.contains("\nauto_inject = false\n"));
    assert!(text.ends_with("# rotation_reminder_days = 90\n"));
    assert_eq!(default_rotation_reminder_days(), 90);
}

#[test]
fn auto_inject_line_is_replaced_in_place() {
    let content = "# header\nproject_id = \"x\"\n  auto_inject = false\nrotation_reminder_days = 30\n";
    assert_eq!(
        rewrite_auto_inject(content, true),
        "# header\nproject_id = \"x\"\n  auto_inject = true\nrotation_reminder_days = 30\n"
    );
}

#[test]
fn auto_inject_line_is_inserted_after_project_id() {
    let content = "# header\nproject_id = \"x\"\n# tail\n";
    assert_eq!(rewrite_auto_inject(content, true), "# header\nproject_id = \"x\"\nauto_inject = true\n# tail\n");
    assert_eq!(rewrite_auto_inject("# nothing\n", false), "# nothing\nauto_inject = false\n");
}

#[test]
fn only_the_first_flag_line_is_rewritten() {
    let content = "auto_inject=true\nauto_inject = true\n";
    assert_eq!(rewrite_auto_inject(content, false), "auto_inject = false\nauto_inject = true\n");
}

// ---------------------------------------------------------------------------
// Leak scanning
// ---------------------------------------------------------------------------

#[test]
fn binary_detection_looks_at_leading_bytes() {
    assert!(!is_probably_binary(b"plain text"));
    assert!(is_probably_binary(b"ab\0cd"));
    let mut late = vec![b'a'; 8000];
    late.push(0);
    assert!(!is_probably_binary(&late));
}

#[test]
fn short_values_are_not_searched_for() {
    let mut needles: Vec<Needle> = Vec::new();
    add_needles(&mut needles, "development", &secrets(&[("API_KEY", "sk_live_abcdef"), ("PIN", "1234")]));
    assert_eq!(needles.len(), 1);
    assert_eq!(needles[0].key, "API_KEY");
    assert_eq!(needles[0].environment, "development");
}

#[test]
fn scanning_reports_lines_and_reveals_only_on_request() {
    let mut needles: Vec<Needle> = Vec::new();
    add_needles(&mut needles, "development", &secrets(&[("API_KEY", "sk_live_abcdef")]));
    let text = "first line\nconst KEY = \"sk_live_abcdef\";\n";
    let hidden = scan_text(text, &needles, false);
    assert_eq!(hidden.len(), 1);
    assert_eq!(hidden[0].key, "API_KEY");
    assert_eq!(hidden[0].line, 2);
    assert!(hidden[0].value.is_none());
    let shown = scan_bytes(text.as_bytes(), &needles, true);
    assert_eq!(shown[0].value.as_deref(), Some("sk_live_abcdef"));
    assert!(scan_bytes(b"sk_live_abcdef\0", &needles, false).is_empty());
}

// ---------------------------------------------------------------------------
// Artifact sealing and unsealing
// ---------------------------------------------------------------------------

fn make_envelope(passphrase: &str, key: &str, value: &str) -> envy::crypto::artifact::EncryptedEnvelope {
    let payload = ArtifactPayload { secrets: vec![(key.to_string(), value.to_string())] };
    seal_envelope(passphrase, &payload).expect("seal_envelope must succeed")
}

#[test]
fn unseal_artifact_progressive_disclosure() {
    let dev_envelope = make_envelope("dev-pass", "API_KEY", "dev-value");
    let prod_envelope = make_envelope("prod-pass", "DB_URL", "prod-db");
    let artifact = SyncArtifact {
        version: ARTIFACT_VERSION,
        environments: vec![("development".to_string(), dev_envelope), ("production".to_string(), prod_envelope)],
    };
    let result = unseal_artifact(&artifact, "dev-pass").expect("unseal must succeed");
    assert_eq!(result.imported.len(), 1);
    assert_eq!(result.imported[0].0, "development");
    assert_eq!(result.imported[0].1, vec![("API_KEY".to_string(), "dev-value".to_string())]);
    assert!(result.skipped.contains(&"production".to_string()), "production must be skipped");
    assert_eq!(result.skipped.len(), 1);
}

#[test]
fn check_envelope_passphrase_correct_and_wrong() {
    let envelope = make_envelope("pass-A", "SECRET", "value");
    assert!(check_envelope_passphrase("pass-A", "development", &envelope), "correct passphrase must return true");
    assert!(!check_envelope_passphrase("pass-B", "development", &envelope), "wrong passphrase must return false");
}

#[test]
fn unseal_rejects_blank_passphrase_and_unknown_version() {
    let artifact = new_empty_artifact();
    assert!(matches!(unseal_artifact(&artifact, " "), Err(SyncError::Artifact(ArtifactError::WeakPassphrase))));
    let future = SyncArtifact { version: 999, environments: Vec::new() };
    assert!(matches!(unseal_artifact(&future, "p"), Err(SyncError::UnsupportedVersion(999))));
    assert!(matches!(check_artifact_version(SyncArtifact { version: 999, environments: Vec::new() }), Err(SyncError::UnsupportedVersion(999))));
    assert!(check_artifact_version(new_empty_artifact()).is_ok());
}

#[test]
fn sealed_artifact_unseals_every_environment() {
    let envs = vec![
        ("staging".to_string(), ArtifactPayload { secrets: vec![("A".to_string(), "1".to_string())] }),
        ("development".to_string(), ArtifactPayload { secrets: vec![("B".to_string(), "2".to_string())] }),
    ];
    let artifact = seal_artifact("team-pass", &envs).expect("seal_artifact must succeed");
    assert_eq!(artifact.version, ARTIFACT_VERSION);
    let names: Vec<&str> = artifact.environments.iter().map(|(n, _)| n.as_str()).collect();
    assert_eq!(names, vec!["development", "staging"]);
    let single = unseal_env(&artifact, "staging", "team-pass").unwrap();
    assert_eq!(single, Some(vec![("A".to_string(), "1".to_string())]));
    assert_eq!(unseal_env(&artifact, "missing", "team-pass").unwrap(), None);
    assert_eq!(unseal_env(&artifact, "staging", "wrong").unwrap(), None);
}

#[test]
fn merging_replaces_one_environment_and_keeps_the_rest() {
    let mut artifact = new_empty_artifact();
    merge_envelope(&mut artifact, "production".to_string(), make_envelope("p", "K", "1"));
    merge_envelope(&mut artifact, "development".to_string(), make_envelope("p", "K", "2"));
    let replacement = make_envelope("p", "K", "3");
    let nonce = replacement.nonce.clone();
    merge_envelope(&mut artifact, "production".to_string(), replacement);
    let names: Vec<&str> = artifact.environments.iter().map(|(n, _)| n.as_str()).collect();
    assert_eq!(names, vec!["development", "production"]);
    assert_eq!(artifact.environments[1].1.nonce, nonce);
}

#[test]
fn sync_error_messages() {
    assert_eq!(SyncError::UnsupportedVersion(7).message(), "envy.enc has unsupported schema version 7");
    assert_eq!(
        SyncError::NothingImported.message(),
        "no environments could be decrypted \u{2014} check your passphrase"
    );
}
