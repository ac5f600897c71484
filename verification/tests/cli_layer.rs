use envy::cli::commands::{
    display_env, encrypt_step, is_headless_mode, parse_assignment, parse_env_file, passphrase_from_env, passphrase_var_name,
    EncryptStep, PassphraseSource,
};
use envy::cli::error::{cli_exit_code, core_exit_code, format_cli_error, format_core_error, CliError};
use envy::cli::format::{print_output, shell_escape, OutputData, OutputFormat};
use envy::cli::report::{
    artifact_metadata, audit_json, colorize, render_diff_table, scan_json, scan_report, status_json, write_diff_json,
    ArtifactMetadata,
};
use envy::engine::audit::AuditEntry;
use envy::engine::scan::{scannable_size, LineMatch, MAX_FILE_BYTES};
use envy::cli::session::{
    compact_spans, display, nearest_ansi256, palette_actions, palette_matches, popup_inner_height, popup_max_scroll, sync_status_icon, Rgb,
};
use envy::cli::shell::{detect_shell, oneliner_for_shell, shell_init_snippet, ShellKind};
use envy::cli::time::{epoch_to_iso8601, format_timestamp, format_timestamp_at, humanize_at, humanize_timestamp};
use envy::db::DbError;
use envy::engine::diff::compute_diff;
use envy::engine::error::CoreError;
use envy::db::{EnvId, EnvironmentStatus};
use envy::engine::status::{status_row, StatusRow, SyncStatus};
use envy::engine::sync::SyncError;

fn now() -> i64 {
    std::time::SystemTime::now().duration_since(std::time::UNIX_EPOCH).unwrap_or_default().as_secs() as i64
}

fn pairs(items: &[(&str, &str)]) -> Vec<(String, String)> {
    items.iter().map(|(k, v)| (k.to_string(), v.to_string())).collect()
}

fn render(format: OutputFormat, data: OutputData<'_>) -> String {
    let mut buf = String::new();
    print_output(format, data, &mut buf);
    buf
}

// ---------------------------------------------------------------------------
// Argument and .env parsing
// ---------------------------------------------------------------------------

#[test]
fn parse_assignment_basic() {
    assert_eq!(parse_assignment("KEY=VALUE").ok(), Some(("KEY".to_string(), "VALUE".to_string())));
}

#[test]
fn parse_assignment_value_contains_equals() {
    assert_eq!(parse_assignment("TOKEN=abc=def").ok(), Some(("TOKEN".to_string(), "abc=def".to_string())));
}

#[test]
fn parse_assignment_no_equals() {
    assert!(matches!(parse_assignment("NOVALUE"), Err(CliError::InvalidAssignment(a)) if a == "NOVALUE"));
}

#[test]
fn parse_assignment_empty_key() {
    assert_eq!(parse_assignment("=VALUE").ok(), Some((String::new(), "VALUE".to_string())));
}

#[test]
fn migrate_skips_comments_and_blanks() {
    let parsed = parse_env_file("KEY1=value1\n# this is a comment\n\nKEY2=value2\n");
    assert_eq!(parsed.assignments.len(), 2, "must produce exactly 2 valid pairs");
    assert_eq!(parsed.malformed.len(), 0, "must report 0 malformed lines");
    assert_eq!(parsed.assignments[0], ("KEY1".to_string(), "value1".to_string()));
    assert_eq!(parsed.assignments[1], ("KEY2".to_string(), "value2".to_string()));
}

#[test]
fn migrate_warns_on_malformed() {
    let parsed = parse_env_file("GOOD_KEY=good_value\nMALFORMED_LINE\n");
    assert_eq!(parsed.assignments.len(), 1, "must produce exactly 1 valid pair");
    assert_eq!(parsed.malformed.len(), 1, "must detect exactly 1 malformed line");
    assert_eq!(parsed.assignments[0], ("GOOD_KEY".to_string(), "good_value".to_string()));
    assert_eq!(parsed.malformed[0], (2, "MALFORMED_LINE".to_string()));
}

#[test]
fn migrate_trims_keys_but_not_values_after_the_first_equals() {
    let parsed = parse_env_file("  KEY \t= a=b \r\n");
    assert_eq!(parsed.assignments, vec![("KEY".to_string(), " a=b".to_string())]);
}

#[test]
fn default_environment_is_displayed_for_empty_name() {
    assert_eq!(display_env(""), "development");
    assert_eq!(display_env("prod"), "prod");
}

// ---------------------------------------------------------------------------
// Passphrase resolution
// ---------------------------------------------------------------------------

#[test]
fn passphrase_variables_take_precedence_in_order() {
    assert_eq!(passphrase_var_name("my-env"), "ENVY_PASSPHRASE_MY_ENV");
    match passphrase_from_env("ENVY_PASSPHRASE_DEV", Some("specific".into()), Some("global".into())) {
        PassphraseSource::Value(v) => assert_eq!(v, "specific"),
        other => panic!("unexpected {:?}", other),
    }
    match passphrase_from_env("ENVY_PASSPHRASE_DEV", None, Some("global".into())) {
        PassphraseSource::Value(v) => assert_eq!(v, "global"),
        other => panic!("unexpected {:?}", other),
    }
    match passphrase_from_env("ENVY_PASSPHRASE_DEV", Some("  ".into()), Some("global".into())) {
        PassphraseSource::BlankVariable(m) => {
            assert_eq!(m, "ENVY_PASSPHRASE_DEV is set but contains only whitespace")
        },
        other => panic!("unexpected {:?}", other),
    }
    assert!(matches!(passphrase_from_env("X", None, None), PassphraseSource::Prompt));
}

#[test]
fn headless_mode_needs_a_non_blank_variable() {
    assert!(!is_headless_mode(&None, &vec![None, Some(" ".into())]));
    assert!(is_headless_mode(&Some("x".into()), &vec![]));
    assert!(is_headless_mode(&None, &vec![None, Some("p".into())]));
}

#[test]
fn encrypt_steps_follow_the_checks_in_order() {
    assert_eq!(encrypt_step(0, true, true, None), EncryptStep::SkipEmpty);
    assert_eq!(encrypt_step(2, false, false, None), EncryptStep::SkipNoPassphrase);
    assert_eq!(encrypt_step(2, true, false, Some(false)), EncryptStep::ConfirmRotation);
    assert_eq!(encrypt_step(2, true, true, Some(false)), EncryptStep::Seal);
    assert_eq!(encrypt_step(2, true, false, Some(true)), EncryptStep::Seal);
}

// ---------------------------------------------------------------------------
// Errors and exit codes
// ---------------------------------------------------------------------------

#[test]
fn format_manifest_not_found() {
    let msg = format_core_error(&CoreError::ManifestNotFound);
    assert!(msg.starts_with("error: "), "message must start with 'error: ', got: {msg:?}");
    assert!(msg.contains("envy init"), "message must mention `envy init` to guide the user, got: {msg:?}");
}

#[test]
fn exit_code_not_found() {
    assert_eq!(core_exit_code(&CoreError::ManifestNotFound), 1, "ManifestNotFound must map to exit code 1");
    assert_eq!(core_exit_code(&CoreError::Db(DbError::NotFound)), 1, "Db(NotFound) must map to exit code 1");
}

#[test]
fn exit_code_invalid_key() {
    assert_eq!(core_exit_code(&CoreError::InvalidSecretKey(String::new())), 2, "InvalidSecretKey must map to exit code 2");
}

#[test]
fn cli_errors_format_and_map_to_codes() {
    let e = CliError::FileNotFound("a.env".into(), "missing".into());
    assert_eq!(format_cli_error(&e), "error: cannot read file \"a.env\": missing");
    assert_eq!(cli_exit_code(&e), 1);
    assert_eq!(cli_exit_code(&CliError::InvalidAssignment("x".into())), 2);
    assert_eq!(cli_exit_code(&CliError::AlreadyInitialised), 3);
    assert_eq!(cli_exit_code(&CliError::VaultOpen("x".into())), 4);
    assert_eq!(core_exit_code(&CoreError::Db(DbError::EncryptionError)), 4);
}

#[test]
fn command_failures_follow_the_exit_code_table() {
    assert_eq!(cli_exit_code(&CliError::NothingImported), 1);
    assert_eq!(cli_exit_code(&CliError::PassphraseInput("passphrase must not be empty".into())), 2);
    assert_eq!(cli_exit_code(&CliError::EnvNotFound("qa".into())), 3);
    assert_eq!(cli_exit_code(&CliError::ArtifactUnreadable("bad".into())), 5);
    assert_eq!(cli_exit_code(&CliError::Core(CoreError::InvalidSecretKey("=".into()))), 2);
    assert_eq!(cli_exit_code(&CliError::Core(CoreError::Db(DbError::NotFound))), 1);
    assert_eq!(
        format_cli_error(&CliError::PassphraseInput("Passphrases do not match.".into())),
        "error: Passphrases do not match."
    );
    assert_eq!(
        format_cli_error(&CliError::EnvNotFound("qa".into())),
        "error: environment 'qa' not found in the vault or in envy.enc"
    );
    assert_eq!(
        format_cli_error(&CliError::Core(CoreError::ManifestNotFound)),
        format_core_error(&CoreError::ManifestNotFound)
    );
}

// ---------------------------------------------------------------------------
// Output formats
// ---------------------------------------------------------------------------

#[test]
fn table_list_keys_only() {
    let secrets = pairs(&[("API_KEY", "abc123"), ("DB_HOST", "localhost")]);
    let out = render(OutputFormat::Table, OutputData::SecretList { env: "development", secrets: &secrets });
    assert_eq!(out, "API_KEY\nDB_HOST\n");
}

#[test]
fn table_list_empty_writes_nothing_to_stdout() {
    let secrets: Vec<(String, String)> = vec![];
    let out = render(OutputFormat::Table, OutputData::SecretList { env: "development", secrets: &secrets });
    assert_eq!(out, "", "empty list must produce no stdout output in table mode");
}

#[test]
fn table_item() {
    let out = render(OutputFormat::Table, OutputData::SecretItem { key: "API_KEY", value: "abc123" });
    assert_eq!(out, "abc123\n");
}

#[test]
fn json_list_found() {
    let secrets = pairs(&[("API_KEY", "abc123"), ("DB_HOST", "localhost")]);
    let out = render(OutputFormat::Json, OutputData::SecretList { env: "development", secrets: &secrets });
    let v: serde_json::Value = serde_json::from_str(out.trim()).expect("must be valid JSON");
    let arr = v["secrets"].as_array().expect("secrets must be array");
    assert_eq!(arr.len(), 2);
    assert_eq!(arr[0]["key"], "API_KEY");
    assert_eq!(arr[0]["value"], "abc123");
}

#[test]
fn json_list_empty() {
    let secrets: Vec<(String, String)> = vec![];
    let out = render(OutputFormat::Json, OutputData::SecretList { env: "development", secrets: &secrets });
    let v: serde_json::Value = serde_json::from_str(out.trim()).expect("must be valid JSON");
    assert_eq!(v["secrets"].as_array().unwrap().len(), 0);
}

#[test]
fn json_item_found() {
    let out = render(OutputFormat::Json, OutputData::SecretItem { key: "API_KEY", value: "abc123" });
    let v: serde_json::Value = serde_json::from_str(out.trim()).expect("must be valid JSON");
    assert_eq!(v["key"], "API_KEY");
    assert_eq!(v["value"], "abc123");
}

#[test]
fn json_not_found() {
    let out = render(OutputFormat::Json, OutputData::NotFound { key: "MISSING" });
    let v: serde_json::Value = serde_json::from_str(out.trim()).expect("must be valid JSON");
    assert_eq!(v["error"], "key not found");
}

#[test]
fn json_export() {
    let secrets = pairs(&[("DB_PASS", "s3cr3t")]);
    let out = render(OutputFormat::Json, OutputData::ExportList { env: "production", secrets: &secrets });
    let v: serde_json::Value = serde_json::from_str(out.trim()).expect("must be valid JSON");
    assert_eq!(v["environment"], "production");
    assert_eq!(v["secrets"][0]["key"], "DB_PASS");
    assert_eq!(v["secrets"][0]["value"], "s3cr3t");
}

#[test]
fn json_output_is_compact_and_escapes_strings() {
    let secrets = pairs(&[("K", "a\"b")]);
    let out = render(OutputFormat::Json, OutputData::SecretList { env: "d", secrets: &secrets });
    assert_eq!(out, "{\"secrets\":[{\"key\":\"K\",\"value\":\"a\\\"b\"}]}\n");
}

#[test]
fn dotenv_basic() {
    let secrets = pairs(&[("API_KEY", "abc123"), ("DB_HOST", "localhost")]);
    let out = render(OutputFormat::Dotenv, OutputData::ExportList { env: "development", secrets: &secrets });
    assert_eq!(out, "API_KEY=abc123\nDB_HOST=localhost\n");
}

#[test]
fn dotenv_value_with_equals() {
    let secrets = pairs(&[("JDBC_URL", "jdbc:mysql://host/db?user=admin&pass=x")]);
    let out = render(OutputFormat::Dotenv, OutputData::ExportList { env: "development", secrets: &secrets });
    assert_eq!(out, "JDBC_URL=jdbc:mysql://host/db?user=admin&pass=x\n");
}

#[test]
fn shell_basic() {
    let secrets = pairs(&[("DB_PASS", "s3cr3t")]);
    let out = render(OutputFormat::Shell, OutputData::ExportList { env: "development", secrets: &secrets });
    assert_eq!(out, "export DB_PASS='s3cr3t'\n");
}

#[test]
fn shell_single_quote_escape() {
    let secrets = pairs(&[("MSG", "it's here")]);
    let out = render(OutputFormat::Shell, OutputData::ExportList { env: "development", secrets: &secrets });
    assert_eq!(out, "export MSG='it'\\''s here'\n");
}

#[test]
fn shell_special_chars_no_extra_escaping() {
    let secrets = pairs(&[("CMD", "$HOME/`echo foo` and \"quotes\"")]);
    let out = render(OutputFormat::Shell, OutputData::ExportList { env: "development", secrets: &secrets });
    assert_eq!(out, "export CMD='$HOME/`echo foo` and \"quotes\"'\n");
}

#[test]
fn shell_escape_unit() {
    assert_eq!(shell_escape("hello"), "hello");
    assert_eq!(shell_escape("it's"), "it'\\''s");
    assert_eq!(shell_escape("a'b'c"), "a'\\''b'\\''c");
}

#[test]
fn missing_key_writes_nothing_except_in_json() {
    assert_eq!(render(OutputFormat::Dotenv, OutputData::NotFound { key: "K" }), "");
    assert_eq!(render(OutputFormat::Shell, OutputData::NotFound { key: "K" }), "");
    assert_eq!(render(OutputFormat::Table, OutputData::NotFound { key: "K" }), "");
    assert_eq!(OutputFormat::default(), OutputFormat::Table);
}

// ---------------------------------------------------------------------------
// Time rendering
// ---------------------------------------------------------------------------

#[test]
fn epoch_to_iso8601_known_value() {
    assert_eq!(epoch_to_iso8601(0), "1970-01-01T00:00:00Z", "epoch 0 must map to 1970-01-01T00:00:00Z");
    assert_eq!(
        epoch_to_iso8601(1_000_000_000),
        "2001-09-09T01:46:40Z",
        "epoch 1000000000 must map to 2001-09-09T01:46:40Z"
    );
}

#[test]
fn iso_dates_across_leap_years_and_before_1970() {
    assert_eq!(epoch_to_iso8601(951_782_400), "2000-02-29T00:00:00Z");
    assert_eq!(epoch_to_iso8601(1_709_251_199), "2024-02-29T23:59:59Z");
    assert_eq!(epoch_to_iso8601(-86_400), "1969-12-31T00:00:00Z");
}

#[test]
fn humanize_timestamp_seconds() {
    let result = humanize_timestamp(now() - 30);
    assert!(result.contains("seconds ago"), "30 seconds ago must produce '… seconds ago', got: {result}");
}

#[test]
fn humanize_timestamp_minutes() {
    let result = humanize_timestamp(now() - 90);
    assert!(result.contains("minutes ago"), "90 seconds ago must produce '… minutes ago', got: {result}");
}

#[test]
fn humanize_timestamp_days() {
    let result = humanize_timestamp(now() - 3 * 86_400);
    assert!(result.contains("days ago"), "3 days ago must produce '… days ago', got: {result}");
}

#[test]
fn humanized_ages_at_fixed_times() {
    assert_eq!(humanize_at(100, 100), "unknown");
    assert_eq!(humanize_at(70, 100), "30 seconds ago");
    assert_eq!(humanize_at(0, 7_200), "2 hours ago");
    assert_eq!(humanize_at(0, 40 * 86_400), "1970-01-01");
}

#[test]
fn format_timestamp_returns_never_for_zero() {
    assert_eq!(format_timestamp(0), "never");
}

#[test]
fn session_ages_at_fixed_times() {
    assert_eq!(format_timestamp_at(200, 100), "future");
    assert_eq!(format_timestamp_at(100, 130), "just now");
    assert_eq!(format_timestamp_at(100, 100 + 3 * 3600), "3h ago");
    assert_eq!(format_timestamp_at(1, 1 + 60 * 86_400), "2mo ago");
    assert_eq!(format_timestamp_at(1, 1 + 800 * 86_400), "2y ago");
}

// ---------------------------------------------------------------------------
// Shell setup text
// ---------------------------------------------------------------------------

#[test]
fn snippets_put_shims_first_on_path() {
    let bash = shell_init_snippet(ShellKind::Bash);
    assert!(bash.contains("$HOME/.envy/shims:$PATH"), "bash must prepend the shims dir, got:\n{bash}");
    let zsh = shell_init_snippet(ShellKind::Zsh);
    assert!(zsh.contains("$HOME/.envy/shims:$PATH"), "zsh must prepend the shims dir, got:\n{zsh}");
    let fish = shell_init_snippet(ShellKind::Fish);
    assert!(fish.contains("$HOME/.envy/shims"), "fish must reference the shims dir, got:\n{fish}");
    let ps = shell_init_snippet(ShellKind::Powershell);
    assert!(ps.contains(".envy\\shims"), "powershell must reference the shims dir, got:\n{ps}");
    let nu = shell_init_snippet(ShellKind::Nushell);
    assert!(nu.contains(".envy"), "nushell must reference the shims dir, got:\n{nu}");
}

#[test]
fn snippets_carry_guidance_not_hooks() {
    for shell in [ShellKind::Bash, ShellKind::Zsh, ShellKind::Fish, ShellKind::Powershell, ShellKind::Nushell] {
        let s = shell_init_snippet(shell);
        assert!(s.contains("envy doctor"), "snippet for {shell:?} must point at doctor");
        assert!(s.contains("envy reshim"), "snippet for {shell:?} must point at reshim");
        for forbidden in ["__envy_hook", "chpwd", "PROMPT_COMMAND", "hide-env", "load-env"] {
            assert!(!s.contains(forbidden), "snippet for {shell:?} must not contain hook machinery ({forbidden})");
        }
    }
}

#[test]
fn oneliners_point_at_shell_init() {
    for shell in [ShellKind::Bash, ShellKind::Zsh, ShellKind::Fish, ShellKind::Powershell, ShellKind::Nushell] {
        assert!(oneliner_for_shell(shell).contains("shell-init"), "oneliner for {shell:?}");
    }
}

#[test]
fn shell_is_detected_from_the_basename() {
    assert_eq!(detect_shell("/usr/bin/zsh"), ShellKind::Zsh);
    assert_eq!(detect_shell("/opt/homebrew/bin/FISH"), ShellKind::Fish);
    assert_eq!(detect_shell("pwsh"), ShellKind::Powershell);
    assert_eq!(detect_shell("/usr/bin/nu"), ShellKind::Nushell);
    assert_eq!(detect_shell("/nu/bin/bash"), ShellKind::Bash);
    assert_eq!(detect_shell(""), ShellKind::Bash);
}

// ---------------------------------------------------------------------------
// Session helpers
// ---------------------------------------------------------------------------

#[test]
fn popup_scroll_bounds_fit_content() {
    assert_eq!(popup_inner_height(3), 5);
    assert_eq!(popup_inner_height(50), 20);
    assert_eq!(popup_max_scroll(3), 0);
    assert_eq!(popup_max_scroll(30), 10);
}

#[test]
fn palette_matches_filter_by_label_substring() {
    assert!(palette_matches("").len() == palette_actions().len());
    assert_eq!(palette_matches("seal"), vec!["seal"]);
    assert!(palette_matches("SECRET").contains(&"new"));
    assert!(palette_matches("nonexistent-action").is_empty());
}

#[test]
fn status_icons() {
    assert_eq!(sync_status_icon(&SyncStatus::InSync), '\u{2713}');
    assert_eq!(sync_status_icon(&SyncStatus::Modified), '~');
    assert_eq!(sync_status_icon(&SyncStatus::NeverSealed), '\u{b7}');
}

#[test]
fn colours_map_to_the_nearest_cube_entry() {
    assert_eq!(nearest_ansi256(Rgb(0, 0, 0)), 16);
    assert_eq!(nearest_ansi256(Rgb(255, 255, 255)), 231);
    assert_eq!(nearest_ansi256(Rgb(0x8A, 0x2B, 0xE2)), 16 + 36 * 2 + 6 * 0 + 4);
}

// ---------------------------------------------------------------------------
// Reports
// ---------------------------------------------------------------------------

#[test]
fn diff_json_no_reveal() {
    let report = compute_diff("dev", &pairs(&[("A", "1"), ("B", "new")]), &pairs(&[("B", "old")]));
    let text = write_diff_json(&report, "dev", false);
    let json: serde_json::Value = serde_json::from_str(&text).expect("valid JSON");
    assert_eq!(json["has_differences"], true);
    assert_eq!(json["summary"]["total"], 2);
    for change in json["changes"].as_array().unwrap() {
        assert!(change.get("old_value").is_none(), "old_value must be absent without --reveal");
        assert!(change.get("new_value").is_none(), "new_value must be absent without --reveal");
    }
}

#[test]
fn diff_json_with_reveal() {
    let report = compute_diff(
        "dev",
        &pairs(&[("ADDED", "secret"), ("MOD", "new")]),
        &pairs(&[("MOD", "old"), ("REMOVED", "removed_val")]),
    );
    let json: serde_json::Value = serde_json::from_str(&write_diff_json(&report, "dev", true)).unwrap();
    let changes = json["changes"].as_array().unwrap();
    let added = changes.iter().find(|c| c["key"] == "ADDED").unwrap();
    assert_eq!(added["old_value"], serde_json::Value::Null);
    assert_eq!(added["new_value"], "secret");
    let modified = changes.iter().find(|c| c["key"] == "MOD").unwrap();
    assert_eq!(modified["old_value"], "old");
    assert_eq!(modified["new_value"], "new");
    let removed = changes.iter().find(|c| c["key"] == "REMOVED").unwrap();
    assert_eq!(removed["old_value"], "removed_val");
    assert_eq!(removed["new_value"], serde_json::Value::Null);
}

#[test]
fn diff_json_no_differences() {
    let report = compute_diff("dev", &pairs(&[("A", "1")]), &pairs(&[("A", "1")]));
    let text = write_diff_json(&report, "dev", false);
    let json: serde_json::Value = serde_json::from_str(&text).unwrap();
    assert_eq!(json["has_differences"], false);
    assert_eq!(json["changes"].as_array().unwrap().len(), 0);
    assert_eq!(json["summary"]["added"], 0);
    assert_eq!(json["summary"]["removed"], 0);
    assert_eq!(json["summary"]["modified"], 0);
    assert_eq!(json["summary"]["total"], 0);
    assert_eq!(
        text,
        "{\n  \"changes\": [],\n  \"environment\": \"dev\",\n  \"has_differences\": false,\n  \"summary\": {\n    \"added\": 0,\n    \"modified\": 0,\n    \"removed\": 0,\n    \"total\": 0\n  }\n}\n"
    );
}

#[test]
fn diff_json_type_strings() {
    let report = compute_diff("dev", &pairs(&[("A", "1"), ("M", "2")]), &pairs(&[("M", "3"), ("R", "4")]));
    let json: serde_json::Value = serde_json::from_str(&write_diff_json(&report, "dev", false)).unwrap();
    let types: Vec<&str> = json["changes"].as_array().unwrap().iter().map(|c| c["type"].as_str().unwrap()).collect();
    assert!(types.contains(&"added"), "must contain 'added'");
    assert!(types.contains(&"removed"), "must contain 'removed'");
    assert!(types.contains(&"modified"), "must contain 'modified'");
}

#[test]
fn diff_table_lists_changes_and_summary() {
    let report = compute_diff("dev", &pairs(&[("A", "1")]), &pairs(&[("B", "2")]));
    let table = render_diff_table(&report, true, false, false, false);
    assert_eq!(
        table,
        "envy diff: dev (vault \u{2194} envy.enc)\n\n  + A\n    vault:    1\n\n  - B\n    artifact: 2\n\n2 changes: 1 added, 1 removed, 0 modified\n"
    );
    let clean = compute_diff("dev", &Vec::new(), &Vec::new());
    assert_eq!(render_diff_table(&clean, false, true, false, false), "envy diff: dev \u{2014} no differences\n");
    assert_eq!(colorize("x", "32", true), "\u{1b}[32mx\u{1b}[0m");
    assert_eq!(colorize("x", "32", false), "x");
}

fn row(name: &str, status: SyncStatus, last: Option<i64>) -> StatusRow {
    StatusRow {
        name: name.to_string(),
        secret_count: 2,
        last_modified_at: last,
        sealed_at: None,
        sync_status: status,
        stale_secrets: Vec::new(),
    }
}

#[test]
fn status_json_output_is_valid_json() {
    let rows = vec![row("development", SyncStatus::NeverSealed, Some(0)), row("production", SyncStatus::Modified, None)];
    let meta = artifact_metadata(Err(SyncError::FileNotFound("envy.enc".into())), Some(5));
    let text = status_json(&rows, "/p/envy.enc", &meta);
    let json: serde_json::Value = serde_json::from_str(text.trim()).expect("valid JSON");
    assert_eq!(json["environments"][0]["status"], "never_sealed");
    assert_eq!(json["environments"][0]["last_modified_at"], "1970-01-01T00:00:00Z");
    assert_eq!(json["environments"][1]["status"], "modified");
    assert_eq!(json["environments"][1]["last_modified_at"], serde_json::Value::Null);
    assert_eq!(json["artifact"]["found"], false);
    assert_eq!(json["artifact"]["path"], "/p/envy.enc");
    assert_eq!(json["artifact"]["last_modified_at"], serde_json::Value::Null);
}

#[test]
fn artifact_metadata_distinguishes_missing_and_malformed() {
    let malformed = artifact_metadata(Err(SyncError::Io("bad".into())), Some(7));
    assert!(!malformed.found && malformed.malformed && malformed.last_modified_at == Some(7));
    let found: ArtifactMetadata = artifact_metadata(Ok(envy::engine::sync::new_empty_artifact()), Some(9));
    assert!(found.found && !found.malformed && found.environments.is_empty());
}

#[test]
fn status_json_status_strings_are_lowercase() {
    // A secret written long after a very old seal: the environment is modified.
    let aggregate = EnvironmentStatus {
        id: EnvId("env".to_string()),
        name: "development".to_string(),
        secret_count: 1,
        last_modified_at: Some(1_700_000_000),
        sealed_at: Some(1_000),
    };
    let rows = vec![status_row(&aggregate, Vec::new())];
    let meta = artifact_metadata(Err(SyncError::FileNotFound("envy.enc".into())), None);
    let json_str = status_json(&rows, "envy.enc", &meta);
    let parsed: serde_json::Value = serde_json::from_str(json_str.trim()).expect("valid JSON");
    let status = parsed["environments"][0]["status"].as_str().expect("status must be a string");
    assert_eq!(status, "modified", "status must be lowercase 'modified', got: {status}");
}

#[test]
fn shell_init_prints_path_line_without_project_or_keyring() {
    // `envy shell-init bash` prints this text and nothing else.
    let stdout = shell_init_snippet(ShellKind::Bash);
    assert!(stdout.contains("$HOME/.envy/shims:$PATH"), "bash snippet must prepend the shims dir, got: {stdout:?}");
    assert!(stdout.contains("envy doctor"), "snippet must point at doctor, got: {stdout:?}");
    assert!(!stdout.contains("__envy_hook"), "no hook machinery may remain, got: {stdout:?}");
}

fn strip_text(width: u16, workspace: &str) -> Vec<String> {
    compact_spans(width, "0.1.0", workspace)
}

#[test]
fn compact_strip_is_enriched_on_wide_terminals() {
    let spans = strip_text(80, "envy-project");
    assert_eq!(spans[0], " ENVY ");
    assert!(spans[1].starts_with(" \u{b7} v"), "version span: {}", spans[1]);
    assert_eq!(spans[2], " \u{b7} envy-project");
}

#[test]
fn compact_strip_degrades_to_wordmark_on_narrow_terminals() {
    assert_eq!(strip_text(39, "workspace"), vec![" ENVY ".to_string()]);
    assert_eq!(strip_text(120, "workspace")[0], " ENVY ");
}

#[test]
fn compact_strip_never_leaks_without_workspace() {
    // The strip is identity-only metadata: no artifact or secret text.
    let spans = strip_text(80, "any-dir");
    let joined = spans.join("");
    assert!(!joined.contains("envy.enc"));
    assert!(!joined.contains('/'), "workspace label must be a bare name");
}

#[test]
fn hidden_values_show_at_least_eight_stars() {
    assert_eq!(display("abc", false), "********");
    assert_eq!(display("0123456789", false), "**********");
    assert_eq!(display("h\u{e9}llo-w\u{f6}rld", false), "***********");
    assert_eq!(display("abc", true), "abc");
}

fn leak(key: &str, env: &str, line: usize, value: Option<&str>) -> LineMatch {
    LineMatch {
        key: key.to_string(),
        environment: env.to_string(),
        line,
        value: value.map(|v| v.to_string()),
    }
}

#[test]
fn scan_json_lists_leaks_with_sorted_members() {
    let found = vec![
        ("config/.env".to_string(), leak("API_KEY", "development", 3, None)),
        ("notes.txt".to_string(), leak("DB_URL", "production", 12, Some("pg://x\"y"))),
    ];
    let text = scan_json(&found);
    assert_eq!(
        text,
        "{\"leaks\":[{\"environment\":\"development\",\"key\":\"API_KEY\",\"line\":3,\"path\":\"config/.env\"},{\"environment\":\"production\",\"key\":\"DB_URL\",\"line\":12,\"path\":\"notes.txt\",\"value\":\"pg://x\\\"y\"}]}\n"
    );
    let json: serde_json::Value = serde_json::from_str(text.trim()).expect("valid JSON");
    assert_eq!(json["leaks"][1]["value"], "pg://x\"y");
    assert_eq!(scan_json(&Vec::new()), "{\"leaks\":[]}\n");
}

#[test]
fn scan_report_masks_values_and_counts_leaks() {
    assert_eq!(scan_report(&Vec::new(), false), "No plaintext copies of vault secrets found.\n");
    let found = vec![
        (".env".to_string(), leak("TOKEN", "development", 1, None)),
        ("a.txt".to_string(), leak("TOKEN", "development", 9, Some("s3cret"))),
    ];
    assert_eq!(
        scan_report(&found, false),
        ".env:1  TOKEN (development)  ********\na.txt:9  TOKEN (development)  s3cret\n2 leak(s) found.\n"
    );
    assert_eq!(
        scan_report(&vec![(".env".to_string(), leak("TOKEN", "development", 1, None))], true),
        ".env:1  TOKEN (development)  \u{1b}[31m********\u{1b}[0m\n1 leak(s) found.\n"
    );
}

#[test]
fn audit_json_has_iso_times_and_null_keys() {
    let entries = vec![
        AuditEntry { environment: "development".into(), action: "set".into(), key: Some("API".into()), created_at: 0 },
        AuditEntry { environment: "production".into(), action: "run".into(), key: None, created_at: 1_000_000_000 },
    ];
    assert_eq!(
        audit_json(&entries),
        "[{\"action\":\"set\",\"created_at\":\"1970-01-01T00:00:00Z\",\"environment\":\"development\",\"key\":\"API\"},{\"action\":\"run\",\"created_at\":\"2001-09-09T01:46:40Z\",\"environment\":\"production\",\"key\":null}]\n"
    );
    assert_eq!(audit_json(&Vec::new()), "[]\n");
}

#[test]
fn scans_skip_empty_and_oversized_files() {
    assert!(!scannable_size(0));
    assert!(scannable_size(1));
    assert!(scannable_size(MAX_FILE_BYTES));
    assert!(!scannable_size(MAX_FILE_BYTES + 1));
}

#[test]
fn json_strings_are_escaped_as_serde_json_writes_them() {
    let samples = ["plain", "quote \" and \\ slash", "tab\tnew\nline\r", "\u{8}\u{c}\u{0}\u{1f}\u{7f}", "caf\u{e9} \u{1f600}", ""];
    for s in samples {
        let mut out = String::new();
        envy::cli::format::push_json_string(&mut out, s);
        assert_eq!(out, serde_json::to_string(s).unwrap(), "escaping {s:?}");
    }
    let mut out = String::from(">");
    envy::cli::format::push_json_string(&mut out, "\u{1b}");
    assert_eq!(out, ">\"\\u001b\"");
}
