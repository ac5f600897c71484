use envy::cli::panes::{
    banner_height, centered, palette_prompt, palette_rows, picker_prompt, picker_rows, popup_height, popup_view,
    search_line, secret_rows, secrets_notice, secrets_title, selected_row, sidebar_rows, sidebar_title, status_bar, Area,
};
use envy::cli::session::{Focus, PassphrasePurpose, RotateStage, VaultState};
use envy::cli::state::{App, EnvironmentSummary, Popup, ProjectSummary, SecretEntry};
use envy::db::{EnvId, ProjectId};
use envy::engine::status::SyncStatus;

fn project(id: &str, name: &str) -> ProjectSummary {
    ProjectSummary { id: ProjectId(id.into()), name: name.into() }
}

fn env(name: &str) -> EnvironmentSummary {
    EnvironmentSummary { id: EnvId(name.into()), name: name.into() }
}

fn secret(key: &str, value: &str, updated_at: i64, revealed: bool) -> SecretEntry {
    SecretEntry { key: key.into(), value: value.into(), updated_at, revealed }
}

fn app() -> App {
    App::new(vec![project("p1", "api"), project("p2", "web")], false)
}

#[test]
fn dialogs_are_centred_and_capped() {
    let screen = Area { x: 0, y: 0, width: 100, height: 40 };
    assert_eq!(centered(screen, 72, 11), Area { x: 14, y: 14, width: 72, height: 11 });
    let small = Area { x: 2, y: 1, width: 50, height: 8 };
    assert_eq!(centered(small, 72, 11), Area { x: 2, y: 1, width: 50, height: 8 });
}

#[test]
fn dialog_height_follows_its_lines() {
    assert_eq!(popup_height(3, 0), 7);
    assert_eq!(popup_height(12, 0), 14);
    assert_eq!(popup_height(40, 0), 22);
    assert_eq!(popup_height(0, 2), 7);
    assert_eq!(popup_height(0, 7), 9);
    assert_eq!(popup_height(0, 30), 11);
}

#[test]
fn status_bar_shows_lock_state_environment_and_hints() {
    let mut app = app();
    assert_eq!(
        status_bar(&app),
        " [Unlocked]  no environment | Ready \u{2014} press ? for help [?] Help  \u{2191}\u{2193} Navigate  Enter Select  Tab Panel  Q Quit"
    );
    app.set_environments(vec![env("development")]);
    app.vault_state = VaultState::Locked;
    app.working = true;
    app.status = "Sealing".into();
    assert_eq!(status_bar(&app), " [Locked]  development | Sealing Working...");
    assert_eq!(search_line(&app), None);
    app.search_active = true;
    app.search = "db".into();
    assert_eq!(search_line(&app), Some(" Find: db".to_string()));
    assert_eq!(banner_height(&app), 1);
    assert_eq!(banner_height(&App::new(Vec::new(), true)), 5);
}

#[test]
fn new_secret_dialog_masks_the_value() {
    let mut app = app();
    app.popup = Some(Popup::New { key: "API".into(), value: "abc".into(), editing_value: true, revealed: false });
    let view = popup_view(&app).expect("dialog open");
    assert_eq!(view.title, "New secret");
    assert_eq!(
        view.text,
        "Key: API\n(editing) Value: ********\n\nEnter=next field/save  Tab=switch field  Ctrl+R=reveal  Esc=cancel"
    );
    assert_eq!((view.lines, view.scroll), (0, 0));
}

#[test]
fn delete_dialogs_name_what_goes() {
    let mut app = app();
    app.set_environments(vec![env("staging")]);
    app.secrets = vec![secret("TOKEN", "t", 0, false)];
    app.popup = Some(Popup::Delete { index: 0 });
    assert_eq!(popup_view(&app).unwrap().text, "Delete 'TOKEN' from staging?\n\nEnter=confirm  Esc=cancel");
    app.popup = Some(Popup::Edit { index: 5, value: "v".into(), revealed: true });
    let edit = popup_view(&app).unwrap();
    assert_eq!(edit.title, "Edit secret \u{2014} ?");
    assert_eq!(edit.text, "Value: v\n\nCtrl+R=reveal  Enter=save  Esc=cancel");
    app.popup = Some(Popup::DeleteProject {
        name: "api".into(),
        environment_count: 2,
        secret_count: 13,
        confirmation: "ap".into(),
    });
    let view = popup_view(&app).unwrap();
    assert_eq!(view.title, "Delete project \u{2014} IRREVERSIBLE");
    assert_eq!(
        view.text,
        "Project: api\nThis permanently deletes 2 environment(s) and 13 secret(s).\n\nType the project name to confirm:\n> ap\n\nEnter=confirm  Esc=cancel"
    );
}

#[test]
fn seal_preview_lists_counts_and_scrolls() {
    let mut app = app();
    app.popup = Some(Popup::ConfirmSeal {
        project: "api".into(),
        environments: vec![("development".into(), 3), ("production".into(), 1)],
        scroll: 2,
    });
    let view = popup_view(&app).unwrap();
    assert_eq!(view.title, "Seal to envy.enc (\u{2191}\u{2193} scroll)");
    assert_eq!(
        view.text,
        "Seal project 'api' into envy.enc?\n\n  development  (3 secrets)\n  production  (1 secrets)\n\nEnvironments already sealed keep their passphrase.\n\nEnter=seal  Esc=cancel"
    );
    assert_eq!(view.lines, view.text.lines().count());
    assert_eq!(view.scroll, 2);
}

#[test]
fn rotate_and_passphrase_dialogs() {
    let mut app = app();
    app.popup = Some(Popup::Rotate {
        environment: "production".into(),
        stage: RotateStage::New,
        current: "old".into(),
        new_pass: "fresh-pass".into(),
        confirm: String::new(),
        revealed: false,
    });
    let view = popup_view(&app).unwrap();
    assert_eq!(view.title, "Rotate passphrase \u{2014} production");
    assert_eq!(view.text, "step 2/3  New passphrase: **********\n\nCtrl+R=reveal  Enter=next  Esc=cancel");
    app.popup = Some(Popup::Passphrase { environment: "staging".into(), value: "x".into(), purpose: PassphrasePurpose::Decrypt });
    let view = popup_view(&app).unwrap();
    assert_eq!(view.title, "Import passphrase");
    assert_eq!(view.text, "staging\nPassphrase: ********\n\nEnter=continue  Esc=cancel");
}

#[test]
fn scrolling_dialogs_report_their_line_count() {
    let mut app = app();
    app.popup = Some(Popup::Diff { text: "a\nb\nc".into(), scroll: 1 });
    let view = popup_view(&app).unwrap();
    assert_eq!((view.title.as_str(), view.lines, view.scroll), ("Diff (\u{2191}\u{2193} scroll)", 3, 1));
    app.popup = Some(Popup::Help { scroll: 0 });
    let help = popup_view(&app).unwrap();
    assert!(help.text.starts_with("NAVIGATION"));
    assert_eq!(help.lines, help.text.lines().count());
    app.popup = Some(Popup::ProjectPicker { query: String::new(), index: 0 });
    assert!(popup_view(&app).is_none());
    app.popup = None;
    assert!(popup_view(&app).is_none());
}

#[test]
fn palette_rows_mark_the_selected_command() {
    let mut app = app();
    app.command_query = "VAULT".into();
    app.palette_index = 1;
    assert_eq!(palette_rows(&app), vec!["  Lock vault".to_string(), "> Unlock vault".to_string()]);
    assert_eq!(palette_prompt(&app), "Run command: VAULT");
}

#[test]
fn picker_rows_filter_projects_by_name() {
    let app = App::new(vec![project("a", "Billing"), project("b", "web"), project("c", "bill-jobs")], false);
    assert_eq!(picker_rows(&app, "BILL", 0), vec!["> Billing".to_string(), "  bill-jobs".to_string()]);
    assert_eq!(picker_prompt("BILL"), "Search: BILL");
    assert_eq!(selected_row(5, 2), 1);
    assert_eq!(selected_row(0, 0), 0);
    assert_eq!(selected_row(1, 3), 1);
}

#[test]
fn sidebar_rows_show_fold_state_and_sync_icons() {
    let mut app = app();
    app.set_environments(vec![env("development"), env("production")]);
    app.set_sync_statuses(vec![SyncStatus::InSync]);
    app.expanded = true;
    app.active_environment = 1;
    assert_eq!(
        sidebar_rows(&app),
        vec![
            ">\u{25be} api \u{2605}".to_string(),
            "    \u{2713}   development".to_string(),
            "      \u{25b6} production".to_string(),
            "   web".to_string(),
        ]
    );
    assert_eq!(sidebar_title(&app), " Projects \u{2605}");
    app.focus = Focus::Secrets;
    assert_eq!(sidebar_title(&app), " Projects");
    assert_eq!(secrets_title(&app), " Secrets \u{2605}");
}

#[test]
fn secrets_pane_notices_and_rows() {
    let mut app = app();
    app.vault_state = VaultState::Locked;
    assert_eq!(secrets_notice(&app), Some("Vault locked. Press U to unlock."));
    app.vault_state = VaultState::Unlocked;
    assert!(secrets_notice(&app).unwrap().starts_with("No environment selected."));
    app.set_environments(vec![env("development")]);
    assert_eq!(secrets_notice(&app), Some("No secrets. Press N to create one."));
    app.secrets = vec![secret("API_KEY", "k-123", 1_000, true), secret("DB_URL", "pg://", 0, false)];
    app.search = "zzz".into();
    assert_eq!(secrets_notice(&app), Some("No matching secrets. Press Esc to clear search."));
    app.search = String::new();
    assert_eq!(secrets_notice(&app), None);
    let rows = secret_rows(&app, 1_000 + 3 * 3600);
    assert_eq!(
        rows,
        vec![
            ("API_KEY".to_string(), "k-123".to_string(), "3h ago".to_string()),
            ("DB_URL".to_string(), "********".to_string(), "never".to_string()),
        ]
    );
}
