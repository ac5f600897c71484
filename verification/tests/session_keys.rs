use envy::cli::flow::{SealStep, diff_text, resolve_passphrase_values, session_passphrase_var, status_text, workspace_context, SidebarLoad};
use envy::engine::discover::DiscoveredProject;
use envy::engine::diff::compute_diff;
use envy::cli::keys::{command_for, scroll_step, Command, Key, Request};
use envy::engine::status::{StatusRow, SyncStatus};
use envy::cli::session::{Focus, PassphrasePurpose, RotateStage, SidebarEntry};
use envy::cli::state::{App, EnvironmentSummary, Popup, ProjectSummary, SecretEntry};
use envy::db::{EnvId, ProjectId};

fn projects(names: &[&str]) -> Vec<ProjectSummary> {
    names.iter().enumerate().map(|(i, n)| ProjectSummary { id: ProjectId(i.to_string()), name: n.to_string() }).collect()
}

fn app() -> App {
    App::new(projects(&["alpha", "beta"]), false)
}

fn type_text(app: &mut App, text: &str) {
    for c in text.chars() {
        app.handle_key(Key::Char(c), false);
    }
}

#[test]
fn palette_filters_and_runs_the_selected_entry() {
    let mut app = app();
    assert!(matches!(app.handle_key(Key::Char(':'), false), Request::Nothing));
    assert!(app.command_mode);
    type_text(&mut app, "seal");
    assert_eq!(app.command_query, "seal");
    assert!(matches!(app.handle_key(Key::Enter, false), Request::Run(Command::Seal)));
    assert!(!app.command_mode);
}

#[test]
fn palette_selection_stays_within_matches() {
    let mut app = app();
    app.handle_key(Key::Char(':'), false);
    type_text(&mut app, "secret");
    for _ in 0..10 {
        app.handle_key(Key::Down, false);
    }
    // "secret" matches New, Edit, Delete and Filter secrets: the last is index 3.
    assert_eq!(app.palette_index, 3);
    app.handle_key(Key::Up, false);
    assert_eq!(app.palette_index, 2);
    app.handle_key(Key::Backspace, false);
    assert_eq!(app.command_query, "secre");
    assert_eq!(app.palette_index, 0);
    assert!(matches!(app.handle_key(Key::Esc, false), Request::Nothing));
    assert!(!app.command_mode);
}

#[test]
fn palette_filter_banner_and_quit_are_handled_in_place() {
    let mut app = app();
    assert!(matches!(app.run_palette_entry("filter"), Request::Nothing));
    assert!(app.search_active);
    let banner = app.compact_banner;
    assert!(matches!(app.run_palette_entry("banner"), Request::Nothing));
    assert_eq!(app.compact_banner, !banner);
    assert!(matches!(app.run_palette_entry("quit"), Request::Quit));
    assert!(matches!(app.run_palette_entry("picker"), Request::Run(Command::SwitchProject)));
    assert!(matches!(app.run_palette_entry("nope"), Request::Nothing));
    assert_eq!(command_for("delete-project"), Some(Command::DeleteProject));
    assert_eq!(command_for("quit"), None);
}

#[test]
fn new_secret_dialog_types_key_then_value_then_saves() {
    let mut app = app();
    app.popup = Some(Popup::New { key: String::new(), value: String::new(), editing_value: false, revealed: false });
    type_text(&mut app, "API_KEYX");
    app.handle_key(Key::Backspace, false);
    assert!(matches!(app.handle_key(Key::Char('r'), true), Request::Nothing));
    match &app.popup {
        Some(Popup::New { key, revealed, editing_value, .. }) => {
            assert_eq!(key, "API_KEY");
            assert!(*revealed);
            assert!(!*editing_value);
        },
        other => panic!("unexpected dialog: {other:?}"),
    }
    app.handle_key(Key::Enter, false);
    type_text(&mut app, "s3cr3t");
    match app.handle_key(Key::Enter, false) {
        Request::SaveNewSecret { key, value } => {
            assert_eq!(key, "API_KEY");
            assert_eq!(value, "s3cr3t");
        },
        other => panic!("unexpected request: {other:?}"),
    }
    assert!(app.popup.is_none());
}

#[test]
fn edit_and_delete_dialogs_name_the_secret_index() {
    let mut app = app();
    app.popup = Some(Popup::Edit { index: 2, value: "old".into(), revealed: false });
    app.handle_key(Key::Backspace, false);
    app.handle_key(Key::Char('!'), false);
    match app.handle_key(Key::Enter, false) {
        Request::UpdateSecret { index, value } => {
            assert_eq!(index, 2);
            assert_eq!(value, "ol!");
        },
        other => panic!("unexpected request: {other:?}"),
    }
    app.popup = Some(Popup::Delete { index: 1 });
    assert!(matches!(app.handle_key(Key::Char('x'), false), Request::Nothing));
    assert!(app.popup.is_some());
    assert!(matches!(app.handle_key(Key::Enter, false), Request::DeleteSecret { index: 1 }));
    assert!(app.popup.is_none());
}

#[test]
fn project_deletion_requires_the_exact_name() {
    let mut app = app();
    app.popup = Some(Popup::DeleteProject {
        name: "alpha".into(),
        environment_count: 1,
        secret_count: 3,
        confirmation: String::new(),
    });
    type_text(&mut app, "alph");
    assert!(matches!(app.handle_key(Key::Enter, false), Request::Nothing));
    assert_eq!(app.status, "Type the project name exactly to confirm");
    assert!(app.status_is_error);
    type_text(&mut app, "a");
    match app.handle_key(Key::Enter, false) {
        Request::DeleteProject { name } => assert_eq!(name, "alpha"),
        other => panic!("unexpected request: {other:?}"),
    }
}

#[test]
fn rotate_dialog_validates_each_stage() {
    let mut app = app();
    app.popup = Some(Popup::Rotate {
        environment: "production".into(),
        stage: RotateStage::Current,
        current: String::new(),
        new_pass: String::new(),
        confirm: String::new(),
        revealed: false,
    });
    app.handle_key(Key::Enter, false);
    assert_eq!(app.status, "Current passphrase must not be empty");
    type_text(&mut app, "old");
    app.handle_key(Key::Enter, false);
    type_text(&mut app, "old");
    app.handle_key(Key::Enter, false);
    assert_eq!(app.status, "New passphrase must differ from the current one");
    app.handle_key(Key::Backspace, false);
    app.handle_key(Key::Backspace, false);
    app.handle_key(Key::Backspace, false);
    type_text(&mut app, "fresh");
    app.handle_key(Key::Enter, false);
    type_text(&mut app, "frezh");
    app.handle_key(Key::Enter, false);
    assert_eq!(app.status, "Passphrases do not match");
    app.handle_key(Key::Backspace, false);
    app.handle_key(Key::Backspace, false);
    type_text(&mut app, "sh");
    match app.handle_key(Key::Enter, false) {
        Request::Rotate { environment, current, new_pass } => {
            assert_eq!(environment, "production");
            assert_eq!(current, "old");
            assert_eq!(new_pass, "fresh");
        },
        other => panic!("unexpected request: {other:?}"),
    }
    assert!(app.popup.is_some(), "the dialog stays until the rotation succeeds");
}

#[test]
fn project_picker_filters_and_opens_the_match() {
    let mut app = App::new(projects(&["web", "api", "worker"]), false);
    app.popup = Some(Popup::ProjectPicker { query: String::new(), index: 0 });
    type_text(&mut app, "w");
    app.handle_key(Key::Down, false);
    app.handle_key(Key::Down, false);
    match app.handle_key(Key::Enter, false) {
        Request::OpenProject { index } => assert_eq!(index, 2),
        other => panic!("unexpected request: {other:?}"),
    }
    assert_eq!(app.active_project, 2);
    assert!(app.expanded);
    app.popup = Some(Popup::ProjectPicker { query: "zzz".into(), index: 0 });
    assert!(matches!(app.handle_key(Key::Enter, false), Request::Nothing));
    assert_eq!(app.status, "No matching projects");
    assert!(app.popup.is_none());
}

#[test]
fn text_dialogs_scroll_and_close() {
    assert_eq!(scroll_step(Key::Down, 30, 9), Some(10));
    assert_eq!(scroll_step(Key::Down, 30, 10), Some(10));
    assert_eq!(scroll_step(Key::PageDown, 30, 3), Some(10));
    assert_eq!(scroll_step(Key::Char('k'), 30, 0), Some(0));
    assert_eq!(scroll_step(Key::End, 50, 0), Some(30));
    assert_eq!(scroll_step(Key::Char('x'), 50, 0), None);
    let mut app = app();
    app.popup = Some(Popup::Diff { text: "a\nb".into(), scroll: 0 });
    app.handle_key(Key::Char('x'), false);
    assert!(app.popup.is_some());
    app.handle_key(Key::Char('g'), false);
    assert!(app.popup.is_none());
    app.popup = Some(Popup::Help { scroll: 0 });
    app.handle_key(Key::End, false);
    assert!(matches!(app.popup, Some(Popup::Help { scroll }) if scroll > 0));
    app.handle_key(Key::Char('?'), false);
    assert!(app.popup.is_none());
}

#[test]
fn passphrase_dialog_hands_over_or_cancels() {
    let mut app = app();
    app.popup = Some(Popup::Passphrase { environment: "dev".into(), value: String::new(), purpose: PassphrasePurpose::Diff });
    type_text(&mut app, "pw");
    match app.handle_key(Key::Enter, false) {
        Request::SubmitPassphrase { environment, value, purpose } => {
            assert_eq!(environment, "dev");
            assert_eq!(value, "pw");
            assert_eq!(purpose, PassphrasePurpose::Diff);
        },
        other => panic!("unexpected request: {other:?}"),
    }
    app.popup = Some(Popup::Passphrase { environment: "dev".into(), value: String::new(), purpose: PassphrasePurpose::Sync });
    assert!(matches!(app.handle_key(Key::Esc, false), Request::CancelSync));
    app.popup = Some(Popup::ConfirmSeal {
        project: "alpha".into(),
        environments: vec![("development".into(), 2), ("production".into(), 5)],
        scroll: 0,
    });
    match app.handle_key(Key::Enter, false) {
        Request::Seal { environments } => assert_eq!(environments, vec!["development", "production"]),
        other => panic!("unexpected request: {other:?}"),
    }
}

#[test]
fn panel_keys_route_to_commands_and_navigation() {
    let mut app = app();
    assert!(matches!(app.handle_key(Key::Esc, false), Request::Nothing));
    assert_eq!(app.status, "Press Q to quit");
    assert!(matches!(app.handle_key(Key::Char('s'), false), Request::Run(Command::Seal)));
    assert!(matches!(app.handle_key(Key::Char('Y'), false), Request::Run(Command::Import)));
    assert!(matches!(app.handle_key(Key::Enter, false), Request::SelectSidebarEntry));
    app.handle_key(Key::Down, false);
    assert_eq!(app.sidebar_cursor, 1);
    app.active_project = 1;
    app.expanded = true;
    app.environments = vec![EnvironmentSummary { id: EnvId("e".into()), name: "development".into() }];
    app.handle_key(Key::Down, false);
    assert_eq!(app.current_sidebar_entry(), Some(SidebarEntry::Environment(1, 0)));
    app.handle_key(Key::Left, false);
    assert!(!app.expanded);
    assert_eq!(app.sidebar_cursor, 1);
    app.handle_key(Key::Tab, false);
    assert_eq!(app.focus, Focus::Secrets);
    app.secrets = vec![SecretEntry { key: "K".into(), value: "v".into(), updated_at: 0, revealed: false }];
    assert!(matches!(app.handle_key(Key::Char('y'), false), Request::Run(Command::CopySecret)));
    app.handle_key(Key::Char(' '), false);
    assert!(app.secrets[0].revealed);
    app.handle_key(Key::Char('f'), false);
    type_text(&mut app, "k");
    app.handle_key(Key::Enter, false);
    assert!(!app.search_active);
    assert_eq!(app.search, "k");
    assert!(matches!(app.handle_key(Key::Char('q'), false), Request::Quit));
}

#[test]
fn pasting_goes_to_the_field_being_typed() {
    let mut app = app();
    app.handle_paste("\u{1}\u{7f}");
    assert!(app.popup.is_none());
    app.popup = Some(Popup::Passphrase { environment: "dev".into(), value: "a".into(), purpose: PassphrasePurpose::Decrypt });
    app.handle_paste("b\nc");
    assert!(matches!(&app.popup, Some(Popup::Passphrase { value, .. }) if value == "abc"));
    app.search_active = true;
    app.secret_index = 4;
    app.handle_paste("KEY\t");
    assert_eq!(app.search, "KEY");
    assert_eq!(app.secret_index, 0);
    app.command_mode = true;
    app.palette_index = 2;
    app.handle_paste("lo");
    assert_eq!(app.command_query, "lo");
    assert_eq!(app.palette_index, 0);
}

#[test]
fn opening_sidebar_rows_selects_and_folds() {
    let mut app = app();
    app.sidebar_cursor = 1;
    assert_eq!(app.select_sidebar_entry(), SidebarLoad::Project(1));
    assert_eq!(app.active_project, 1);
    assert!(app.expanded);
    assert_eq!(app.status, "Project selected \u{2014} press Down for environments");
    app.environments = vec![EnvironmentSummary { id: EnvId("e".into()), name: "development".into() }];
    app.cursor_to_project(1);
    assert_eq!(app.sidebar_cursor, 1);
    app.sidebar_cursor = 2;
    assert_eq!(app.select_sidebar_entry(), SidebarLoad::Environment);
    assert_eq!(app.active_environment, 0);
    assert_eq!(app.status, "Environment selected \u{2014} Tab opens secrets");
    app.sidebar_cursor = 1;
    assert_eq!(app.select_sidebar_entry(), SidebarLoad::Nothing);
    assert!(!app.expanded);
    assert_eq!(app.status, "Project collapsed");
    app.sidebar_cursor = 9;
    assert_eq!(app.select_sidebar_entry(), SidebarLoad::Nothing);
}

#[test]
fn seal_preview_lists_only_environments_with_secrets() {
    let mut app = app();
    app.propose_seal("alpha", &vec![("development".to_string(), 2), ("staging".to_string(), 0), ("production".to_string(), 5)]);
    match &app.popup {
        Some(Popup::ConfirmSeal { project, environments, scroll }) => {
            assert_eq!(project, "alpha");
            assert_eq!(environments, &vec![("development".to_string(), 2), ("production".to_string(), 5)]);
            assert_eq!(*scroll, 0);
        },
        other => panic!("unexpected dialog: {other:?}"),
    }
    let mut app = self::app();
    app.propose_seal("alpha", &vec![("staging".to_string(), 0)]);
    assert!(app.popup.is_none());
    assert_eq!(app.status, "No environments with secrets to seal");
    assert!(app.status_is_error);
}

#[test]
fn project_list_keeps_workspace_projects_and_clamps_selection() {
    let mut app = App::new(projects(&["a", "b", "c"]), false);
    app.active_project = 2;
    app.keep_projects(projects(&["a", "b", "c"]), &vec!["0".to_string(), "1".to_string()]);
    assert_eq!(app.projects.len(), 2);
    assert_eq!(app.projects[1].name, "b");
    assert_eq!(app.active_project, 1);
    assert!(app.expanded);
    app.keep_projects(projects(&["a"]), &Vec::new());
    assert!(app.projects.is_empty());
    assert_eq!(app.active_project, 0);
}

#[test]
fn status_report_text_matches_the_column_layout() {
    let now = 1_000_000i64;
    let rows = vec![
        StatusRow {
            name: "development".into(),
            secret_count: 3,
            last_modified_at: Some(now - 500),
            sealed_at: Some(now - 120),
            sync_status: SyncStatus::InSync,
            stale_secrets: vec![],
        },
        StatusRow {
            name: "production".into(),
            secret_count: 12,
            last_modified_at: Some(now - 10),
            sealed_at: None,
            sync_status: SyncStatus::NeverSealed,
            stale_secrets: vec!["A".into(), "B".into()],
        },
    ];
    let expected = format!(
        "Status for demo\n\n  {:<16} {:>3} secrets  {:<12}  sealed: {}\n  {:<16} {:>3} secrets  {:<12}  sealed: {}\n    stale (>{}d): {}\n",
        "development", 3, "in sync", "2m ago", "production", 12, "never sealed", "never", 90, "A, B"
    );
    assert_eq!(status_text("demo", &rows, 90, now), expected);
}

#[test]
fn session_diff_text_lists_changed_keys_without_values() {
    let vault = vec![("A".to_string(), "1".to_string()), ("B".to_string(), "new".to_string())];
    let artifact = vec![("B".to_string(), "old".to_string()), ("C".to_string(), "3".to_string())];
    let report = compute_diff("development", &vault, &artifact);
    assert_eq!(
        diff_text("development", &report),
        "envy diff: development (vault \u{2194} envy.enc)\n\n1 added, 1 removed, 1 modified\n  + A\n  ~ B\n  - C\n"
    );
    let same = compute_diff("development", &vault, &vault);
    assert_eq!(diff_text("development", &same), "envy diff: development \u{2014} no differences");
}

#[test]
fn specific_passphrase_takes_precedence_over_global() {
    let resolved = resolve_passphrase_values(Some("specific".into()), Some("global".into())).expect("passphrase");
    assert_eq!(resolved.as_str(), "specific");
    assert_eq!(resolve_passphrase_values(None, Some("global".into())).as_deref(), Some("global"));
    assert_eq!(session_passphrase_var("staging-eu"), "ENVY_PASSPHRASE_STAGING-EU");
}

fn discovered(id: &str, dir: &str) -> DiscoveredProject {
    DiscoveredProject {
        project_id: id.to_string(),
        rotation_reminder_days: 90,
        manifest_dir: dir.to_string(),
        artifact_path: format!("{dir}/envy.enc"),
    }
}

#[test]
fn workspace_keeps_only_manifests_with_a_vault_row() {
    let found = vec![discovered("live-id", "/w/live"), discovered("orphan-id", "/w/orphan")];
    let rows = vec![ProjectSummary { id: ProjectId("live-id".into()), name: "live".into() }];
    let workspace = workspace_context(&found, &rows);
    assert_eq!(workspace.len(), 1);
    assert_eq!(workspace[0].project_id, "live-id");
    assert_eq!(workspace[0].manifest_dir, "/w/live");
    assert_eq!(workspace[0].artifact_path, "/w/live/envy.enc");
    assert!(workspace_context(&found, &Vec::new()).is_empty());
}

#[test]
fn seal_run_skips_empty_environments_and_asks_for_missing_passphrases() {
    let mut app = App::new(vec![ProjectSummary { id: ProjectId("p".into()), name: "demo".into() }], false);
    let mut queue = vec!["production".to_string()];

    let skipped = app.seal_queue_step(&mut queue, "staging".into(), Ok(false), None);
    assert!(matches!(skipped, SealStep::Skip));
    assert_eq!(queue, vec!["production".to_string()]);

    let sealed = app.seal_queue_step(&mut queue, "development".into(), Ok(true), Some("pw".into()));
    match sealed {
        SealStep::Seal { environment, passphrase } => {
            assert_eq!(environment, "development");
            assert_eq!(passphrase, "pw");
        },
        other => panic!("expected a seal, got {other:?}"),
    }

    let asked = app.seal_queue_step(&mut queue, "production".into(), Ok(true), None);
    assert!(matches!(asked, SealStep::AskPassphrase));
    match &app.popup {
        Some(Popup::Passphrase { environment, value, purpose }) => {
            assert_eq!(environment, "production");
            assert!(value.is_empty());
            assert_eq!(*purpose, PassphrasePurpose::Sync);
        },
        other => panic!("expected the passphrase dialog, got {other:?}"),
    }
}

#[test]
fn seal_run_stops_on_vault_errors_and_failed_seals() {
    let mut app = App::new(Vec::new(), false);
    let mut queue = vec!["a".to_string(), "b".to_string()];
    let stopped = app.seal_queue_step(&mut queue, "staging".into(), Err("disk I/O error".into()), None);
    assert!(matches!(stopped, SealStep::Stopped));
    assert!(queue.is_empty());
    assert_eq!(app.status, "'staging' skipped: disk I/O error");
    assert!(app.status_is_error);

    let mut queue = vec!["a".to_string()];
    assert!(app.seal_outcome(&mut queue, Ok(())));
    assert_eq!(app.status, "Sync complete");
    assert!(!app.status_is_error);
    assert_eq!(queue, vec!["a".to_string()]);
    assert!(!app.seal_outcome(&mut queue, Err("envy.enc could not be written".into())));
    assert!(queue.is_empty());
    assert_eq!(app.status, "envy.enc could not be written");
    assert!(app.status_is_error);
}
