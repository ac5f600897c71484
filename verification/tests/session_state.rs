use envy::cli::session::{Focus, Input, SidebarEntry, VaultState};
use envy::cli::state::{App, EnvironmentSummary, Popup, ProjectSummary, SecretEntry};
use envy::db::{EnvId, ProjectId};

fn app() -> App {
    App::new(vec![ProjectSummary { id: ProjectId("p".into()), name: "demo".into() }], false)
}

fn secret(key: &str, value: &str, revealed: bool) -> SecretEntry {
    SecretEntry { key: key.into(), value: value.into(), updated_at: 0, revealed }
}

#[test]
fn filters_secret_keys_case_insensitively() {
    let mut app = app();
    app.secrets = vec![secret("DATABASE_URL", "x", false), secret("token", "y", false)];
    app.search = "data".into();
    assert_eq!(app.filtered_secret_indices(), vec![0]);
}

#[test]
fn moving_selection_remasks_values() {
    let mut app = app();
    app.focus = Focus::Secrets;
    app.secrets = vec![secret("KEY", "x", true)];
    app.handle_input(Input::Down);
    assert!(!app.secrets[0].revealed);
}

#[test]
fn sidebar_selection_keeps_environment_selection_in_bounds() {
    let mut app = app();
    app.set_environments(vec![
        EnvironmentSummary { id: EnvId("dev".into()), name: "development".into() },
        EnvironmentSummary { id: EnvId("prod".into()), name: "production".into() },
    ]);
    app.expanded = true;
    app.handle_input(Input::Down);
    app.handle_input(Input::Down);
    assert_eq!(app.current_sidebar_entry(), Some(SidebarEntry::Environment(0, 1)));
}

#[test]
fn locking_clears_secret_values_and_popup() {
    let mut app = app();
    app.secrets.push(secret("TOKEN", "plain", true));
    app.popup = Some(Popup::Delete { index: 0 });
    app.lock();
    assert_eq!(app.vault_state, VaultState::Locked);
    assert!(app.secrets.is_empty());
    assert!(app.popup.is_none());
}

#[test]
fn empty_environment_clears_previous_secrets() {
    let mut app = app();
    app.secrets.push(secret("OLD", "value", false));
    app.set_environments(Vec::new());
    assert!(app.environments.is_empty());
    assert!(app.secrets.is_empty());
    assert!(app.active_environment().is_none());
}

#[test]
fn filters_projects_case_insensitively() {
    let app = App::new(
        vec![
            ProjectSummary { id: ProjectId("one".into()), name: "Production".into() },
            ProjectSummary { id: ProjectId("two".into()), name: "Development".into() },
        ],
        false,
    );
    assert_eq!(app.filtered_project_indices("prod"), vec![0]);
}

#[test]
fn flatten_sidebar_shows_all_projects_and_expanded_envs() {
    let mut app = App::new(
        vec![
            ProjectSummary { id: ProjectId("a".into()), name: "alpha".into() },
            ProjectSummary { id: ProjectId("b".into()), name: "beta".into() },
        ],
        false,
    );
    app.active_project = 1;
    app.expanded = true;
    app.environments = vec![EnvironmentSummary { id: EnvId("e1".into()), name: "development".into() }];
    let flat = app.flatten_sidebar();
    assert_eq!(flat.len(), 3);
    assert_eq!(flat[0], SidebarEntry::Project(0));
    assert_eq!(flat[1], SidebarEntry::Project(1));
    assert_eq!(flat[2], SidebarEntry::Environment(1, 0));
}

#[test]
fn sidebar_cursor_reaches_last_project_in_long_list() {
    let projects = (0..100)
        .map(|index| ProjectSummary { id: ProjectId(index.to_string()), name: format!("project-{index}") })
        .collect();
    let mut app = App::new(projects, false);
    app.move_sidebar_cursor(1_000);
    assert_eq!(app.sidebar_cursor, 99);
    assert_eq!(app.current_sidebar_entry(), Some(SidebarEntry::Project(99)));
}

#[test]
fn note_and_fail_track_error_flag() {
    let mut app = app();
    app.fail("boom");
    assert!(app.status_is_error);
    assert_eq!(app.status, "boom");
    app.note("all good");
    assert!(!app.status_is_error);
    assert_eq!(app.status, "all good");
}

#[test]
fn project_index_by_id_finds_and_misses() {
    let projects = vec![
        ProjectSummary { id: ProjectId("a".into()), name: "alpha".into() },
        ProjectSummary { id: ProjectId("b".into()), name: "beta".into() },
    ];
    assert_eq!(App::project_index_by_id(&projects, "b"), Some(1));
    assert_eq!(App::project_index_by_id(&projects, "zzz"), None);
}

#[test]
fn new_session_starts_unlocked_on_the_sidebar() {
    let app = app();
    assert_eq!(app.status, "Ready \u{2014} press ? for help");
    assert_eq!(app.focus, Focus::Sidebar);
    assert!(app.compact_banner);
    assert!(!App::new(Vec::new(), true).compact_banner);
    assert_eq!(app.artifact_context(), "");
}

#[test]
fn filter_mode_edits_the_query_and_resets_selection() {
    let mut app = app();
    app.secrets = vec![secret("ALPHA", "1", false), secret("BETA", "2", false)];
    app.secret_index = 1;
    assert!(!app.handle_input(Input::Character('f')));
    assert!(app.search_active);
    app.handle_input(Input::Character('a'));
    app.handle_input(Input::Character('\u{7}'));
    assert_eq!(app.search, "a");
    assert_eq!(app.secret_index, 0);
    assert_eq!(app.filtered_secret_indices(), vec![0, 1]);
    app.handle_input(Input::Character('b'));
    assert!(app.compact_banner, "keys typed into the filter do not toggle the banner");
    assert_eq!(app.filtered_secret_indices(), Vec::<usize>::new());
    app.handle_input(Input::Backspace);
    app.handle_input(Input::Backspace);
    app.handle_input(Input::Backspace);
    assert_eq!(app.search, "");
    assert!(!app.handle_input(Input::Quit));
    assert!(!app.search_active);
    assert!(app.handle_input(Input::Quit));
}

#[test]
fn space_reveals_only_the_selected_secret() {
    let mut app = app();
    app.secrets = vec![secret("A", "1", false), secret("B", "2", false)];
    app.handle_input(Input::Space);
    assert!(!app.secrets[0].revealed, "space in the sidebar reveals nothing");
    app.handle_input(Input::Tab);
    assert_eq!(app.focus, Focus::Secrets);
    app.handle_input(Input::Down);
    app.handle_input(Input::Space);
    assert!(!app.secrets[0].revealed);
    assert!(app.secrets[1].revealed);
    app.handle_input(Input::Down);
    assert_eq!(app.secret_index, 1, "selection stays on the last secret");
    assert!(!app.secrets[1].revealed);
    app.handle_input(Input::Character('B'));
    assert!(!app.compact_banner);
}
