//! State of the interactive session: the loaded projects, environments and
//! secrets, selection and focus, the filter, the open popup and the status
//! line, with the key handling that moves between them.
use vstd::prelude::*;
use crate::cli::session::{Focus, Input, PassphrasePurpose, RotateStage, SidebarEntry, VaultState};
use crate::db::{EnvId, ProjectId};
use crate::engine::status::SyncStatus;
use crate::text::{
    ascii_lower_spec, chars_of, compare_str, contains_spec, contains_str, push_char, push_str, string_of, to_ascii_lowercase,
    KeyOrder,
};

verus! {

/// A project as listed in the sidebar.
#[derive(Debug, Clone)]
pub struct ProjectSummary {
    pub id: ProjectId,
    pub name: String,
}

/// An environment of the active project.
#[derive(Debug, Clone)]
pub struct EnvironmentSummary {
    pub id: EnvId,
    pub name: String,
}

/// A decrypted secret of the active environment, masked unless `revealed`.
#[derive(Debug, Clone)]
pub struct SecretEntry {
    pub key: String,
    pub value: String,
    pub updated_at: i64,
    pub revealed: bool,
}

/// The dialog open over the main view.
#[derive(Debug, Clone)]
pub enum Popup {
    New { key: String, value: String, editing_value: bool, revealed: bool },
    Edit { index: usize, value: String, revealed: bool },
    Delete { index: usize },
    DeleteProject { name: String, environment_count: usize, secret_count: usize, confirmation: String },
    ConfirmImport { environment: String },
    ConfirmSeal { project: String, environments: Vec<(String, usize)>, scroll: usize },
    Rotate { environment: String, stage: RotateStage, current: String, new_pass: String, confirm: String, revealed: bool },
    ProjectPicker { query: String, index: usize },
    Passphrase { environment: String, value: String, purpose: PassphrasePurpose },
    Help { scroll: usize },
    Diff { text: String, scroll: usize },
    Status { text: String, scroll: usize },
}

/// The whole session state.
pub struct App {
    pub projects: Vec<ProjectSummary>,
    pub environments: Vec<EnvironmentSummary>,
    pub secrets: Vec<SecretEntry>,
    pub sync_statuses: Vec<SyncStatus>,
    pub active_project: usize,
    pub active_environment: usize,
    pub expanded: bool,
    pub sidebar_cursor: usize,
    pub secret_index: usize,
    pub focus: Focus,
    pub search: String,
    pub search_active: bool,
    pub command_mode: bool,
    pub command_query: String,
    pub palette_index: usize,
    pub compact_banner: bool,
    pub vault_state: VaultState,
    pub popup: Option<Popup>,
    pub status: String,
    pub status_is_error: bool,
    pub working: bool,
    /// Name of the launch directory shown in the compact banner strip.
    pub workspace_name: String,
    /// Compact display form of the envy.enc location (never a secret).
    pub artifact_path: String,
}

/// The sidebar rows for `n` projects: each project, followed by the
/// `n_envs` environments of the active one when the tree is expanded.
pub open spec fn sidebar_of(n: int, expanded: bool, active: int, n_envs: int) -> Seq<SidebarEntry>
    decreases n,
{
    if n <= 0 {
        seq![]
    } else {
        let rows = sidebar_of(n - 1, expanded, active, n_envs).push(SidebarEntry::Project((n - 1) as usize));
        if expanded && n - 1 == active {
            rows + Seq::new(n_envs as nat, |e: int| SidebarEntry::Environment((n - 1) as usize, e as usize))
        } else {
            rows
        }
    }
}

/// `cursor + delta`, clamped to `0..len`.
pub open spec fn clamped(cursor: int, delta: int, len: int) -> int {
    if cursor + delta < 0 {
        0
    } else if cursor + delta > len - 1 {
        len - 1
    } else {
        cursor + delta
    }
}

/// A name matches the (ASCII-lowercased) query when the query is empty or
/// occurs in the name's ASCII lowercase.
pub open spec fn name_matches(name: Seq<char>, q: Seq<char>) -> bool {
    q.len() == 0 || contains_spec(ascii_lower_spec(name), q)
}

/// The positions of the names that match `q`, ascending.
pub open spec fn filtered_of(names: Seq<Seq<char>>, q: Seq<char>) -> Seq<usize>
    decreases names.len(),
{
    if names.len() == 0 {
        seq![]
    } else {
        let prev = filtered_of(names.drop_last(), q);
        if name_matches(names.last(), q) {
            prev.push((names.len() - 1) as usize)
        } else {
            prev
        }
    }
}

/// Every position [`filtered_of`] yields is a position of `names`.
pub proof fn lemma_filtered_in_range(names: Seq<Seq<char>>, q: Seq<char>)
    requires
        names.len() <= usize::MAX,
    ensures
        forall|k: int| 0 <= k < filtered_of(names, q).len() ==> (#[trigger] filtered_of(names, q)[k]) < names.len(),
    decreases names.len(),
{
    if names.len() > 0 {
        lemma_filtered_in_range(names.drop_last(), q);
        let prev = filtered_of(names.drop_last(), q);
        assert forall|k: int| 0 <= k < filtered_of(names, q).len() implies #[trigger] filtered_of(names, q)[k]
            < names.len() by {
            if k < prev.len() {
                assert(filtered_of(names, q)[k] == prev[k]);
            }
        }
    }
}

/// Flips the reveal flag of `secrets[i]`.
fn toggle_revealed(secrets: &mut Vec<SecretEntry>, i: usize)
    requires
        i < old(secrets)@.len(),
    ensures
        final(secrets)@.len() == old(secrets)@.len(),
        forall|k: int|
            0 <= k < old(secrets)@.len() ==> (#[trigger] final(secrets)@[k]).key == old(secrets)@[k].key
                && final(secrets)@[k].value == old(secrets)@[k].value && final(secrets)@[k].updated_at
                == old(secrets)@[k].updated_at && final(secrets)@[k].revealed == if k == i {
                !old(secrets)@[k].revealed
            } else {
                old(secrets)@[k].revealed
            },
{
    let flipped = !secrets[i].revealed;
    secrets[i].revealed = flipped;
}

/// The keys of the secrets, in order.
pub open spec fn secret_names(s: Seq<SecretEntry>) -> Seq<Seq<char>> {
    s.map_values(|e: SecretEntry| e.key@)
}

/// The names of the projects, in order.
pub open spec fn project_names(s: Seq<ProjectSummary>) -> Seq<Seq<char>> {
    s.map_values(|p: ProjectSummary| p.name@)
}

/// `char::is_control`: the general category Cc (U+0000..U+001F, U+007F..U+009F).
pub open spec fn is_control(c: char) -> bool {
    (c as u32) < 0x20 || (0x7f <= (c as u32) && (c as u32) <= 0x9f)
}

pub(crate) fn is_control_char(c: char) -> (b: bool)
    ensures
        b == is_control(c),
{
    let u = c as u32;
    u < 0x20 || (0x7f <= u && u <= 0x9f)
}

/// The text without its last character (empty stays empty).
pub open spec fn without_last(s: Seq<char>) -> Seq<char> {
    if s.len() == 0 { s } else { s.drop_last() }
}

/// Everything but the selection, filter, focus, banner and reveal flags is
/// equal in `a` and `b`, and the secrets keep their names, values and times.
pub open spec fn same_data(a: App, b: App) -> bool {
    &&& b.projects == a.projects
    &&& b.environments == a.environments
    &&& b.sync_statuses == a.sync_statuses
    &&& b.active_project == a.active_project
    &&& b.active_environment == a.active_environment
    &&& b.expanded == a.expanded
    &&& b.command_mode == a.command_mode
    &&& b.command_query == a.command_query
    &&& b.palette_index == a.palette_index
    &&& b.vault_state == a.vault_state
    &&& b.popup == a.popup
    &&& b.status == a.status
    &&& b.status_is_error == a.status_is_error
    &&& b.working == a.working
    &&& b.workspace_name == a.workspace_name
    &&& b.artifact_path == a.artifact_path
    &&& b.secrets@.len() == a.secrets@.len()
    &&& forall|i: int|
        0 <= i < a.secrets@.len() ==> (#[trigger] b.secrets@[i]).key == a.secrets@[i].key && b.secrets@[i].value
            == a.secrets@[i].value && b.secrets@[i].updated_at == a.secrets@[i].updated_at
}

/// Focus, cursor, selection, banner, filter and secrets are unchanged.
pub open spec fn same_navigation(a: App, b: App) -> bool {
    &&& b.focus == a.focus
    &&& b.sidebar_cursor == a.sidebar_cursor
    &&& b.secret_index == a.secret_index
    &&& b.compact_banner == a.compact_banner
    &&& b.search_active == a.search_active
    &&& b.search@ == a.search@
    &&& b.secrets@ == a.secrets@
}

/// The effect of moving the selection by `delta` in the focused pane: the
/// sidebar cursor, or the secret selection (which also masks every value),
/// clamped to the pane's rows; nothing moves in an empty pane.
pub open spec fn moved(a: App, b: App, delta: int) -> bool {
    &&& b.focus == a.focus
    &&& b.compact_banner == a.compact_banner
    &&& b.search_active == a.search_active
    &&& b.search@ == a.search@
    &&& match a.focus {
        Focus::Sidebar => {
            &&& b.secret_index == a.secret_index
            &&& b.secrets@ == a.secrets@
            &&& b.sidebar_cursor == if a.sidebar().len() == 0 {
                a.sidebar_cursor as int
            } else {
                clamped(a.sidebar_cursor as int, delta, a.sidebar().len() as int)
            }
        },
        Focus::Secrets => {
            &&& b.sidebar_cursor == a.sidebar_cursor
            &&& b.secret_index == if a.filtered().len() == 0 {
                a.secret_index as int
            } else {
                clamped(a.secret_index as int, delta, a.filtered().len() as int)
            }
            &&& forall|i: int| 0 <= i < b.secrets@.len() ==> !(#[trigger] b.secrets@[i]).revealed
        },
    }
}

/// Tab: the focus switches pane; nothing else moves.
pub open spec fn tabbed(a: App, b: App) -> bool {
    &&& b.focus == (if a.focus == Focus::Sidebar { Focus::Secrets } else { Focus::Sidebar })
    &&& b.sidebar_cursor == a.sidebar_cursor
    &&& b.secret_index == a.secret_index
    &&& b.compact_banner == a.compact_banner
    &&& b.search_active == a.search_active
    &&& b.search@ == a.search@
    &&& b.secrets@ == a.secrets@
}

/// Space: in the secrets pane, the selected secret's reveal flag flips;
/// otherwise nothing changes.
pub open spec fn revealed_toggled(a: App, b: App) -> bool {
    &&& b.focus == a.focus
    &&& b.sidebar_cursor == a.sidebar_cursor
    &&& b.secret_index == a.secret_index
    &&& b.compact_banner == a.compact_banner
    &&& b.search_active == a.search_active
    &&& b.search@ == a.search@
    &&& if a.focus == Focus::Secrets && a.secret_index < a.filtered().len() {
        forall|i: int|
            0 <= i < b.secrets@.len() ==> (#[trigger] b.secrets@[i]).revealed == (if i == a.filtered()[a.secret_index as int] as int {
                !a.secrets@[i].revealed
            } else {
                a.secrets@[i].revealed
            })
    } else {
        b.secrets@ == a.secrets@
    }
}

/// A character key outside filter mode: `b`/`B` toggles the banner,
/// `f`/`F` starts filtering, anything else does nothing.
pub open spec fn typed(a: App, b: App, c: char) -> bool {
    &&& b.focus == a.focus
    &&& b.sidebar_cursor == a.sidebar_cursor
    &&& b.secret_index == a.secret_index
    &&& b.search@ == a.search@
    &&& b.secrets@ == a.secrets@
    &&& b.compact_banner == (if c == 'b' || c == 'B' { !a.compact_banner } else { a.compact_banner })
    &&& b.search_active == (if c == 'f' || c == 'F' { true } else { a.search_active })
}

/// The characters of `s` that are not control characters, in order.
pub open spec fn printable(s: Seq<char>) -> Seq<char>
    decreases s.len(),
{
    if s.len() == 0 {
        seq![]
    } else if is_control(s.last()) {
        printable(s.drop_last())
    } else {
        printable(s.drop_last()).push(s.last())
    }
}

/// The fields a paste never touches are equal in `a` and `b`.
pub open spec fn same_outside_text(a: App, b: App) -> bool {
    &&& b.projects == a.projects
    &&& b.environments == a.environments
    &&& b.secrets == a.secrets
    &&& b.sync_statuses == a.sync_statuses
    &&& b.active_project == a.active_project
    &&& b.active_environment == a.active_environment
    &&& b.expanded == a.expanded
    &&& b.sidebar_cursor == a.sidebar_cursor
    &&& b.focus == a.focus
    &&& b.search_active == a.search_active
    &&& b.command_mode == a.command_mode
    &&& b.compact_banner == a.compact_banner
    &&& b.vault_state == a.vault_state
    &&& b.status == a.status
    &&& b.status_is_error == a.status_is_error
    &&& b.working == a.working
    &&& b.workspace_name == a.workspace_name
    &&& b.artifact_path == a.artifact_path
}

/// `after` is the dialog `before` with `c` appended to the field being
/// typed: the key or the value of a new secret, the edited value, the
/// project-deletion confirmation, the picker query (whose selection
/// resets), the passphrase, or the rotate field of the current stage.
/// Other dialogs, and no dialog, stay as they are.
pub open spec fn pasted_into(before: Option<Popup>, after: Option<Popup>, c: Seq<char>) -> bool {
    match before {
        Some(Popup::New { key, value, editing_value, revealed }) => after matches Some(
            Popup::New { key: k2, value: v2, editing_value: e2, revealed: r2 },
        ) && e2 == editing_value && r2 == revealed && if editing_value {
            k2@ == key@ && v2@ == value@ + c
        } else {
            k2@ == key@ + c && v2@ == value@
        },
        Some(Popup::Edit { index, value, revealed }) => after matches Some(Popup::Edit { index: i2, value: v2, revealed: r2 })
            && i2 == index && r2 == revealed && v2@ == value@ + c,
        Some(Popup::DeleteProject { name, environment_count, secret_count, confirmation }) => after matches Some(
            Popup::DeleteProject { name: n2, environment_count: e2, secret_count: s2, confirmation: c2 },
        ) && n2@ == name@ && e2 == environment_count && s2 == secret_count && c2@ == confirmation@ + c,
        Some(Popup::ProjectPicker { query, index: _ }) => after matches Some(Popup::ProjectPicker { query: q2, index: i2 })
            && q2@ == query@ + c && i2 == 0,
        Some(Popup::Passphrase { environment, value, purpose }) => after matches Some(
            Popup::Passphrase { environment: en2, value: v2, purpose: p2 },
        ) && en2@ == environment@ && p2 == purpose && v2@ == value@ + c,
        Some(Popup::Rotate { environment, stage, current, new_pass, confirm, revealed }) => after matches Some(
            Popup::Rotate { environment: en2, stage: st2, current: c2, new_pass: n2, confirm: f2, revealed: r2 },
        ) && en2@ == environment@ && st2 == stage && r2 == revealed && c2@ == (if stage == RotateStage::Current {
            current@ + c
        } else {
            current@
        }) && n2@ == (if stage == RotateStage::New {
            new_pass@ + c
        } else {
            new_pass@
        }) && f2@ == (if stage == RotateStage::Confirm {
            confirm@ + c
        } else {
            confirm@
        }),
        _ => after == before,
    }
}

/// The printable characters of `text`.
fn printable_text(text: &str) -> (r: String)
    ensures
        r@ == printable(text@),
{
    let cs = chars_of(text);
    let mut out = String::new();
    let mut i: usize = 0;
    while i < cs.len()
        invariant
            cs@ == text@,
            0 <= i <= cs@.len(),
            out@ == printable(cs@.take(i as int)),
        decreases cs@.len() - i,
    {
        proof {
            assert(cs@.take(i + 1).drop_last() =~= cs@.take(i as int));
        }
        if !is_control_char(cs[i]) {
            push_char(&mut out, cs[i]);
        }
        i += 1;
    }
    proof {
        assert(cs@.take(cs@.len() as int) =~= cs@);
    }
    out
}

/// Appends `c` to the field of `popup` being typed (see [`pasted_into`]).
fn paste_into(popup: Option<Popup>, c: &str) -> (r: Option<Popup>)
    ensures
        pasted_into(popup, r, c@),
{
    match popup {
        Some(Popup::New { mut key, mut value, editing_value, revealed }) => {
            if editing_value {
                push_str(&mut value, c);
            } else {
                push_str(&mut key, c);
            }
            Some(Popup::New { key, value, editing_value, revealed })
        },
        Some(Popup::Edit { index, mut value, revealed }) => {
            push_str(&mut value, c);
            Some(Popup::Edit { index, value, revealed })
        },
        Some(Popup::DeleteProject { name, environment_count, secret_count, mut confirmation }) => {
            push_str(&mut confirmation, c);
            Some(Popup::DeleteProject { name, environment_count, secret_count, confirmation })
        },
        Some(Popup::ProjectPicker { mut query, index: _ }) => {
            push_str(&mut query, c);
            Some(Popup::ProjectPicker { query, index: 0 })
        },
        Some(Popup::Passphrase { environment, mut value, purpose }) => {
            push_str(&mut value, c);
            Some(Popup::Passphrase { environment, value, purpose })
        },
        Some(Popup::Rotate { environment, stage, mut current, mut new_pass, mut confirm, revealed }) => {
            match stage {
                RotateStage::Current => push_str(&mut current, c),
                RotateStage::New => push_str(&mut new_pass, c),
                RotateStage::Confirm => push_str(&mut confirm, c),
            }
            Some(Popup::Rotate { environment, stage, current, new_pass, confirm, revealed })
        },
        other => other,
    }
}

/// What a key does to the session outside dialogs and the palette
/// (see [`App::handle_input`]); `quit` is whether the session ends.
pub open spec fn input_step(a: App, input: Input, b: App, quit: bool) -> bool {
    &&& quit == (!a.search_active && input == Input::Quit)
    &&& same_data(a, b)
    &&& (a.search_active ==> {
                &&& b.focus == a.focus
                &&& b.sidebar_cursor == a.sidebar_cursor
                &&& b.compact_banner == a.compact_banner
                &&& b.secrets@ == a.secrets@
                &&& match input {
                    Input::Quit => !b.search_active && b.search@ == a.search@
                        && b.secret_index == a.secret_index,
                    Input::Backspace => b.search_active && b.search@ == without_last(
                        a.search@,
                    ) && b.secret_index == 0,
                    Input::Character(c) => b.search_active && if !is_control(c) {
                        b.search@ == a.search@.push(c) && b.secret_index == 0
                    } else {
                        b.search@ == a.search@ && b.secret_index == a.secret_index
                    },
                    _ => same_navigation(a, b),
                }
            })
    &&& (!a.search_active ==> match input {
                Input::Tab => tabbed(a, b),
                Input::Up => moved(a, b, -1),
                Input::Down => moved(a, b, 1),
                Input::Space => revealed_toggled(a, b),
                Input::Character(c) => typed(a, b, c),
                _ => same_navigation(a, b),
            })
}

impl App {
    /// The sidebar rows of this state.
    pub open spec fn sidebar(&self) -> Seq<SidebarEntry> {
        sidebar_of(self.projects@.len() as int, self.expanded, self.active_project as int, self.environments@.len() as int)
    }

    /// The positions of the secrets the filter lets through.
    pub open spec fn filtered(&self) -> Seq<usize> {
        filtered_of(secret_names(self.secrets@), ascii_lower_spec(self.search@))
    }

    /// A fresh, unlocked session over `projects` with the sidebar focused.
    pub fn new(projects: Vec<ProjectSummary>, expanded_banner: bool) -> (app: Self)
        ensures
            app.projects@ == projects@,
            app.environments@.len() == 0,
            app.secrets@.len() == 0,
            app.sync_statuses@.len() == 0,
            app.active_project == 0 && app.active_environment == 0,
            !app.expanded && app.sidebar_cursor == 0 && app.secret_index == 0,
            app.focus == Focus::Sidebar,
            app.search@.len() == 0 && !app.search_active,
            !app.command_mode && app.command_query@.len() == 0 && app.palette_index == 0,
            app.compact_banner == !expanded_banner,
            app.vault_state == VaultState::Unlocked,
            app.popup is None,
            app.status@ == "Ready \u{2014} press ? for help"@,
            !app.status_is_error && !app.working,
            app.workspace_name@ == "envy"@,
            app.artifact_path@.len() == 0,
    {
        App {
            projects,
            environments: Vec::new(),
            secrets: Vec::new(),
            sync_statuses: Vec::new(),
            active_project: 0,
            active_environment: 0,
            expanded: false,
            sidebar_cursor: 0,
            secret_index: 0,
            focus: Focus::Sidebar,
            search: String::new(),
            search_active: false,
            command_mode: false,
            command_query: String::new(),
            palette_index: 0,
            compact_banner: !expanded_banner,
            vault_state: VaultState::Unlocked,
            popup: None,
            status: "Ready \u{2014} press ? for help".to_string(),
            status_is_error: false,
            working: false,
            workspace_name: "envy".to_string(),
            artifact_path: String::new(),
        }
    }

    /// The compact envy.enc label shown in the inspector.
    pub fn artifact_context(&self) -> (s: &str)
        ensures
            s@ == self.artifact_path@,
    {
        self.artifact_path.as_str()
    }

    /// Records an informational status message.
    pub fn note(&mut self, message: &str)
        ensures
            final(self).status@ == message@,
            !final(self).status_is_error,
            final(self).secrets == old(self).secrets,
            final(self).popup == old(self).popup,
    {
        self.status = message.to_string();
        self.status_is_error = false;
    }

    /// Records an error status message (shown highlighted).
    pub fn fail(&mut self, message: &str)
        ensures
            final(self).status@ == message@,
            final(self).status_is_error,
            final(self).secrets == old(self).secrets,
            final(self).popup == old(self).popup,
    {
        self.status = message.to_string();
        self.status_is_error = true;
    }

    /// The selected environment, if the index is in range.
    pub fn active_environment(&self) -> (r: Option<&EnvironmentSummary>)
        ensures
            self.active_environment < self.environments@.len() ==> r == Some(&self.environments@[self.active_environment as int]),
            self.active_environment >= self.environments@.len() ==> r is None,
    {
        if self.active_environment < self.environments.len() {
            Some(&self.environments[self.active_environment])
        } else {
            None
        }
    }

    /// The sidebar rows, top to bottom.
    pub fn flatten_sidebar(&self) -> (r: Vec<SidebarEntry>)
        ensures
            r@ == self.sidebar(),
    {
        let mut rows: Vec<SidebarEntry> = Vec::new();
        let mut pi: usize = 0;
        while pi < self.projects.len()
            invariant
                0 <= pi <= self.projects@.len(),
                rows@ == sidebar_of(pi as int, self.expanded, self.active_project as int, self.environments@.len() as int),
            decreases self.projects@.len() - pi,
        {
            rows.push(SidebarEntry::Project(pi));
            if self.expanded && pi == self.active_project {
                let ghost base = rows@;
                let mut ei: usize = 0;
                while ei < self.environments.len()
                    invariant
                        0 <= ei <= self.environments@.len(),
                        rows@ == base + Seq::new(ei as nat, |e: int| SidebarEntry::Environment(pi, e as usize)),
                    decreases self.environments@.len() - ei,
                {
                    rows.push(SidebarEntry::Environment(pi, ei));
                    proof {
                        assert(base + Seq::new((ei + 1) as nat, |e: int| SidebarEntry::Environment(pi, e as usize))
                            =~= (base + Seq::new(ei as nat, |e: int| SidebarEntry::Environment(pi, e as usize))).push(
                            SidebarEntry::Environment(pi, ei),
                        ));
                    }
                    ei += 1;
                }
                proof {
                    assert(rows@ =~= sidebar_of((pi + 1) as int, self.expanded, self.active_project as int, self.environments@.len() as int));
                }
            }
            pi += 1;
        }
        rows
    }

    /// The sidebar row under the cursor.
    pub fn current_sidebar_entry(&self) -> (r: Option<SidebarEntry>)
        ensures
            self.sidebar_cursor < self.sidebar().len() ==> r == Some(self.sidebar()[self.sidebar_cursor as int]),
            self.sidebar_cursor >= self.sidebar().len() ==> r is None,
    {
        let rows = self.flatten_sidebar();
        if self.sidebar_cursor < rows.len() {
            Some(rows[self.sidebar_cursor])
        } else {
            None
        }
    }

    /// Moves the sidebar cursor by `delta`, clamped to the rows; nothing
    /// moves when the sidebar is empty.
    pub fn move_sidebar_cursor(&mut self, delta: isize)
        ensures
            old(self).sidebar().len() == 0 ==> final(self).sidebar_cursor == old(self).sidebar_cursor,
            old(self).sidebar().len() > 0 ==> final(self).sidebar_cursor == clamped(
                old(self).sidebar_cursor as int,
                delta as int,
                old(self).sidebar().len() as int,
            ),
            same_data(*old(self), *final(self)),
            final(self).secrets == old(self).secrets,
            final(self).focus == old(self).focus,
            final(self).secret_index == old(self).secret_index,
            final(self).search == old(self).search,
            final(self).search_active == old(self).search_active,
            final(self).compact_banner == old(self).compact_banner,
    {
        let length = self.flatten_sidebar().len();
        if length == 0 {
            return;
        }
        self.sidebar_cursor = clamp_index(self.sidebar_cursor, delta, length);
    }

    /// The positions of the secrets whose names match the filter.
    pub fn filtered_secret_indices(&self) -> (r: Vec<usize>)
        ensures
            r@ == self.filtered(),
    {
        let q = to_ascii_lowercase(self.search.as_str());
        let q_empty = chars_of(q.as_str()).len() == 0;
        let mut out: Vec<usize> = Vec::new();
        let mut i: usize = 0;
        let ghost names = secret_names(self.secrets@);
        while i < self.secrets.len()
            invariant
                names == secret_names(self.secrets@),
                q@ == ascii_lower_spec(self.search@),
                q_empty == (q@.len() == 0),
                0 <= i <= self.secrets@.len(),
                out@ == filtered_of(names.take(i as int), q@),
            decreases self.secrets@.len() - i,
        {
            proof {
                assert(names.take(i + 1).drop_last() =~= names.take(i as int));
                assert(names.take(i + 1).last() == self.secrets@[i as int].key@);
            }
            let lower = to_ascii_lowercase(self.secrets[i].key.as_str());
            if q_empty || contains_str(lower.as_str(), q.as_str()) {
                out.push(i);
            }
            i += 1;
        }
        proof {
            assert(names.take(names.len() as int) =~= names);
        }
        out
    }

    /// The position of the selected secret, if the selection is in range.
    pub fn current_secret_index(&self) -> (r: Option<usize>)
        ensures
            self.secret_index < self.filtered().len() ==> r == Some(self.filtered()[self.secret_index as int]),
            self.secret_index >= self.filtered().len() ==> r is None,
    {
        let indices = self.filtered_secret_indices();
        if self.secret_index < indices.len() {
            Some(indices[self.secret_index])
        } else {
            None
        }
    }

    /// Switches between the compact and the full banner.
    pub fn toggle_banner(&mut self)
        ensures
            final(self).compact_banner == !old(self).compact_banner,
            same_data(*old(self), *final(self)),
            final(self).secrets == old(self).secrets,
            final(self).focus == old(self).focus,
            final(self).sidebar_cursor == old(self).sidebar_cursor,
            final(self).secret_index == old(self).secret_index,
            final(self).search == old(self).search,
            final(self).search_active == old(self).search_active,
    {
        self.compact_banner = !self.compact_banner;
    }

    /// Loads the environments of the active project: the first is selected,
    /// and the secrets and sync states of the previous one are dropped.
    pub fn set_environments(&mut self, environments: Vec<EnvironmentSummary>)
        ensures
            final(self).environments@ == environments@,
            final(self).active_environment == 0,
            final(self).secret_index == 0,
            final(self).secrets@.len() == 0,
            final(self).sync_statuses@.len() == 0,
            final(self).projects == old(self).projects,
            final(self).popup == old(self).popup,
    {
        self.environments = environments;
        self.active_environment = 0;
        self.secret_index = 0;
        self.secrets = Vec::new();
        self.sync_statuses = Vec::new();
    }

    /// Loads the secrets of the active environment; the first is selected.
    pub fn set_secrets(&mut self, secrets: Vec<SecretEntry>)
        ensures
            final(self).secrets@ == secrets@,
            final(self).secret_index == 0,
            final(self).environments == old(self).environments,
            final(self).popup == old(self).popup,
    {
        self.secrets = secrets;
        self.secret_index = 0;
    }

    /// Loads the sync state of each environment.
    pub fn set_sync_statuses(&mut self, statuses: Vec<SyncStatus>)
        ensures
            final(self).sync_statuses@ == statuses@,
            final(self).secrets == old(self).secrets,
            final(self).environments == old(self).environments,
    {
        self.sync_statuses = statuses;
    }

    /// Locks the vault: every decrypted value and the open dialog are
    /// dropped and the tree collapses.
    pub fn lock(&mut self)
        ensures
            final(self).vault_state == VaultState::Locked,
            final(self).secrets@.len() == 0,
            final(self).sync_statuses@.len() == 0,
            final(self).popup is None,
            !final(self).expanded,
            final(self).projects == old(self).projects,
            final(self).environments == old(self).environments,
    {
        self.vault_state = VaultState::Locked;
        self.secrets = Vec::new();
        self.sync_statuses = Vec::new();
        self.popup = None;
        self.expanded = false;
    }

    /// Moves the selection of the focused pane by `delta` (see [`moved`]).
    fn move_selection(&mut self, delta: isize)
        ensures
            moved(*old(self), *final(self), delta as int),
            same_data(*old(self), *final(self)),
    {
        match self.focus {
            Focus::Sidebar => self.move_sidebar_cursor(delta),
            Focus::Secrets => {
                let length = self.filtered_secret_indices().len();
                if length > 0 {
                    self.secret_index = clamp_index(self.secret_index, delta, length);
                }
                let ghost pre = *self;
                let mut i: usize = 0;
                while i < self.secrets.len()
                    invariant
                        0 <= i <= self.secrets@.len(),
                        same_data(pre, *self),
                        self.focus == pre.focus,
                        self.sidebar_cursor == pre.sidebar_cursor,
                        self.secret_index == pre.secret_index,
                        self.compact_banner == pre.compact_banner,
                        self.search_active == pre.search_active,
                        self.search == pre.search,
                        forall|k: int| 0 <= k < i ==> !(#[trigger] self.secrets@[k]).revealed,
                    decreases self.secrets@.len() - i,
                {
                    self.secrets[i].revealed = false;
                    i += 1;
                }
            },
        }
    }

    /// Handles one key press; returns `true` when the session should end.
    ///
    /// While the filter is being typed, keys edit it: a printable character
    /// is appended, Backspace removes the last one (both reset the
    /// selection), Quit leaves filter mode, anything else is ignored.
    /// Otherwise Quit ends the session, Tab switches the focused pane,
    /// Up/Down move the selection, Space toggles the selected secret's
    /// reveal flag in the secrets pane, `b` toggles the banner and `f`
    /// starts filtering.
    pub fn handle_input(&mut self, input: Input) -> (quit: bool)
        ensures
            input_step(*old(self), input, *final(self), quit),
    {
        if self.search_active {
            match input {
                Input::Quit => {
                    self.search_active = false;
                },
                Input::Backspace => {
                    let cs = chars_of(self.search.as_str());
                    if cs.len() > 0 {
                        self.search = string_of(&cs, 0, cs.len() - 1);
                    }
                    self.secret_index = 0;
                },
                Input::Character(c) => {
                    if !is_control_char(c) {
                        push_char(&mut self.search, c);
                        self.secret_index = 0;
                    }
                },
                _ => {},
            }
            return false;
        }
        match input {
            Input::Quit => {
                return true;
            },
            Input::Tab => {
                self.focus = match self.focus {
                    Focus::Sidebar => Focus::Secrets,
                    _ => Focus::Sidebar,
                };
            },
            Input::Up => self.move_selection(-1),
            Input::Down => self.move_selection(1),
            Input::Space => {
                if let Focus::Secrets = self.focus {
                    if let Some(index) = self.current_secret_index() {
                        let n = self.secrets.len();
                        proof {
                            assert(secret_names(self.secrets@).len() == n);
                            lemma_filtered_in_range(secret_names(self.secrets@), ascii_lower_spec(self.search@));
                        }
                        toggle_revealed(&mut self.secrets, index);
                    }
                }
            },
            Input::Character(c) => {
                if c == 'b' || c == 'B' {
                    self.toggle_banner();
                } else if c == 'f' || c == 'F' {
                    self.search_active = true;
                }
            },
            _ => {},
        }
        false
    }

    /// Pastes `text`: its printable characters go to the palette query when
    /// the palette is open (resetting its selection), else to the filter
    /// while filtering (resetting the secret selection), else into the open
    /// dialog's field; a paste with no printable character changes nothing.
    pub fn handle_paste(&mut self, text: &str)
        ensures
            printable(text@).len() == 0 ==> *final(self) == *old(self),
            printable(text@).len() > 0 ==> {
                &&& same_outside_text(*old(self), *final(self))
                &&& if old(self).command_mode {
                    &&& final(self).command_query@ == old(self).command_query@ + printable(text@)
                    &&& final(self).palette_index == 0
                    &&& final(self).search == old(self).search
                    &&& final(self).secret_index == old(self).secret_index
                    &&& final(self).popup == old(self).popup
                } else if old(self).search_active {
                    &&& final(self).search@ == old(self).search@ + printable(text@)
                    &&& final(self).secret_index == 0
                    &&& final(self).command_query == old(self).command_query
                    &&& final(self).palette_index == old(self).palette_index
                    &&& final(self).popup == old(self).popup
                } else {
                    &&& pasted_into(old(self).popup, final(self).popup, printable(text@))
                    &&& final(self).search == old(self).search
                    &&& final(self).secret_index == old(self).secret_index
                    &&& final(self).command_query == old(self).command_query
                    &&& final(self).palette_index == old(self).palette_index
                }
            },
    {
        let cleaned = printable_text(text);
        if chars_of(cleaned.as_str()).len() == 0 {
            return;
        }
        if self.command_mode {
            push_str(&mut self.command_query, cleaned.as_str());
            self.palette_index = 0;
            return;
        }
        if self.search_active {
            push_str(&mut self.search, cleaned.as_str());
            self.secret_index = 0;
            return;
        }
        let popup = self.popup.take();
        self.popup = paste_into(popup, cleaned.as_str());
    }

    /// The position of the first project whose id is `id`.
    pub fn project_index_by_id(projects: &Vec<ProjectSummary>, id: &str) -> (r: Option<usize>)
        ensures
            match r {
                Some(i) => i < projects@.len() && projects@[i as int].id.0@ == id@ && forall|j: int|
                    0 <= j < i ==> (#[trigger] projects@[j]).id.0@ != id@,
                None => forall|j: int| 0 <= j < projects@.len() ==> (#[trigger] projects@[j]).id.0@ != id@,
            },
    {
        let mut i: usize = 0;
        while i < projects.len()
            invariant
                0 <= i <= projects@.len(),
                forall|j: int| 0 <= j < i ==> (#[trigger] projects@[j]).id.0@ != id@,
            decreases projects@.len() - i,
        {
            match compare_str(projects[i].id.0.as_str(), id) {
                KeyOrder::Equal => {
                    return Some(i);
                },
                _ => {},
            }
            i += 1;
        }
        None
    }

    /// The positions of the projects whose names match `query`
    /// (ASCII case-insensitive substring; all for an empty query).
    pub fn filtered_project_indices(&self, query: &str) -> (r: Vec<usize>)
        ensures
            r@ == filtered_of(project_names(self.projects@), ascii_lower_spec(query@)),
    {
        let q = to_ascii_lowercase(query);
        let q_empty = chars_of(q.as_str()).len() == 0;
        let mut out: Vec<usize> = Vec::new();
        let mut i: usize = 0;
        let ghost names = project_names(self.projects@);
        while i < self.projects.len()
            invariant
                names == project_names(self.projects@),
                q@ == ascii_lower_spec(query@),
                q_empty == (q@.len() == 0),
                0 <= i <= self.projects@.len(),
                out@ == filtered_of(names.take(i as int), q@),
            decreases self.projects@.len() - i,
        {
            proof {
                assert(names.take(i + 1).drop_last() =~= names.take(i as int));
                assert(names.take(i + 1).last() == self.projects@[i as int].name@);
            }
            let lower = to_ascii_lowercase(self.projects[i].name.as_str());
            if q_empty || contains_str(lower.as_str(), q.as_str()) {
                out.push(i);
            }
            i += 1;
        }
        proof {
            assert(names.take(names.len() as int) =~= names);
        }
        out
    }
}

/// `cursor + delta` clamped to `0..len`, computed without overflow.
fn clamp_index(cursor: usize, delta: isize, len: usize) -> (r: usize)
    requires
        len > 0,
    ensures
        r == clamped(cursor as int, delta as int, len as int),
{
    let target: i128 = cursor as i128 + delta as i128;
    if target < 0 {
        0
    } else if target > (len - 1) as i128 {
        len - 1
    } else {
        target as usize
    }
}

} // verus!
