//! Key handling of the interactive session: the palette, the dialogs and
//! the panel keys change the session state and name the work that needs
//! the vault, the artifact or a passphrase, which the caller performs.
use vstd::prelude::*;
use crate::cli::session::{palette_filter, palette_matches, palette_table, Focus, Input, PassphrasePurpose, RotateStage, SidebarEntry};
use crate::cli::state::{
    clamped, filtered_of, input_step, is_control, project_names, same_data, without_last, App, Popup,
};
use crate::text::{ascii_lower_spec, chars_of, compare_str, is_blank, is_blank_str, lines, lines_spec, push_char, string_of, KeyOrder};

verus! {

/// A key press as the terminal reports it.
#[derive(Debug, Clone, Copy, PartialEq, Eq, Structural)]
pub enum Key {
    Char(char),
    Enter,
    Esc,
    Tab,
    Backspace,
    Up,
    Down,
    Left,
    Right,
    PageUp,
    PageDown,
    Home,
    End,
    Other,
}

/// The session commands that need more than the session state.
#[derive(Debug, Clone, Copy, PartialEq, Eq, Structural)]
pub enum Command {
    NewSecret,
    EditSecret,
    DeleteSecret,
    Seal,
    Rotate,
    Import,
    Diff,
    Status,
    Lock,
    Unlock,
    DeleteProject,
    SwitchProject,
    Help,
    CopySecret,
}

/// What a key press leaves for the caller to do.
#[derive(Debug)]
pub enum Request {
    /// Nothing: the state change is all.
    Nothing,
    /// End the session.
    Quit,
    /// Run a command.
    Run(Command),
    /// Open the sidebar row under the cursor (load a project or an environment).
    SelectSidebarEntry,
    /// Store a new secret in the active environment.
    SaveNewSecret { key: String, value: String },
    /// Store a new value for the secret at `index` of the secrets list.
    UpdateSecret { index: usize, value: String },
    /// Delete the secret at `index` of the secrets list.
    DeleteSecret { index: usize },
    /// Delete the active project (its name was typed to confirm).
    DeleteProject { name: String },
    /// Import `environment` from envy.enc.
    Import { environment: String },
    /// Seal these environments, in this order.
    Seal { environments: Vec<String> },
    /// Re-seal `environment` under `new_pass` after `current` opened it; the
    /// dialog stays open until the caller closes it on success.
    Rotate { environment: String, current: String, new_pass: String },
    /// Load the project at `index` of the project list (already made active).
    OpenProject { index: usize },
    /// A passphrase was entered for `purpose`.
    SubmitPassphrase { environment: String, value: String, purpose: PassphrasePurpose },
    /// The passphrase dialog of a seal run was dismissed: stop the run.
    CancelSync,
}

/// The command of a palette entry id; `None` for the ids the session
/// handles itself (`filter`, `banner`, `quit`) and unknown ids.
pub open spec fn command_of(id: Seq<char>) -> Option<Command> {
    if id == "new"@ {
        Some(Command::NewSecret)
    } else if id == "edit"@ {
        Some(Command::EditSecret)
    } else if id == "delete"@ {
        Some(Command::DeleteSecret)
    } else if id == "seal"@ {
        Some(Command::Seal)
    } else if id == "rotate"@ {
        Some(Command::Rotate)
    } else if id == "import"@ {
        Some(Command::Import)
    } else if id == "diff"@ {
        Some(Command::Diff)
    } else if id == "status"@ {
        Some(Command::Status)
    } else if id == "lock"@ {
        Some(Command::Lock)
    } else if id == "unlock"@ {
        Some(Command::Unlock)
    } else if id == "delete-project"@ {
        Some(Command::DeleteProject)
    } else if id == "picker"@ {
        Some(Command::SwitchProject)
    } else if id == "help"@ {
        Some(Command::Help)
    } else {
        None
    }
}

fn is(id: &str, name: &str) -> (b: bool)
    ensures
        b == (id@ == name@),
{
    match compare_str(id, name) {
        KeyOrder::Equal => true,
        _ => false,
    }
}

/// The command of a palette entry id (see [`command_of`]).
pub fn command_for(id: &str) -> (r: Option<Command>)
    ensures
        r == command_of(id@),
{
    if is(id, "new") {
        Some(Command::NewSecret)
    } else if is(id, "edit") {
        Some(Command::EditSecret)
    } else if is(id, "delete") {
        Some(Command::DeleteSecret)
    } else if is(id, "seal") {
        Some(Command::Seal)
    } else if is(id, "rotate") {
        Some(Command::Rotate)
    } else if is(id, "import") {
        Some(Command::Import)
    } else if is(id, "diff") {
        Some(Command::Diff)
    } else if is(id, "status") {
        Some(Command::Status)
    } else if is(id, "lock") {
        Some(Command::Lock)
    } else if is(id, "unlock") {
        Some(Command::Unlock)
    } else if is(id, "delete-project") {
        Some(Command::DeleteProject)
    } else if is(id, "picker") {
        Some(Command::SwitchProject)
    } else if is(id, "help") {
        Some(Command::Help)
    } else {
        None
    }
}

/// `min(a + b, max)` for naturals.
pub open spec fn capped(a: int, b: int, max: int) -> int {
    if a + b <= max { a + b } else { max }
}

/// `a - b`, or 0 when that is negative.
pub open spec fn floored(a: int, b: int) -> int {
    if a >= b { a - b } else { 0 }
}

/// The new offset of a text dialog of `lines` lines for a scroll key
/// (Up/k, Down/j, PageUp, PageDown, Home, End), or `None` for other keys.
pub open spec fn scrolled(key: Key, lines: int, scroll: int) -> Option<int> {
    let max = if lines > 20 { lines - 20 } else { 0 };
    match key {
        Key::Up => Some(floored(scroll, 1)),
        Key::Down => Some(capped(scroll, 1, max)),
        Key::Char(c) => if c == 'k' {
            Some(floored(scroll, 1))
        } else if c == 'j' {
            Some(capped(scroll, 1, max))
        } else {
            None
        },
        Key::PageUp => Some(floored(scroll, 10)),
        Key::PageDown => Some(capped(scroll, 10, max)),
        Key::Home => Some(0),
        Key::End => Some(max),
        _ => None,
    }
}

fn add_capped(a: usize, b: usize, max: usize) -> (r: usize)
    ensures
        r == capped(a as int, b as int, max as int),
{
    if a <= max && max - a >= b {
        a + b
    } else {
        max
    }
}

/// Scrolling inside a text dialog (see [`scrolled`]).
pub fn scroll_step(key: Key, lines: usize, scroll: usize) -> (r: Option<usize>)
    ensures
        match scrolled(key, lines as int, scroll as int) {
            Some(n) => r == Some(n as usize),
            None => r is None,
        },
{
    let max = crate::cli::session::popup_max_scroll(lines);
    match key {
        Key::Up => Some(if scroll >= 1 { scroll - 1 } else { 0 }),
        Key::Down => Some(add_capped(scroll, 1, max)),
        Key::Char(c) => {
            if c == 'k' {
                Some(if scroll >= 1 { scroll - 1 } else { 0 })
            } else if c == 'j' {
                Some(add_capped(scroll, 1, max))
            } else {
                None
            }
        },
        Key::PageUp => Some(if scroll >= 10 { scroll - 10 } else { 0 }),
        Key::PageDown => Some(add_capped(scroll, 10, max)),
        Key::Home => Some(0),
        Key::End => Some(max),
        _ => None,
    }
}

/// The palette ids matching a query, as the palette lists them.
pub open spec fn palette_ids(query: Seq<char>) -> Seq<Seq<char>> {
    palette_filter(ascii_lower_spec(query), palette_table())
}

/// The session fields that the palette and its entries leave alone.
pub open spec fn same_session(a: App, b: App) -> bool {
    &&& b.projects == a.projects
    &&& b.environments == a.environments
    &&& b.secrets == a.secrets
    &&& b.sync_statuses == a.sync_statuses
    &&& b.active_project == a.active_project
    &&& b.active_environment == a.active_environment
    &&& b.expanded == a.expanded
    &&& b.sidebar_cursor == a.sidebar_cursor
    &&& b.secret_index == a.secret_index
    &&& b.focus == a.focus
    &&& b.search == a.search
    &&& b.vault_state == a.vault_state
    &&& b.popup == a.popup
    &&& b.status == a.status
    &&& b.status_is_error == a.status_is_error
    &&& b.working == a.working
    &&& b.workspace_name == a.workspace_name
    &&& b.artifact_path == a.artifact_path
}

/// Everything but the palette state is equal in `a` and `b`.
pub open spec fn same_but_palette(a: App, b: App) -> bool {
    &&& same_session(a, b)
    &&& b.compact_banner == a.compact_banner
    &&& b.search_active == a.search_active
}

/// The outcome of choosing palette entry `id`: `filter` starts filtering,
/// `banner` toggles the banner, `quit` ends the session, the others run
/// their command.
pub open spec fn palette_chosen(a: App, b: App, id: Seq<char>, r: Request) -> bool {
    &&& same_session(a, b)
    &&& b.search_active == (a.search_active || id == "filter"@)
    &&& b.compact_banner == (if id == "banner"@ { !a.compact_banner } else { a.compact_banner })
    &&& r == (if id == "quit"@ {
        Request::Quit
    } else if id == "filter"@ || id == "banner"@ {
        Request::Nothing
    } else {
        match command_of(id) {
            Some(c) => Request::Run(c),
            None => Request::Nothing,
        }
    })
}


/// The help text shown by the help dialog.
pub const HELP_TEXT: &'static str = "NAVIGATION\n  ↑ / ↓, j/k  Move through the focused panel\n  Tab         Switch between Projects and Secrets\n  Enter / →   Expand project or select environment\n  ←           Collapse project\n  :           Command palette (every action, searchable)\n  Esc         Close popup or search (press Q to quit)\n\nPROJECTS PANEL\n  Enter / →   Expand and select\n  S           Seal project (preview first)\n  T           Project status\n  Y           Import active environment from envy.enc\n  R           Rotate environment passphrase\n  X           Delete project (exact name required)\n\nSECRETS PANEL\n  F           Filter keys (Enter keeps filter)\n  Space       Reveal selected value\n  Y           Copy value to clipboard (clears in 30s)\n  N / E / D   New / edit / delete secret\n  Ctrl+R      Reveal value while typing\n\nVAULT\n  S           Seal project environments to envy.enc\n  G           Diff active environment against envy.enc\n  L / U       Lock / unlock vault\n  B           Toggle banner\n\nQ quit    ? help    ↑↓ scroll this window";

/// A text field after a key: Backspace removes the last character, a
/// printable character is appended, other keys leave it.
pub open spec fn typed_into(s: Seq<char>, key: Key) -> Seq<char> {
    match key {
        Key::Backspace => without_last(s),
        Key::Char(c) => if is_control(c) { s } else { s.push(c) },
        _ => s,
    }
}

/// Ctrl+R, the reveal toggle of the secret and passphrase dialogs.
pub open spec fn is_ctrl_r(key: Key, ctrl: bool) -> bool {
    ctrl && key == Key::Char('r')
}

/// Everything a dialog key leaves alone besides the dialog, the status
/// line and the project selection.
pub open spec fn same_around_popup(a: App, b: App) -> bool {
    &&& b.projects == a.projects
    &&& b.environments == a.environments
    &&& b.secrets == a.secrets
    &&& b.sync_statuses == a.sync_statuses
    &&& b.active_environment == a.active_environment
    &&& b.sidebar_cursor == a.sidebar_cursor
    &&& b.secret_index == a.secret_index
    &&& b.focus == a.focus
    &&& b.search == a.search
    &&& b.search_active == a.search_active
    &&& b.command_mode == a.command_mode
    &&& b.command_query == a.command_query
    &&& b.palette_index == a.palette_index
    &&& b.compact_banner == a.compact_banner
    &&& b.vault_state == a.vault_state
    &&& b.working == a.working
    &&& b.workspace_name == a.workspace_name
    &&& b.artifact_path == a.artifact_path
}

/// The status line and its error flag are unchanged from `a` to `b`.
pub open spec fn status_kept(a: App, b: App) -> bool {
    b.status == a.status && b.status_is_error == a.status_is_error
}

/// `b` shows the error message `m`.
pub open spec fn failed_with(b: App, m: Seq<char>) -> bool {
    b.status@ == m && b.status_is_error
}

/// The dialog closes and nothing else is asked.
pub open spec fn closed(a: App, b: App, r: Request) -> bool {
    b.popup is None && status_kept(a, b) && r == Request::Nothing
}

/// The dialog stays exactly as it was and nothing is asked.
pub open spec fn kept(a: App, b: App, r: Request) -> bool {
    b.popup == a.popup && status_kept(a, b) && r == Request::Nothing
}

/// The line count that the seal preview scrolls over: a three-line
/// header and one line per environment.
pub open spec fn seal_preview_lines(n: int) -> int {
    if n <= usize::MAX - 3 { n + 3 } else { usize::MAX as int }
}

/// New secret: Tab switches between key and value, Ctrl+R toggles the
/// reveal, Enter moves from key to value and then asks to save, other
/// keys edit the field being typed.
pub open spec fn new_step(a: App, b: App, key: Key, ctrl: bool, k: String, v: String, e: bool, rv: bool, r: Request) -> bool {
    if key == Key::Esc {
        closed(a, b, r)
    } else if key == Key::Enter && e {
        b.popup is None && status_kept(a, b) && (r matches Request::SaveNewSecret { key: k2, value: v2 } && k2@ == k@
            && v2@ == v@)
    } else {
        &&& status_kept(a, b)
        &&& r == Request::Nothing
        &&& b.popup matches Some(Popup::New { key: k2, value: v2, editing_value: e2, revealed: r2 })
        &&& e2 == (if key == Key::Tab { !e } else if key == Key::Enter { true } else { e })
        &&& r2 == (if key != Key::Tab && is_ctrl_r(key, ctrl) { !rv } else { rv })
        &&& if key == Key::Tab || key == Key::Enter || is_ctrl_r(key, ctrl) {
            k2@ == k@ && v2@ == v@
        } else if e {
            k2@ == k@ && v2@ == typed_into(v@, key)
        } else {
            k2@ == typed_into(k@, key) && v2@ == v@
        }
    }
}

/// Edit secret: Ctrl+R toggles the reveal, Enter asks to store the value,
/// other keys edit it.
pub open spec fn edit_step(a: App, b: App, key: Key, ctrl: bool, i: usize, v: String, rv: bool, r: Request) -> bool {
    if key == Key::Esc {
        closed(a, b, r)
    } else if key == Key::Enter {
        b.popup is None && status_kept(a, b) && (r matches Request::UpdateSecret { index: i2, value: v2 } && i2 == i
            && v2@ == v@)
    } else {
        &&& status_kept(a, b)
        &&& r == Request::Nothing
        &&& b.popup matches Some(Popup::Edit { index: i2, value: v2, revealed: r2 })
        &&& i2 == i
        &&& r2 == (if is_ctrl_r(key, ctrl) { !rv } else { rv })
        &&& v2@ == (if is_ctrl_r(key, ctrl) { v@ } else { typed_into(v@, key) })
    }
}

/// Project deletion: the typed confirmation must equal the project name.
pub open spec fn delete_project_step(
    a: App,
    b: App,
    key: Key,
    name: String,
    ec: usize,
    sc: usize,
    conf: String,
    r: Request,
) -> bool {
    if key == Key::Esc {
        closed(a, b, r)
    } else if key == Key::Enter {
        if conf@ == name@ {
            b.popup is None && status_kept(a, b) && (r matches Request::DeleteProject { name: n2 } && n2@ == name@)
        } else {
            b.popup == a.popup && failed_with(b, "Type the project name exactly to confirm"@) && r == Request::Nothing
        }
    } else {
        &&& status_kept(a, b)
        &&& r == Request::Nothing
        &&& b.popup matches Some(
            Popup::DeleteProject { name: n2, environment_count: e2, secret_count: s2, confirmation: c2 },
        )
        &&& n2 == name && e2 == ec && s2 == sc
        &&& c2@ == typed_into(conf@, key)
    }
}

/// Rotate: Enter validates the stage's field (current non-blank; new
/// non-blank and different; confirmation equal to new) and moves on, the
/// last stage asking for the rotation; Ctrl+R toggles the reveal; other
/// keys edit the current stage's field.
pub open spec fn rotate_step(
    a: App,
    b: App,
    key: Key,
    ctrl: bool,
    env: String,
    stage: RotateStage,
    cur: String,
    new: String,
    conf: String,
    rv: bool,
    r: Request,
) -> bool {
    if key == Key::Esc {
        closed(a, b, r)
    } else if key == Key::Enter {
        match stage {
            RotateStage::Current => if is_blank(cur@) {
                b.popup == a.popup && failed_with(b, "Current passphrase must not be empty"@) && r == Request::Nothing
            } else {
                status_kept(a, b) && r == Request::Nothing && b.popup == Some(
                    Popup::Rotate {
                        environment: env,
                        stage: RotateStage::New,
                        current: cur,
                        new_pass: new,
                        confirm: conf,
                        revealed: false,
                    },
                )
            },
            RotateStage::New => if is_blank(new@) {
                b.popup == a.popup && failed_with(b, "New passphrase must not be empty"@) && r == Request::Nothing
            } else if new@ == cur@ {
                b.popup == a.popup && failed_with(b, "New passphrase must differ from the current one"@) && r
                    == Request::Nothing
            } else {
                status_kept(a, b) && r == Request::Nothing && b.popup == Some(
                    Popup::Rotate {
                        environment: env,
                        stage: RotateStage::Confirm,
                        current: cur,
                        new_pass: new,
                        confirm: conf,
                        revealed: false,
                    },
                )
            },
            RotateStage::Confirm => if conf@ != new@ {
                b.popup == a.popup && failed_with(b, "Passphrases do not match"@) && r == Request::Nothing
            } else {
                b.popup == a.popup && status_kept(a, b) && (r matches Request::Rotate {
                    environment: e2,
                    current: c2,
                    new_pass: n2,
                } && e2@ == env@ && c2@ == cur@ && n2@ == new@)
            },
        }
    } else {
        &&& status_kept(a, b)
        &&& r == Request::Nothing
        &&& b.popup matches Some(
            Popup::Rotate { environment: e2, stage: s2, current: c2, new_pass: n2, confirm: f2, revealed: r2 },
        )
        &&& e2 == env && s2 == stage
        &&& r2 == (if is_ctrl_r(key, ctrl) { !rv } else { rv })
        &&& if is_ctrl_r(key, ctrl) {
            c2@ == cur@ && n2@ == new@ && f2@ == conf@
        } else {
            &&& c2@ == (if stage == RotateStage::Current { typed_into(cur@, key) } else { cur@ })
            &&& n2@ == (if stage == RotateStage::New { typed_into(new@, key) } else { new@ })
            &&& f2@ == (if stage == RotateStage::Confirm { typed_into(conf@, key) } else { conf@ })
        }
    }
}

/// Project picker: the query filters the projects; Up/Down move within
/// the matches; Enter makes the selected match the active, expanded
/// project and asks to load it.
pub open spec fn picker_step(a: App, b: App, key: Key, q: String, i: usize, r: Request) -> bool {
    let ids = filtered_of(project_names(a.projects@), ascii_lower_spec(q@));
    if key == Key::Esc {
        closed(a, b, r)
    } else if key == Key::Enter {
        &&& b.popup is None
        &&& if i < ids.len() {
            status_kept(a, b) && b.active_project == ids[i as int] && b.expanded && r == Request::OpenProject {
                index: ids[i as int],
            }
        } else {
            failed_with(b, "No matching projects"@) && r == Request::Nothing
        }
    } else {
        &&& status_kept(a, b)
        &&& r == Request::Nothing
        &&& b.popup matches Some(Popup::ProjectPicker { query: q2, index: i2 })
        &&& q2@ == (if key == Key::Up || key == Key::Down { q@ } else { typed_into(q@, key) })
        &&& i2 == (if key == Key::Up {
            floored(i as int, 1)
        } else if key == Key::Down {
            if ids.len() > 0 { capped(i as int, 1, ids.len() - 1) } else { i as int }
        } else if key == Key::Backspace {
            0
        } else if (key matches Key::Char(c) && !is_control(c)) {
            0
        } else {
            i as int
        })
    }
}

/// A text dialog (help, diff, status): scroll keys move within its lines,
/// the close keys close it, anything else leaves it.
pub open spec fn text_step(a: App, b: App, r: Request, scroll_to: Option<int>, closes: bool) -> bool {
    match scroll_to {
        Some(_) => status_kept(a, b) && r == Request::Nothing,
        None => if closes { closed(a, b, r) } else { kept(a, b, r) },
    }
}

/// Keys that close the help popup.
pub open spec fn closes_help(key: Key) -> bool {
    key == Key::Esc || key == Key::Enter || key == Key::Char('?') || key == Key::Char('q') || key == Key::Char('Q')
}

/// Keys that close the diff popup.
pub open spec fn closes_diff(key: Key) -> bool {
    key == Key::Esc || key == Key::Enter || key == Key::Char('q') || key == Key::Char('Q') || key == Key::Char('g')
        || key == Key::Char('G')
}

/// Keys that close the status popup.
pub open spec fn closes_status(key: Key) -> bool {
    key == Key::Esc || key == Key::Enter || key == Key::Char('q') || key == Key::Char('Q') || key == Key::Char('t')
        || key == Key::Char('T')
}

/// Passphrase: Enter closes the dialog and hands the passphrase over; Esc
/// closes it (ending a seal run); other keys edit it.
pub open spec fn passphrase_step(a: App, b: App, key: Key, env: String, v: String, purpose: PassphrasePurpose, r: Request) -> bool {
    if key == Key::Esc {
        b.popup is None && status_kept(a, b) && r == (if purpose == PassphrasePurpose::Sync {
            Request::CancelSync
        } else {
            Request::Nothing
        })
    } else if key == Key::Enter {
        b.popup is None && status_kept(a, b) && (r matches Request::SubmitPassphrase {
            environment: e2,
            value: v2,
            purpose: p2,
        } && e2@ == env@ && v2@ == v@ && p2 == purpose)
    } else {
        &&& status_kept(a, b)
        &&& r == Request::Nothing
        &&& b.popup matches Some(Popup::Passphrase { environment: e2, value: v2, purpose: p2 })
        &&& e2 == env && p2 == purpose
        &&& v2@ == typed_into(v@, key)
    }
}

/// What a key does to the open dialog (see the step functions above).
pub open spec fn popup_key_step(a: App, key: Key, ctrl: bool, b: App, r: Request) -> bool {
    &&& same_around_popup(a, b)
    &&& match a.popup {
        Some(Popup::ProjectPicker { query, index }) => key != Key::Enter || index >= filtered_of(
            project_names(a.projects@),
            ascii_lower_spec(query@),
        ).len() ==> b.active_project == a.active_project && b.expanded == a.expanded,
        _ => b.active_project == a.active_project && b.expanded == a.expanded,
    }
    &&& match a.popup {
        None => b.popup is None && status_kept(a, b) && r == Request::Nothing,
        Some(Popup::New { key: k, value: v, editing_value: e, revealed: rv }) => new_step(a, b, key, ctrl, k, v, e, rv, r),
        Some(Popup::Edit { index, value, revealed }) => edit_step(a, b, key, ctrl, index, value, revealed, r),
        Some(Popup::Delete { index }) => if key == Key::Esc {
            closed(a, b, r)
        } else if key == Key::Enter {
            b.popup is None && status_kept(a, b) && r == Request::DeleteSecret { index }
        } else {
            kept(a, b, r)
        },
        Some(Popup::DeleteProject { name, environment_count, secret_count, confirmation }) => delete_project_step(
            a,
            b,
            key,
            name,
            environment_count,
            secret_count,
            confirmation,
            r,
        ),
        Some(Popup::ConfirmImport { environment }) => if key == Key::Esc {
            closed(a, b, r)
        } else if key == Key::Enter {
            b.popup is None && status_kept(a, b) && (r matches Request::Import { environment: e2 } && e2@ == environment@)
        } else {
            kept(a, b, r)
        },
        Some(Popup::ConfirmSeal { project, environments, scroll }) => match scrolled(
            key,
            seal_preview_lines(environments@.len() as int),
            scroll as int,
        ) {
            Some(n) => status_kept(a, b) && r == Request::Nothing && (b.popup matches Some(
                Popup::ConfirmSeal { project: p2, environments: e2, scroll: s2 },
            ) && p2 == project && e2 == environments && s2 == n),
            None => if key == Key::Esc {
                closed(a, b, r)
            } else if key == Key::Enter {
                &&& b.popup is None
                &&& status_kept(a, b)
                &&& r matches Request::Seal { environments: names }
                &&& names@.len() == environments@.len()
                &&& forall|j: int| 0 <= j < names@.len() ==> (#[trigger] names@[j])@ == environments@[j].0@
            } else {
                kept(a, b, r)
            },
        },
        Some(Popup::Rotate { environment, stage, current, new_pass, confirm, revealed }) => rotate_step(
            a,
            b,
            key,
            ctrl,
            environment,
            stage,
            current,
            new_pass,
            confirm,
            revealed,
            r,
        ),
        Some(Popup::ProjectPicker { query, index }) => picker_step(a, b, key, query, index, r),
        Some(Popup::Help { scroll }) => {
            let to = scrolled(key, lines_spec(HELP_TEXT@).len() as int, scroll as int);
            &&& text_step(a, b, r, to, closes_help(key))
            &&& to matches Some(n) ==> b.popup == Some(Popup::Help { scroll: n as usize })
        },
        Some(Popup::Diff { text, scroll }) => {
            let to = scrolled(key, lines_spec(text@).len() as int, scroll as int);
            &&& text_step(a, b, r, to, closes_diff(key))
            &&& to matches Some(n) ==> b.popup matches Some(Popup::Diff { text: t2, scroll: s2 }) && t2 == text && s2
                == n
        },
        Some(Popup::Status { text, scroll }) => {
            let to = scrolled(key, lines_spec(text@).len() as int, scroll as int);
            &&& text_step(a, b, r, to, closes_status(key))
            &&& to matches Some(n) ==> b.popup matches Some(Popup::Status { text: t2, scroll: s2 }) && t2 == text && s2
                == n
        },
        Some(Popup::Passphrase { environment, value, purpose }) => passphrase_step(
            a,
            b,
            key,
            environment,
            value,
            purpose,
            r,
        ),
    }
}

/// What a key does while the palette is open (see
/// [`App::handle_palette_key`]).
pub open spec fn palette_key_step(a: App, key: Key, b: App, r: Request) -> bool {
            match key {
                Key::Esc => !b.command_mode && b.command_query == a.command_query
                    && b.palette_index == a.palette_index && same_but_palette(a, b)
                    && r == Request::Nothing,
                Key::Backspace => b.command_mode == a.command_mode && b.command_query@
                    == without_last(a.command_query@) && b.palette_index == 0 && same_but_palette(
                    a,
                    b,
                ) && r == Request::Nothing,
                Key::Up => b.command_mode == a.command_mode && b.command_query
                    == a.command_query && b.palette_index == floored(a.palette_index as int, 1)
                    && same_but_palette(a, b) && r == Request::Nothing,
                Key::Down => {
                    let n = palette_ids(a.command_query@).len();
                    &&& b.command_mode == a.command_mode
                    &&& b.command_query == a.command_query
                    &&& b.palette_index == (if n > 0 {
                        capped(a.palette_index as int, 1, n - 1)
                    } else {
                        a.palette_index as int
                    })
                    &&& same_but_palette(a, b)
                    &&& r == Request::Nothing
                },
                Key::Enter => {
                    let ids = palette_ids(a.command_query@);
                    &&& !b.command_mode
                    &&& b.command_query == a.command_query
                    &&& b.palette_index == a.palette_index
                    &&& if a.palette_index < ids.len() {
                        palette_chosen(a, b, ids[a.palette_index as int], r)
                    } else {
                        same_but_palette(a, b) && r == Request::Nothing
                    }
                },
                Key::Char(c) => b.command_mode == a.command_mode && (if is_control(c) {
                    b.command_query == a.command_query && b.palette_index
                        == a.palette_index
                } else {
                    b.command_query@ == a.command_query@.push(c) && b.palette_index == 0
                }) && same_but_palette(a, b) && r == Request::Nothing,
                _ => b.command_mode == a.command_mode && b.command_query
                    == a.command_query && b.palette_index == a.palette_index
                    && same_but_palette(a, b) && r == Request::Nothing,
            }
}

/// The panel input a key stands for outside dialogs, the palette and the
/// filter; `None` for keys with no meaning there.
pub open spec fn input_of(key: Key) -> Option<Input> {
    match key {
        Key::Char(c) => if c == 'q' || c == 'Q' {
            Some(Input::Quit)
        } else if c == ' ' {
            Some(Input::Space)
        } else {
            Some(Input::Character(c))
        },
        Key::Up => Some(Input::Up),
        Key::Down => Some(Input::Down),
        Key::Left => Some(Input::Left),
        Key::Right => Some(Input::Right),
        Key::Tab => Some(Input::Tab),
        Key::Enter => Some(Input::Enter),
        Key::Backspace => Some(Input::Backspace),
        _ => None,
    }
}

/// The command a letter key runs (either case): l lock, u unlock, n new,
/// e edit, d delete, x delete project, p switch project, ? help, s seal,
/// r rotate, t status, g diff, y copy in the secrets pane and import in
/// the sidebar.
pub open spec fn letter_command(c: char, focus: Focus) -> Option<Command> {
    if c == 'l' || c == 'L' {
        Some(Command::Lock)
    } else if c == 'u' || c == 'U' {
        Some(Command::Unlock)
    } else if c == 'n' || c == 'N' {
        Some(Command::NewSecret)
    } else if c == 'e' || c == 'E' {
        Some(Command::EditSecret)
    } else if c == 'd' || c == 'D' {
        Some(Command::DeleteSecret)
    } else if c == 'x' || c == 'X' {
        Some(Command::DeleteProject)
    } else if c == 'p' || c == 'P' {
        Some(Command::SwitchProject)
    } else if c == '?' {
        Some(Command::Help)
    } else if c == 's' || c == 'S' {
        Some(Command::Seal)
    } else if c == 'r' || c == 'R' {
        Some(Command::Rotate)
    } else if c == 't' || c == 'T' {
        Some(Command::Status)
    } else if c == 'g' || c == 'G' {
        Some(Command::Diff)
    } else if c == 'y' || c == 'Y' {
        Some(if focus == Focus::Secrets { Command::CopySecret } else { Command::Import })
    } else {
        None
    }
}

/// The first position of `e` in `rows`, or -1.
pub open spec fn first_index(rows: Seq<SidebarEntry>, e: SidebarEntry) -> int
    decreases rows.len(),
{
    if rows.len() == 0 {
        -1
    } else {
        let p = first_index(rows.drop_last(), e);
        if p >= 0 {
            p
        } else if rows.last() == e {
            rows.len() - 1
        } else {
            -1
        }
    }
}

/// The sidebar row of project `pi` (the first row when it is not shown).
pub open spec fn project_row(a: App, pi: usize) -> int {
    let p = first_index(a.sidebar(), SidebarEntry::Project(pi));
    if p >= 0 { p } else { 0 }
}

/// What a key does to the session, dialogs and palette included (see
/// [`App::handle_key`]).
pub open spec fn key_step(a: App, key: Key, ctrl: bool, b: App, r: Request) -> bool {
    if a.popup is Some {
        popup_key_step(a, key, ctrl, b, r)
    } else if a.command_mode {
        palette_key_step(a, key, b, r)
    } else if a.search_active {
        &&& r == Request::Nothing
        &&& match key {
            Key::Esc => b == App { search_active: false, ..a },
            Key::Enter => b == App { search_active: false, ..a },
            Key::Backspace => input_step(a, Input::Backspace, b, false),
            Key::Char(c) => if is_control(c) { b == a } else { input_step(a, Input::Character(c), b, false) },
            _ => b == a,
        }
    } else if key == Key::Esc {
        r == Request::Nothing && b == App { status: b.status, status_is_error: false, ..a } && b.status@
            == "Press Q to quit"@
    } else if key == Key::Char(':') {
        r == Request::Nothing && b == App { command_mode: true, command_query: b.command_query, palette_index: 0, ..a }
            && b.command_query@.len() == 0
    } else {
        match input_of(key) {
            None => r == Request::Nothing && b == a,
            Some(input) => if a.focus == Focus::Sidebar && (input == Input::Up || input == Input::Down) {
                r == Request::Nothing && b == App {
                    sidebar_cursor: (if a.sidebar().len() == 0 {
                        a.sidebar_cursor as int
                    } else {
                        clamped(a.sidebar_cursor as int, if input == Input::Up { -1 } else { 1 }, a.sidebar().len() as int)
                    }) as usize,
                    ..a
                }
            } else if a.focus == Focus::Sidebar && (input == Input::Enter || input == Input::Right) {
                r == Request::SelectSidebarEntry && b == a
            } else if a.focus == Focus::Sidebar && input == Input::Left {
                r == Request::Nothing && (if a.expanded {
                    b == App { expanded: false, sidebar_cursor: project_row(App { expanded: false, ..a }, a.active_project) as usize, ..a }
                } else {
                    b == a
                })
            } else {
                match input {
                    Input::Character(c) => match letter_command(c, a.focus) {
                        Some(cmd) => r == Request::Run(cmd) && b == a,
                        None => input_step(a, input, b, r == Request::Quit) && (r == Request::Quit || r
                            == Request::Nothing),
                    },
                    _ => input_step(a, input, b, r == Request::Quit) && (r == Request::Quit || r == Request::Nothing),
                }
            }
        }
    }
}

impl App {
    /// Opens the command palette with an empty query.
    pub fn open_command_palette(&mut self)
        ensures
            *final(self) == (App {
                command_mode: true,
                command_query: final(self).command_query,
                palette_index: 0,
                ..*old(self)
            }),
            final(self).command_query@.len() == 0,
    {
        self.command_mode = true;
        self.command_query = String::new();
        self.palette_index = 0;
    }

    /// Runs the palette entry `id` (see [`palette_chosen`]).
    pub fn run_palette_entry(&mut self, id: &str) -> (r: Request)
        ensures
            palette_chosen(*old(self), *final(self), id@, r),
            final(self).command_mode == old(self).command_mode,
            final(self).command_query == old(self).command_query,
            final(self).palette_index == old(self).palette_index,
    {
        if is(id, "filter") {
            self.search_active = true;
            proof {
                reveal_strlit("filter");
                reveal_strlit("banner");
                reveal_strlit("quit");
                assert("filter"@[0] != "banner"@[0]);
                assert("filter"@.len() != "quit"@.len());
            }
            Request::Nothing
        } else if is(id, "banner") {
            self.compact_banner = !self.compact_banner;
            proof {
                reveal_strlit("banner");
                reveal_strlit("quit");
                assert("banner"@.len() != "quit"@.len());
            }
            Request::Nothing
        } else if is(id, "quit") {
            Request::Quit
        } else {
            match command_for(id) {
                Some(c) => Request::Run(c),
                None => Request::Nothing,
            }
        }
    }

    /// Handles a key while the palette is open: Esc closes it, Backspace
    /// and printable characters edit the query (resetting the selection),
    /// Up/Down move the selection within the matches, Enter closes the
    /// palette and runs the selected entry.
    pub fn handle_palette_key(&mut self, key: Key) -> (r: Request)
        ensures
            palette_key_step(*old(self), key, *final(self), r),
    {
        match key {
            Key::Esc => {
                self.command_mode = false;
                Request::Nothing
            },
            Key::Backspace => {
                let cs = chars_of(self.command_query.as_str());
                if cs.len() > 0 {
                    self.command_query = string_of(&cs, 0, cs.len() - 1);
                }
                self.palette_index = 0;
                Request::Nothing
            },
            Key::Up => {
                if self.palette_index >= 1 {
                    self.palette_index = self.palette_index - 1;
                }
                Request::Nothing
            },
            Key::Down => {
                let length = palette_matches(self.command_query.as_str()).len();
                proof {
                    assert(palette_ids(self.command_query@).len() == length);
                }
                if length > 0 {
                    self.palette_index = add_capped(self.palette_index, 1, length - 1);
                }
                Request::Nothing
            },
            Key::Enter => {
                let matches = palette_matches(self.command_query.as_str());
                self.command_mode = false;
                if self.palette_index < matches.len() {
                    let id = matches[self.palette_index];
                    proof {
                        assert(id@ == palette_ids(old(self).command_query@)[old(self).palette_index as int]);
                    }
                    self.run_palette_entry(id)
                } else {
                    Request::Nothing
                }
            },
            Key::Char(c) => {
                if !crate::cli::state::is_control_char(c) {
                    push_char(&mut self.command_query, c);
                    self.palette_index = 0;
                }
                Request::Nothing
            },
            _ => Request::Nothing,
        }
    }
}

/// Removes the last character of `s`, if any.
fn pop_last(s: &mut String)
    ensures
        final(s)@ == without_last(old(s)@),
{
    let cs = chars_of(s.as_str());
    if cs.len() > 0 {
        *s = string_of(&cs, 0, cs.len() - 1);
    }
}

/// Applies a key to a text field (see [`typed_into`]).
fn type_key(s: &mut String, key: Key)
    ensures
        final(s)@ == typed_into(old(s)@, key),
{
    match key {
        Key::Backspace => pop_last(s),
        Key::Char(c) => {
            if !crate::cli::state::is_control_char(c) {
                push_char(s, c);
            }
        },
        _ => {},
    }
}

fn same_text(a: &String, b: &String) -> (r: bool)
    ensures
        r == (a@ == b@),
{
    is(a.as_str(), b.as_str())
}

impl App {
    fn fail_with(&mut self, m: &str)
        ensures
            failed_with(*final(self), m@),
            same_around_popup(*old(self), *final(self)),
            final(self).popup == old(self).popup,
            final(self).active_project == old(self).active_project,
            final(self).expanded == old(self).expanded,
    {
        self.status = m.to_string();
        self.status_is_error = true;
    }

    /// Handles a key while a dialog is open (see [`popup_key_step`]).
    pub fn handle_popup_key(&mut self, key: Key, ctrl: bool) -> (r: Request)
        ensures
            popup_key_step(*old(self), key, ctrl, *final(self), r),
    {
        match self.popup {
            None => Request::Nothing,
            Some(Popup::New { .. }) => self.key_new(key, ctrl),
            Some(Popup::Edit { .. }) => self.key_edit(key, ctrl),
            Some(Popup::Delete { .. }) => self.key_delete(key, ctrl),
            Some(Popup::DeleteProject { .. }) => self.key_delete_project(key, ctrl),
            Some(Popup::ConfirmImport { .. }) => self.key_confirm_import(key, ctrl),
            Some(Popup::ConfirmSeal { .. }) => self.key_confirm_seal(key, ctrl),
            Some(Popup::Rotate { .. }) => self.key_rotate(key, ctrl),
            Some(Popup::ProjectPicker { .. }) => self.key_picker(key, ctrl),
            Some(Popup::Help { .. }) => self.key_help(key, ctrl),
            Some(Popup::Diff { .. }) => self.key_diff(key, ctrl),
            Some(Popup::Status { .. }) => self.key_status(key, ctrl),
            Some(Popup::Passphrase { .. }) => self.key_passphrase(key, ctrl),
        }
    }

    fn key_new(&mut self, key: Key, ctrl: bool) -> (r: Request)
        requires
            old(self).popup matches Some(Popup::New { .. }),
        ensures
            popup_key_step(*old(self), key, ctrl, *final(self), r),
    {
        let ctrl_r = ctrl && key == Key::Char('r');
        match self.popup.take() {
            Some(Popup::New { key: mut k, value: mut v, editing_value: e, revealed: rv }) => {
                if key == Key::Esc {
                    return Request::Nothing;
                }
                if key == Key::Enter && e {
                    return Request::SaveNewSecret { key: k, value: v };
                }
                let e2 = if key == Key::Tab { !e } else if key == Key::Enter { true } else { e };
                let r2 = if ctrl_r { !rv } else { rv };
                if !(key == Key::Tab || key == Key::Enter || ctrl_r) {
                    if e {
                        type_key(&mut v, key);
                    } else {
                        type_key(&mut k, key);
                    }
                }
                self.popup = Some(Popup::New { key: k, value: v, editing_value: e2, revealed: r2 });
                Request::Nothing
            },
            _ => Request::Nothing,
        }
    }

    fn key_edit(&mut self, key: Key, ctrl: bool) -> (r: Request)
        requires
            old(self).popup matches Some(Popup::Edit { .. }),
        ensures
            popup_key_step(*old(self), key, ctrl, *final(self), r),
    {
        let ctrl_r = ctrl && key == Key::Char('r');
        match self.popup.take() {
            Some(Popup::Edit { index, value: mut v, revealed: rv }) => {
                if key == Key::Esc {
                    return Request::Nothing;
                }
                if key == Key::Enter {
                    return Request::UpdateSecret { index, value: v };
                }
                if !ctrl_r {
                    type_key(&mut v, key);
                }
                self.popup = Some(Popup::Edit { index, value: v, revealed: if ctrl_r { !rv } else { rv } });
                Request::Nothing
            },
            _ => Request::Nothing,
        }
    }

    fn key_delete(&mut self, key: Key, ctrl: bool) -> (r: Request)
        requires
            old(self).popup matches Some(Popup::Delete { .. }),
        ensures
            popup_key_step(*old(self), key, ctrl, *final(self), r),
    {
        let ctrl_r = ctrl && key == Key::Char('r');
        match self.popup.take() {
            Some(Popup::Delete { index }) => {
                if key == Key::Esc {
                    Request::Nothing
                } else if key == Key::Enter {
                    Request::DeleteSecret { index }
                } else {
                    self.popup = Some(Popup::Delete { index });
                    Request::Nothing
                }
            },
            _ => Request::Nothing,
        }
    }

    fn key_delete_project(&mut self, key: Key, ctrl: bool) -> (r: Request)
        requires
            old(self).popup matches Some(Popup::DeleteProject { .. }),
        ensures
            popup_key_step(*old(self), key, ctrl, *final(self), r),
    {
        let ctrl_r = ctrl && key == Key::Char('r');
        match self.popup.take() {
            Some(Popup::DeleteProject { name, environment_count, secret_count, confirmation: mut conf }) => {
                if key == Key::Esc {
                    return Request::Nothing;
                }
                if key == Key::Enter {
                    if same_text(&conf, &name) {
                        return Request::DeleteProject { name };
                    }
                    self.popup = Some(Popup::DeleteProject { name, environment_count, secret_count, confirmation: conf });
                    self.fail_with("Type the project name exactly to confirm");
                    return Request::Nothing;
                }
                type_key(&mut conf, key);
                self.popup = Some(Popup::DeleteProject { name, environment_count, secret_count, confirmation: conf });
                Request::Nothing
            },
            _ => Request::Nothing,
        }
    }

    fn key_confirm_import(&mut self, key: Key, ctrl: bool) -> (r: Request)
        requires
            old(self).popup matches Some(Popup::ConfirmImport { .. }),
        ensures
            popup_key_step(*old(self), key, ctrl, *final(self), r),
    {
        let ctrl_r = ctrl && key == Key::Char('r');
        match self.popup.take() {
            Some(Popup::ConfirmImport { environment }) => {
                if key == Key::Esc {
                    Request::Nothing
                } else if key == Key::Enter {
                    Request::Import { environment }
                } else {
                    self.popup = Some(Popup::ConfirmImport { environment });
                    Request::Nothing
                }
            },
            _ => Request::Nothing,
        }
    }

    fn key_confirm_seal(&mut self, key: Key, ctrl: bool) -> (r: Request)
        requires
            old(self).popup matches Some(Popup::ConfirmSeal { .. }),
        ensures
            popup_key_step(*old(self), key, ctrl, *final(self), r),
    {
        let ctrl_r = ctrl && key == Key::Char('r');
        match self.popup.take() {
            Some(Popup::ConfirmSeal { project, environments, scroll }) => {
                let n = environments.len();
                let lines = if n <= usize::MAX - 3 { n + 3 } else { usize::MAX };
                match scroll_step(key, lines, scroll) {
                    Some(next) => {
                        self.popup = Some(Popup::ConfirmSeal { project, environments, scroll: next });
                        Request::Nothing
                    },
                    None => {
                        if key == Key::Esc {
                            Request::Nothing
                        } else if key == Key::Enter {
                            let mut names: Vec<String> = Vec::new();
                            let mut j: usize = 0;
                            while j < environments.len()
                                invariant
                                    0 <= j <= environments@.len(),
                                    names@.len() == j,
                                    forall|t: int| 0 <= t < j ==> (#[trigger] names@[t])@ == environments@[t].0@,
                                decreases environments@.len() - j,
                            {
                                names.push(environments[j].0.clone());
                                j += 1;
                            }
                            Request::Seal { environments: names }
                        } else {
                            self.popup = Some(Popup::ConfirmSeal { project, environments, scroll });
                            Request::Nothing
                        }
                    },
                }
            },
            _ => Request::Nothing,
        }
    }

    fn key_rotate(&mut self, key: Key, ctrl: bool) -> (r: Request)
        requires
            old(self).popup matches Some(Popup::Rotate { .. }),
        ensures
            popup_key_step(*old(self), key, ctrl, *final(self), r),
    {
        let ctrl_r = ctrl && key == Key::Char('r');
        match self.popup.take() {
            Some(Popup::Rotate { environment, stage, current: mut cur, new_pass: mut new, confirm: mut conf, revealed: rv }) => {
                if key == Key::Esc {
                    return Request::Nothing;
                }
                if key == Key::Enter {
                    match stage {
                        RotateStage::Current => {
                            if is_blank_str(cur.as_str()) {
                                self.popup = Some(Popup::Rotate { environment, stage, current: cur, new_pass: new, confirm: conf, revealed: rv });
                                self.fail_with("Current passphrase must not be empty");
                            } else {
                                self.popup = Some(Popup::Rotate {
                                    environment,
                                    stage: RotateStage::New,
                                    current: cur,
                                    new_pass: new,
                                    confirm: conf,
                                    revealed: false,
                                });
                            }
                            return Request::Nothing;
                        },
                        RotateStage::New => {
                            if is_blank_str(new.as_str()) {
                                self.popup = Some(Popup::Rotate { environment, stage, current: cur, new_pass: new, confirm: conf, revealed: rv });
                                self.fail_with("New passphrase must not be empty");
                            } else if same_text(&new, &cur) {
                                self.popup = Some(Popup::Rotate { environment, stage, current: cur, new_pass: new, confirm: conf, revealed: rv });
                                self.fail_with("New passphrase must differ from the current one");
                            } else {
                                self.popup = Some(Popup::Rotate {
                                    environment,
                                    stage: RotateStage::Confirm,
                                    current: cur,
                                    new_pass: new,
                                    confirm: conf,
                                    revealed: false,
                                });
                            }
                            return Request::Nothing;
                        },
                        RotateStage::Confirm => {
                            if !same_text(&conf, &new) {
                                self.popup = Some(Popup::Rotate { environment, stage, current: cur, new_pass: new, confirm: conf, revealed: rv });
                                self.fail_with("Passphrases do not match");
                                return Request::Nothing;
                            }
                            let request = Request::Rotate {
                                environment: environment.clone(),
                                current: cur.clone(),
                                new_pass: new.clone(),
                            };
                            self.popup = Some(Popup::Rotate { environment, stage, current: cur, new_pass: new, confirm: conf, revealed: rv });
                            return request;
                        },
                    }
                }
                if !ctrl_r {
                    match stage {
                        RotateStage::Current => type_key(&mut cur, key),
                        RotateStage::New => type_key(&mut new, key),
                        RotateStage::Confirm => type_key(&mut conf, key),
                    }
                }
                self.popup = Some(Popup::Rotate {
                    environment,
                    stage,
                    current: cur,
                    new_pass: new,
                    confirm: conf,
                    revealed: if ctrl_r { !rv } else { rv },
                });
                Request::Nothing
            },
            _ => Request::Nothing,
        }
    }

    fn key_picker(&mut self, key: Key, ctrl: bool) -> (r: Request)
        requires
            old(self).popup matches Some(Popup::ProjectPicker { .. }),
        ensures
            popup_key_step(*old(self), key, ctrl, *final(self), r),
    {
        let ctrl_r = ctrl && key == Key::Char('r');
        match self.popup.take() {
            Some(Popup::ProjectPicker { query: mut q, index: i }) => {
                if key == Key::Esc {
                    return Request::Nothing;
                }
                let ids = self.filtered_project_indices(q.as_str());
                if key == Key::Enter {
                    if i < ids.len() {
                        let pi = ids[i];
                        self.active_project = pi;
                        self.expanded = true;
                        return Request::OpenProject { index: pi };
                    }
                    self.fail_with("No matching projects");
                    return Request::Nothing;
                }
                let i2 = if key == Key::Up {
                    if i >= 1 { i - 1 } else { 0 }
                } else if key == Key::Down {
                    if ids.len() > 0 { add_capped(i, 1, ids.len() - 1) } else { i }
                } else if key == Key::Backspace {
                    0
                } else {
                    match key {
                        Key::Char(c) => if !crate::cli::state::is_control_char(c) { 0 } else { i },
                        _ => i,
                    }
                };
                if !(key == Key::Up || key == Key::Down) {
                    type_key(&mut q, key);
                }
                self.popup = Some(Popup::ProjectPicker { query: q, index: i2 });
                Request::Nothing
            },
            _ => Request::Nothing,
        }
    }

    fn key_help(&mut self, key: Key, ctrl: bool) -> (r: Request)
        requires
            old(self).popup matches Some(Popup::Help { .. }),
        ensures
            popup_key_step(*old(self), key, ctrl, *final(self), r),
    {
        let ctrl_r = ctrl && key == Key::Char('r');
        match self.popup.take() {
            Some(Popup::Help { scroll }) => {
                let n = lines(HELP_TEXT).len();
                proof {
                    assert(lines_spec(HELP_TEXT@).len() == n);
                }
                match scroll_step(key, n, scroll) {
                    Some(next) => {
                        self.popup = Some(Popup::Help { scroll: next });
                    },
                    None => {
                        let closes = key == Key::Esc || key == Key::Enter || key == Key::Char('?') || key == Key::Char('q')
                            || key == Key::Char('Q');
                        if !closes {
                            self.popup = Some(Popup::Help { scroll });
                        }
                    },
                }
                Request::Nothing
            },
            _ => Request::Nothing,
        }
    }

    fn key_diff(&mut self, key: Key, ctrl: bool) -> (r: Request)
        requires
            old(self).popup matches Some(Popup::Diff { .. }),
        ensures
            popup_key_step(*old(self), key, ctrl, *final(self), r),
    {
        let ctrl_r = ctrl && key == Key::Char('r');
        match self.popup.take() {
            Some(Popup::Diff { text, scroll }) => {
                let n = lines(text.as_str()).len();
                proof {
                    assert(lines_spec(text@).len() == n);
                }
                match scroll_step(key, n, scroll) {
                    Some(next) => {
                        self.popup = Some(Popup::Diff { text, scroll: next });
                    },
                    None => {
                        let closes = key == Key::Esc || key == Key::Enter || key == Key::Char('q') || key == Key::Char('Q')
                            || key == Key::Char('g') || key == Key::Char('G');
                        if !closes {
                            self.popup = Some(Popup::Diff { text, scroll });
                        }
                    },
                }
                Request::Nothing
            },
            _ => Request::Nothing,
        }
    }

    fn key_status(&mut self, key: Key, ctrl: bool) -> (r: Request)
        requires
            old(self).popup matches Some(Popup::Status { .. }),
        ensures
            popup_key_step(*old(self), key, ctrl, *final(self), r),
    {
        let ctrl_r = ctrl && key == Key::Char('r');
        match self.popup.take() {
            Some(Popup::Status { text, scroll }) => {
                let n = lines(text.as_str()).len();
                proof {
                    assert(lines_spec(text@).len() == n);
                }
                match scroll_step(key, n, scroll) {
                    Some(next) => {
                        self.popup = Some(Popup::Status { text, scroll: next });
                    },
                    None => {
                        let closes = key == Key::Esc || key == Key::Enter || key == Key::Char('q') || key == Key::Char('Q')
                            || key == Key::Char('t') || key == Key::Char('T');
                        if !closes {
                            self.popup = Some(Popup::Status { text, scroll });
                        }
                    },
                }
                Request::Nothing
            },
            _ => Request::Nothing,
        }
    }

    fn key_passphrase(&mut self, key: Key, ctrl: bool) -> (r: Request)
        requires
            old(self).popup matches Some(Popup::Passphrase { .. }),
        ensures
            popup_key_step(*old(self), key, ctrl, *final(self), r),
    {
        let ctrl_r = ctrl && key == Key::Char('r');
        match self.popup.take() {
            Some(Popup::Passphrase { environment, value: mut v, purpose }) => {
                if key == Key::Esc {
                    return match purpose {
                        PassphrasePurpose::Sync => Request::CancelSync,
                        _ => Request::Nothing,
                    };
                }
                if key == Key::Enter {
                    return Request::SubmitPassphrase { environment, value: v, purpose };
                }
                type_key(&mut v, key);
                self.popup = Some(Popup::Passphrase { environment, value: v, purpose });
                Request::Nothing
            },
            _ => Request::Nothing,
        }
    }
}

impl App {
    /// Moves the sidebar cursor to project `pi`'s row (the first row when
    /// it is not shown).
    pub fn cursor_to_project(&mut self, pi: usize)
        ensures
            *final(self) == (App { sidebar_cursor: project_row(*old(self), pi) as usize, ..*old(self) }),
    {
        let rows = self.flatten_sidebar();
        let mut k: usize = 0;
        let mut found: Option<usize> = None;
        while k < rows.len()
            invariant
                0 <= k <= rows@.len(),
                rows@ == self.sidebar(),
                found is None ==> first_index(rows@.take(k as int), SidebarEntry::Project(pi)) == -1,
                found matches Some(f) ==> first_index(rows@, SidebarEntry::Project(pi)) == f && f < rows@.len(),
            decreases rows@.len() - k,
        {
            proof {
                assert(rows@.take(k + 1).drop_last() =~= rows@.take(k as int));
            }
            if found.is_none() && rows[k] == SidebarEntry::Project(pi) {
                found = Some(k);
                proof {
                    lemma_first_index_prefix(rows@, k as int + 1, SidebarEntry::Project(pi));
                }
            }
            k += 1;
        }
        proof {
            assert(rows@.take(rows@.len() as int) =~= rows@);
        }
        self.sidebar_cursor = match found {
            Some(f) => f,
            None => 0,
        };
    }

    /// Folds the expanded project back, keeping the cursor on its row.
    pub fn collapse_sidebar(&mut self)
        ensures
            old(self).expanded ==> *final(self) == (App {
                expanded: false,
                sidebar_cursor: project_row(App { expanded: false, ..*old(self) }, old(self).active_project) as usize,
                ..*old(self)
            }),
            !old(self).expanded ==> *final(self) == *old(self),
    {
        if self.expanded {
            self.expanded = false;
            let pi = self.active_project;
            self.cursor_to_project(pi);
        }
    }

    /// Handles one key press of the session (see [`key_step`]): the open
    /// dialog or palette gets it first, then the filter being typed; Esc
    /// points at Q, `:` opens the palette; in the sidebar Up/Down move,
    /// Enter/Right open the row and Left folds the project; letter keys
    /// run their commands; the rest goes to [`App::handle_input`].
    pub fn handle_key(&mut self, key: Key, ctrl: bool) -> (r: Request)
        ensures
            key_step(*old(self), key, ctrl, *final(self), r),
    {
        if self.popup.is_some() {
            return self.handle_popup_key(key, ctrl);
        }
        if self.command_mode {
            return self.handle_palette_key(key);
        }
        if self.search_active {
            match key {
                Key::Esc => {
                    self.search_active = false;
                },
                Key::Enter => {
                    self.search_active = false;
                },
                Key::Backspace => {
                    self.handle_input(Input::Backspace);
                },
                Key::Char(c) => {
                    if !crate::cli::state::is_control_char(c) {
                        self.handle_input(Input::Character(c));
                    }
                },
                _ => {},
            }
            return Request::Nothing;
        }
        if key == Key::Esc {
            self.status = "Press Q to quit".to_string();
            self.status_is_error = false;
            return Request::Nothing;
        }
        if key == Key::Char(':') {
            self.open_command_palette();
            return Request::Nothing;
        }
        let input = match key {
            Key::Char(c) => {
                if c == 'q' || c == 'Q' {
                    Input::Quit
                } else if c == ' ' {
                    Input::Space
                } else {
                    Input::Character(c)
                }
            },
            Key::Up => Input::Up,
            Key::Down => Input::Down,
            Key::Left => Input::Left,
            Key::Right => Input::Right,
            Key::Tab => Input::Tab,
            Key::Enter => Input::Enter,
            Key::Backspace => Input::Backspace,
            _ => {
                return Request::Nothing;
            },
        };
        if self.focus == Focus::Sidebar && (input == Input::Up || input == Input::Down) {
            self.move_sidebar_cursor(if input == Input::Up { -1 } else { 1 });
            return Request::Nothing;
        }
        if self.focus == Focus::Sidebar && (input == Input::Enter || input == Input::Right) {
            return Request::SelectSidebarEntry;
        }
        if self.focus == Focus::Sidebar && input == Input::Left {
            self.collapse_sidebar();
            return Request::Nothing;
        }
        if let Input::Character(c) = input {
            let command = if c == 'l' || c == 'L' {
                Some(Command::Lock)
            } else if c == 'u' || c == 'U' {
                Some(Command::Unlock)
            } else if c == 'n' || c == 'N' {
                Some(Command::NewSecret)
            } else if c == 'e' || c == 'E' {
                Some(Command::EditSecret)
            } else if c == 'd' || c == 'D' {
                Some(Command::DeleteSecret)
            } else if c == 'x' || c == 'X' {
                Some(Command::DeleteProject)
            } else if c == 'p' || c == 'P' {
                Some(Command::SwitchProject)
            } else if c == '?' {
                Some(Command::Help)
            } else if c == 's' || c == 'S' {
                Some(Command::Seal)
            } else if c == 'r' || c == 'R' {
                Some(Command::Rotate)
            } else if c == 't' || c == 'T' {
                Some(Command::Status)
            } else if c == 'g' || c == 'G' {
                Some(Command::Diff)
            } else if c == 'y' || c == 'Y' {
                Some(if self.focus == Focus::Secrets { Command::CopySecret } else { Command::Import })
            } else {
                None
            };
            if let Some(cmd) = command {
                return Request::Run(cmd);
            }
        }
        if self.handle_input(input) {
            Request::Quit
        } else {
            Request::Nothing
        }
    }
}

/// Once `e` occurs in the first `n` rows, its first position is fixed.
proof fn lemma_first_index_prefix(rows: Seq<SidebarEntry>, n: int, e: SidebarEntry)
    requires
        0 < n <= rows.len(),
        first_index(rows.take(n), e) >= 0,
    ensures
        first_index(rows, e) == first_index(rows.take(n), e),
    decreases rows.len() - n,
{
    if n < rows.len() {
        assert(rows.take(n + 1).drop_last() =~= rows.take(n));
        lemma_first_index_prefix(rows, n + 1, e);
    } else {
        assert(rows.take(n) =~= rows);
    }
}

} // verus!
