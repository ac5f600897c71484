//! What the interactive session's screen shows, as text: the status bar, the
//! sidebar and secrets panes, the dialogs, the command palette and the
//! project picker, and where a dialog is placed. Drawing these texts on a
//! terminal is left to the front end.
use vstd::prelude::*;
use crate::cli::keys::HELP_TEXT;
use crate::cli::session::{
    display, display_text, palette_actions, palette_table, popup_inner_height, Focus, PassphrasePurpose, RotateStage,
    VaultState,
};
use crate::cli::state::{filtered_of, lemma_filtered_in_range, project_names, sidebar_of, App, Popup};
use crate::cli::session::SidebarEntry;
use crate::cli::time::{format_timestamp_at, session_age};
use crate::engine::status::SyncStatus;
use crate::text::{
    ascii_lower_spec, contains_spec, contains_str, decimal, lines, lines_spec, push_str, to_ascii_lowercase, u64_to_decimal,
};

verus! {

/// A rectangle of terminal cells.
#[derive(Debug, Clone, Copy, PartialEq, Eq, Structural)]
pub struct Area {
    pub x: u16,
    pub y: u16,
    pub width: u16,
    pub height: u16,
}

/// `a` capped at `b`.
pub open spec fn at_most(a: u16, b: u16) -> u16 {
    if a < b { a } else { b }
}

/// A `width` by `height` rectangle centred in `area`, each side capped at
/// the area's.
pub fn centered(area: Area, width: u16, height: u16) -> (r: Area)
    requires
        area.x + area.width <= u16::MAX,
        area.y + area.height <= u16::MAX,
    ensures
        r.width == at_most(width, area.width),
        r.height == at_most(height, area.height),
        r.x == area.x + (area.width - r.width) / 2,
        r.y == area.y + (area.height - r.height) / 2,
{
    let w: u16 = if width < area.width { width } else { area.width };
    let h: u16 = if height < area.height { height } else { area.height };
    Area { x: area.x + (area.width - w) / 2, y: area.y + (area.height - h) / 2, width: w, height: h }
}

/// The rows a dialog takes, borders included: a scrolling dialog shows
/// [`popup_inner_height`] rows of its `lines`; any other shows its own
/// `text_lines`, between five and nine.
pub open spec fn popup_rows(lines: int, text_lines: int) -> int {
    if lines > 0 {
        (if lines < 5 { 5 } else if lines > 20 { 20 } else { lines }) + 2
    } else {
        (if text_lines < 5 { 5 } else if text_lines > 9 { 9 } else { text_lines }) + 2
    }
}

/// The height of a dialog; see [`popup_rows`].
pub fn popup_height(lines: usize, text_lines: usize) -> (h: u16)
    ensures
        h == popup_rows(lines as int, text_lines as int),
{
    if lines > 0 {
        let inner = popup_inner_height(lines);
        inner as u16 + 2
    } else {
        let n: u16 = if text_lines < 5 { 5 } else if text_lines > 9 { 9 } else { text_lines as u16 };
        n + 2
    }
}

/// The name of the active environment, or `fallback` when there is none.
pub open spec fn active_env_name(app: App, fallback: Seq<char>) -> Seq<char> {
    if app.active_environment < app.environments@.len() {
        app.environments@[app.active_environment as int].name@
    } else {
        fallback
    }
}

/// The bottom line: lock state, active environment, the status message and
/// either the key hints or a working notice.
pub open spec fn status_bar_text(app: App) -> Seq<char> {
    " "@ + (if app.vault_state == VaultState::Locked { "[Locked]"@ } else { "[Unlocked]"@ }) + "  "@
        + active_env_name(app, "no environment"@) + " | "@ + app.status@ + (if app.working {
        " Working..."@
    } else {
        " [?] Help  \u{2191}\u{2193} Navigate  Enter Select  Tab Panel  Q Quit"@
    })
}

/// The status bar of the session; see [`status_bar_text`].
pub fn status_bar(app: &App) -> (s: String)
    ensures
        s@ == status_bar_text(*app),
{
    let mut s = " ".to_string();
    match app.vault_state {
        VaultState::Locked => push_str(&mut s, "[Locked]"),
        VaultState::Unlocked => push_str(&mut s, "[Unlocked]"),
    }
    push_str(&mut s, "  ");
    match app.active_environment() {
        Some(e) => push_str(&mut s, e.name.as_str()),
        None => push_str(&mut s, "no environment"),
    }
    push_str(&mut s, " | ");
    push_str(&mut s, app.status.as_str());
    if app.working {
        push_str(&mut s, " Working...");
    } else {
        push_str(&mut s, " [?] Help  \u{2191}\u{2193} Navigate  Enter Select  Tab Panel  Q Quit");
    }
    s
}

/// The search line shown while filtering secrets, if any.
pub fn search_line(app: &App) -> (r: Option<String>)
    ensures
        app.search_active ==> (r matches Some(s) && s@ == " Find: "@ + app.search@),
        !app.search_active ==> r is None,
{
    if app.search_active {
        let mut s = " Find: ".to_string();
        push_str(&mut s, app.search.as_str());
        Some(s)
    } else {
        None
    }
}

/// Rows of the banner: the compact strip or the five-row logo.
pub fn banner_height(app: &App) -> (h: u16)
    ensures
        h == if app.compact_banner { 1u16 } else { 5u16 },
{
    if app.compact_banner { 1 } else { 5 }
}

/// A dialog as text: its title, its body, the number of lines it scrolls
/// over (0 for a dialog that does not scroll) and its scroll offset.
pub struct PopupView {
    pub title: String,
    pub text: String,
    pub lines: usize,
    pub scroll: usize,
}

/// The key of the secret at `index`, or `?` when there is none.
pub open spec fn secret_key_at(app: App, index: usize) -> Seq<char> {
    if index < app.secrets@.len() {
        app.secrets@[index as int].key@
    } else {
        "?"@
    }
}

/// One line of the seal preview per environment: name and secret count.
pub open spec fn seal_rows(envs: Seq<(String, usize)>) -> Seq<char>
    decreases envs.len(),
{
    if envs.len() == 0 {
        seq![]
    } else {
        seal_rows(envs.drop_last()) + "  "@ + envs.last().0@ + "  ("@ + decimal(envs.last().1 as nat) + " secrets)\n"@
    }
}

/// The body of the seal preview.
pub open spec fn seal_text(project: Seq<char>, envs: Seq<(String, usize)>) -> Seq<char> {
    "Seal project '"@ + project + "' into envy.enc?\n\n"@ + seal_rows(envs)
        + "\nEnvironments already sealed keep their passphrase.\n\nEnter=seal  Esc=cancel"@
}

/// The step counter of the rotate dialog.
pub open spec fn rotate_step_text(stage: RotateStage) -> Seq<char> {
    match stage {
        RotateStage::Current => "step 1/3"@,
        RotateStage::New => "step 2/3"@,
        RotateStage::Confirm => "step 3/3"@,
    }
}

/// The field label of the rotate dialog.
pub open spec fn rotate_label(stage: RotateStage) -> Seq<char> {
    match stage {
        RotateStage::Current => "Current passphrase"@,
        RotateStage::New => "New passphrase"@,
        RotateStage::Confirm => "Confirm new passphrase"@,
    }
}

/// The field the rotate dialog edits at `stage`.
pub open spec fn rotate_field(stage: RotateStage, current: Seq<char>, new_pass: Seq<char>, confirm: Seq<char>) -> Seq<char> {
    match stage {
        RotateStage::Current => current,
        RotateStage::New => new_pass,
        RotateStage::Confirm => confirm,
    }
}

/// The title of the passphrase dialog.
pub open spec fn passphrase_title(purpose: PassphrasePurpose) -> Seq<char> {
    match purpose {
        PassphrasePurpose::Sync => "Sync passphrase"@,
        PassphrasePurpose::Diff => "Diff passphrase"@,
        PassphrasePurpose::Decrypt => "Import passphrase"@,
    }
}

/// What the open dialog shows as (title, text, lines, scroll); `None` when
/// no dialog is open or it is the project picker, which is a list.
pub open spec fn popup_content(app: App) -> Option<(Seq<char>, Seq<char>, int, int)> {
    match app.popup {
        None => None,
        Some(Popup::ProjectPicker { .. }) => None,
        Some(Popup::New { key, value, editing_value, revealed }) => Some((
            "New secret"@,
            "Key: "@ + key@ + "\n"@ + (if editing_value { "(editing) "@ } else { ""@ }) + "Value: "@
                + display_text(value@, revealed)
                + "\n\nEnter=next field/save  Tab=switch field  Ctrl+R=reveal  Esc=cancel"@,
            0,
            0,
        )),
        Some(Popup::Edit { index, value, revealed }) => Some((
            "Edit secret \u{2014} "@ + secret_key_at(app, index),
            "Value: "@ + display_text(value@, revealed) + "\n\nCtrl+R=reveal  Enter=save  Esc=cancel"@,
            0,
            0,
        )),
        Some(Popup::Delete { index }) => Some((
            "Delete secret"@,
            "Delete '"@ + secret_key_at(app, index) + "' from "@ + active_env_name(app, "?"@)
                + "?\n\nEnter=confirm  Esc=cancel"@,
            0,
            0,
        )),
        Some(Popup::DeleteProject { name, environment_count, secret_count, confirmation }) => Some((
            "Delete project \u{2014} IRREVERSIBLE"@,
            "Project: "@ + name@ + "\nThis permanently deletes "@ + decimal(environment_count as nat)
                + " environment(s) and "@ + decimal(secret_count as nat)
                + " secret(s).\n\nType the project name to confirm:\n> "@ + confirmation@
                + "\n\nEnter=confirm  Esc=cancel"@,
            0,
            0,
        )),
        Some(Popup::ConfirmImport { environment }) => Some((
            "Import from envy.enc"@,
            "Import environment '"@ + environment@
                + "' from envy.enc into the vault?\nExisting secrets with the same keys will be overwritten.\n\nEnter=import  Esc=cancel"@,
            0,
            0,
        )),
        Some(Popup::ConfirmSeal { project, environments, scroll }) => Some((
            "Seal to envy.enc (\u{2191}\u{2193} scroll)"@,
            seal_text(project@, environments@),
            lines_spec(seal_text(project@, environments@)).len() as int,
            scroll as int,
        )),
        Some(Popup::Rotate { environment, stage, current, new_pass, confirm, revealed }) => Some((
            "Rotate passphrase \u{2014} "@ + environment@,
            rotate_step_text(stage) + "  "@ + rotate_label(stage) + ": "@
                + display_text(rotate_field(stage, current@, new_pass@, confirm@), revealed)
                + "\n\nCtrl+R=reveal  Enter=next  Esc=cancel"@,
            0,
            0,
        )),
        Some(Popup::Help { scroll }) => Some((
            "Help (\u{2191}\u{2193} scroll)"@,
            HELP_TEXT@,
            lines_spec(HELP_TEXT@).len() as int,
            scroll as int,
        )),
        Some(Popup::Diff { text, scroll }) => Some((
            "Diff (\u{2191}\u{2193} scroll)"@,
            text@,
            lines_spec(text@).len() as int,
            scroll as int,
        )),
        Some(Popup::Status { text, scroll }) => Some((
            "Status (\u{2191}\u{2193} scroll)"@,
            text@,
            lines_spec(text@).len() as int,
            scroll as int,
        )),
        Some(Popup::Passphrase { environment, value: _, purpose }) => Some((
            passphrase_title(purpose),
            environment@ + "\nPassphrase: ********\n\nEnter=continue  Esc=cancel"@,
            0,
            0,
        )),
    }
}

/// The number of lines of `s`.
fn line_count(s: &str) -> (n: usize)
    ensures
        n == lines_spec(s@).len(),
{
    let v = lines(s);
    proof {
        assert(v@.map_values(|l: String| l@).len() == v@.len());
    }
    v.len()
}

/// The text of the open dialog; see [`popup_content`].
pub fn popup_view(app: &App) -> (r: Option<PopupView>)
    ensures
        match popup_content(*app) {
            None => r is None,
            Some(c) => r matches Some(v) && v.title@ == c.0 && v.text@ == c.1 && v.lines == c.2 && v.scroll == c.3,
        },
{
    match &app.popup {
        None => None,
        Some(Popup::ProjectPicker { .. }) => None,
        Some(Popup::New { key, value, editing_value, revealed }) => {
            let mut text = "Key: ".to_string();
            push_str(&mut text, key.as_str());
            push_str(&mut text, "\n");
            if *editing_value {
                push_str(&mut text, "(editing) ");
            } else {
                push_str(&mut text, "");
            }
            push_str(&mut text, "Value: ");
            let shown = display(value.as_str(), *revealed);
            push_str(&mut text, shown.as_str());
            push_str(&mut text, "\n\nEnter=next field/save  Tab=switch field  Ctrl+R=reveal  Esc=cancel");
            Some(PopupView { title: "New secret".to_string(), text, lines: 0, scroll: 0 })
        },
        Some(Popup::Edit { index, value, revealed }) => {
            let mut title = "Edit secret \u{2014} ".to_string();
            if *index < app.secrets.len() {
                push_str(&mut title, app.secrets[*index].key.as_str());
            } else {
                push_str(&mut title, "?");
            }
            let mut text = "Value: ".to_string();
            let shown = display(value.as_str(), *revealed);
            push_str(&mut text, shown.as_str());
            push_str(&mut text, "\n\nCtrl+R=reveal  Enter=save  Esc=cancel");
            Some(PopupView { title, text, lines: 0, scroll: 0 })
        },
        Some(Popup::Delete { index }) => {
            let mut text = "Delete '".to_string();
            if *index < app.secrets.len() {
                push_str(&mut text, app.secrets[*index].key.as_str());
            } else {
                push_str(&mut text, "?");
            }
            push_str(&mut text, "' from ");
            match app.active_environment() {
                Some(e) => push_str(&mut text, e.name.as_str()),
                None => push_str(&mut text, "?"),
            }
            push_str(&mut text, "?\n\nEnter=confirm  Esc=cancel");
            Some(PopupView { title: "Delete secret".to_string(), text, lines: 0, scroll: 0 })
        },
        Some(Popup::DeleteProject { name, environment_count, secret_count, confirmation }) => {
            let mut text = "Project: ".to_string();
            push_str(&mut text, name.as_str());
            push_str(&mut text, "\nThis permanently deletes ");
            let ec = u64_to_decimal(*environment_count as u64);
            push_str(&mut text, ec.as_str());
            push_str(&mut text, " environment(s) and ");
            let sc = u64_to_decimal(*secret_count as u64);
            push_str(&mut text, sc.as_str());
            push_str(&mut text, " secret(s).\n\nType the project name to confirm:\n> ");
            push_str(&mut text, confirmation.as_str());
            push_str(&mut text, "\n\nEnter=confirm  Esc=cancel");
            Some(PopupView { title: "Delete project \u{2014} IRREVERSIBLE".to_string(), text, lines: 0, scroll: 0 })
        },
        Some(Popup::ConfirmImport { environment }) => {
            let mut text = "Import environment '".to_string();
            push_str(&mut text, environment.as_str());
            push_str(
                &mut text,
                "' from envy.enc into the vault?\nExisting secrets with the same keys will be overwritten.\n\nEnter=import  Esc=cancel",
            );
            Some(PopupView { title: "Import from envy.enc".to_string(), text, lines: 0, scroll: 0 })
        },
        Some(Popup::ConfirmSeal { project, environments, scroll }) => {
            let mut text = "Seal project '".to_string();
            push_str(&mut text, project.as_str());
            push_str(&mut text, "' into envy.enc?\n\n");
            let ghost head = text@;
            let mut i: usize = 0;
            while i < environments.len()
                invariant
                    0 <= i <= environments@.len(),
                    text@ == head + seal_rows(environments@.take(i as int)),
                decreases environments@.len() - i,
            {
                proof {
                    assert(environments@.take(i + 1).drop_last() =~= environments@.take(i as int));
                }
                push_str(&mut text, "  ");
                push_str(&mut text, environments[i].0.as_str());
                push_str(&mut text, "  (");
                let n = u64_to_decimal(environments[i].1 as u64);
                push_str(&mut text, n.as_str());
                push_str(&mut text, " secrets)\n");
                i += 1;
            }
            proof {
                assert(environments@.take(environments@.len() as int) =~= environments@);
            }
            push_str(&mut text, "\nEnvironments already sealed keep their passphrase.\n\nEnter=seal  Esc=cancel");
            let lines = line_count(text.as_str());
            Some(PopupView { title: "Seal to envy.enc (\u{2191}\u{2193} scroll)".to_string(), text, lines, scroll: *scroll })
        },
        Some(Popup::Rotate { environment, stage, current, new_pass, confirm, revealed }) => {
            let mut title = "Rotate passphrase \u{2014} ".to_string();
            push_str(&mut title, environment.as_str());
            let (step, label, value) = match stage {
                RotateStage::Current => ("step 1/3", "Current passphrase", current.as_str()),
                RotateStage::New => ("step 2/3", "New passphrase", new_pass.as_str()),
                RotateStage::Confirm => ("step 3/3", "Confirm new passphrase", confirm.as_str()),
            };
            let mut text = step.to_string();
            push_str(&mut text, "  ");
            push_str(&mut text, label);
            push_str(&mut text, ": ");
            let shown = display(value, *revealed);
            push_str(&mut text, shown.as_str());
            push_str(&mut text, "\n\nCtrl+R=reveal  Enter=next  Esc=cancel");
            Some(PopupView { title, text, lines: 0, scroll: 0 })
        },
        Some(Popup::Help { scroll }) => {
            let lines = line_count(HELP_TEXT);
            Some(PopupView {
                title: "Help (\u{2191}\u{2193} scroll)".to_string(),
                text: HELP_TEXT.to_string(),
                lines,
                scroll: *scroll,
            })
        },
        Some(Popup::Diff { text, scroll }) => {
            let lines = line_count(text.as_str());
            Some(PopupView { title: "Diff (\u{2191}\u{2193} scroll)".to_string(), text: text.clone(), lines, scroll: *scroll })
        },
        Some(Popup::Status { text, scroll }) => {
            let lines = line_count(text.as_str());
            Some(PopupView { title: "Status (\u{2191}\u{2193} scroll)".to_string(), text: text.clone(), lines, scroll: *scroll })
        },
        Some(Popup::Passphrase { environment, value: _, purpose }) => {
            let title = match purpose {
                PassphrasePurpose::Sync => "Sync passphrase",
                PassphrasePurpose::Diff => "Diff passphrase",
                PassphrasePurpose::Decrypt => "Import passphrase",
            };
            let mut text = environment.clone();
            push_str(&mut text, "\nPassphrase: ********\n\nEnter=continue  Esc=cancel");
            Some(PopupView { title: title.to_string(), text, lines: 0, scroll: 0 })
        },
    }
}

/// `>` on the selected row of a list, a space elsewhere.
pub open spec fn marker(selected: bool) -> Seq<char> {
    if selected { ">"@ } else { " "@ }
}

/// The rows of a list with the row at `selected` marked.
pub open spec fn marked(items: Seq<Seq<char>>, selected: int) -> Seq<Seq<char>> {
    Seq::new(items.len(), |row: int| marker(row == selected) + " "@ + items[row])
}

/// The character view of each string, in order.
pub open spec fn string_views(v: Seq<String>) -> Seq<Seq<char>> {
    v.map_values(|s: String| s@)
}

fn mark_rows(items: &Vec<String>, selected: usize) -> (r: Vec<String>)
    ensures
        string_views(r@) == marked(string_views(items@), selected as int),
{
    let ghost want = marked(string_views(items@), selected as int);
    let mut rows: Vec<String> = Vec::new();
    let mut i: usize = 0;
    while i < items.len()
        invariant
            0 <= i <= items@.len(),
            want == marked(string_views(items@), selected as int),
            rows@.len() == i,
            forall|k: int| 0 <= k < i ==> (#[trigger] rows@[k])@ == want[k],
        decreases items@.len() - i,
    {
        let mut row = if i == selected { ">".to_string() } else { " ".to_string() };
        push_str(&mut row, " ");
        push_str(&mut row, items[i].as_str());
        rows.push(row);
        i += 1;
    }
    proof {
        assert(string_views(rows@) =~= want);
    }
    rows
}

/// The row to highlight in a list of `n` rows: `index`, kept on the last
/// row.
pub fn selected_row(index: usize, n: usize) -> (r: usize)
    ensures
        r == if n == 0 { 0 } else if index < n { index as int } else { n - 1 },
{
    let last: usize = if n > 0 { n - 1 } else { 0 };
    if index < last { index } else { last }
}

/// The labels of the palette commands whose label contains `q`, in order.
pub open spec fn palette_labels(q: Seq<char>, table: Seq<(Seq<char>, Seq<char>)>) -> Seq<Seq<char>>
    decreases table.len(),
{
    if table.len() == 0 {
        seq![]
    } else {
        let prev = palette_labels(q, table.drop_last());
        if q.len() == 0 || contains_spec(ascii_lower_spec(table.last().1), q) {
            prev.push(table.last().1)
        } else {
            prev
        }
    }
}

/// The rows of the command palette: the labels matching the query (any
/// case), the one at the palette index marked.
pub fn palette_rows(app: &App) -> (r: Vec<String>)
    ensures
        string_views(r@) == marked(
            palette_labels(ascii_lower_spec(app.command_query@), palette_table()),
            app.palette_index as int,
        ),
{
    let q = to_ascii_lowercase(app.command_query.as_str());
    let q_empty = crate::text::chars_of(q.as_str()).len() == 0;
    let actions = palette_actions();
    let mut labels: Vec<String> = Vec::new();
    let mut i: usize = 0;
    let ghost table = palette_table();
    proof {
        assert(table.take(0) =~= Seq::<(Seq<char>, Seq<char>)>::empty());
        assert(string_views(labels@) =~= Seq::<Seq<char>>::empty());
    }
    while i < actions.len()
        invariant
            table == palette_table(),
            actions@.len() == table.len(),
            forall|k: int| 0 <= k < actions@.len() ==> (#[trigger] actions@[k]).id@ == table[k].0 && actions@[k].label@
                == table[k].1,
            q@ == ascii_lower_spec(app.command_query@),
            q_empty == (q@.len() == 0),
            0 <= i <= actions@.len(),
            string_views(labels@) == palette_labels(q@, table.take(i as int)),
        decreases actions@.len() - i,
    {
        let a = &actions[i];
        proof {
            assert(table.take(i + 1).drop_last() =~= table.take(i as int));
            assert(table.take(i + 1).last() == table[i as int]);
        }
        let lowered = to_ascii_lowercase(a.label);
        let ghost before = labels@;
        if q_empty || contains_str(lowered.as_str(), q.as_str()) {
            labels.push(a.label.to_string());
            proof {
                assert(string_views(labels@) =~= string_views(before).push(a.label@));
            }
        }
        i += 1;
    }
    proof {
        assert(table.take(table.len() as int) =~= table);
    }
    mark_rows(&labels, app.palette_index)
}

/// The query line of the command palette.
pub fn palette_prompt(app: &App) -> (s: String)
    ensures
        s@ == "Run command: "@ + app.command_query@,
{
    let mut s = "Run command: ".to_string();
    push_str(&mut s, app.command_query.as_str());
    s
}

/// The rows of the project picker: the projects whose name matches `query`
/// (any case), the one at `index` marked.
pub fn picker_rows(app: &App, query: &str, index: usize) -> (r: Vec<String>)
    ensures
        string_views(r@) == marked(
            filtered_of(project_names(app.projects@), ascii_lower_spec(query@)).map_values(
                |pi: usize| app.projects@[pi as int].name@,
            ),
            index as int,
        ),
{
    let m = app.filtered_project_indices(query);
    let n_projects: usize = app.projects.len();
    let ghost names = project_names(app.projects@);
    proof {
        assert(names.len() == n_projects);
        lemma_filtered_in_range(names, ascii_lower_spec(query@));
    }
    let ghost want = m@.map_values(|pi: usize| app.projects@[pi as int].name@);
    let mut items: Vec<String> = Vec::new();
    let mut i: usize = 0;
    while i < m.len()
        invariant
            0 <= i <= m@.len(),
            m@ == filtered_of(names, ascii_lower_spec(query@)),
            names == project_names(app.projects@),
            names.len() == app.projects@.len(),
            forall|k: int| 0 <= k < m@.len() ==> (#[trigger] m@[k]) < names.len(),
            want == m@.map_values(|pi: usize| app.projects@[pi as int].name@),
            items@.len() == i,
            forall|k: int| 0 <= k < i ==> (#[trigger] items@[k])@ == want[k],
        decreases m@.len() - i,
    {
        let pi = m[i];
        items.push(app.projects[pi].name.clone());
        i += 1;
    }
    proof {
        assert(string_views(items@) =~= want);
    }
    mark_rows(&items, index)
}

/// The search line of the project picker.
pub fn picker_prompt(query: &str) -> (s: String)
    ensures
        s@ == "Search: "@ + query@,
{
    let mut s = "Search: ".to_string();
    push_str(&mut s, query);
    s
}

/// A sidebar row names a project among the first `n` and, for an
/// environment, one among the first `n_envs`.
pub open spec fn entry_in_range(e: SidebarEntry, n: int, n_envs: int) -> bool {
    match e {
        SidebarEntry::Project(pi) => pi < n,
        SidebarEntry::Environment(pi, ei) => pi < n && ei < n_envs,
    }
}

proof fn lemma_sidebar_in_range(n: int, expanded: bool, active: int, n_envs: int)
    requires
        0 <= n <= usize::MAX,
        0 <= n_envs <= usize::MAX,
    ensures
        forall|k: int| 0 <= k < sidebar_of(n, expanded, active, n_envs).len()
            ==> entry_in_range(#[trigger] sidebar_of(n, expanded, active, n_envs)[k], n, n_envs),
    decreases n,
{
    if n > 0 {
        lemma_sidebar_in_range(n - 1, expanded, active, n_envs);
        let prev = sidebar_of(n - 1, expanded, active, n_envs);
        let rows = prev.push(SidebarEntry::Project((n - 1) as usize));
        assert forall|k: int| 0 <= k < rows.len() implies entry_in_range(#[trigger] rows[k], n, n_envs) by {
            if k < prev.len() {
                assert(entry_in_range(prev[k], n - 1, n_envs));
            }
        }
        if expanded && n - 1 == active {
            let envs = Seq::new(n_envs as nat, |e: int| SidebarEntry::Environment((n - 1) as usize, e as usize));
            assert forall|k: int| 0 <= k < (rows + envs).len() implies entry_in_range(#[trigger] (rows + envs)[k], n, n_envs) by {
                if k < rows.len() {
                    assert(entry_in_range(rows[k], n, n_envs));
                } else {
                    assert((rows + envs)[k] == envs[k - rows.len()]);
                }
            }
        }
    }
}

/// The icon of a sync state.
pub open spec fn status_icon(s: SyncStatus) -> char {
    match s {
        SyncStatus::InSync => '\u{2713}',
        SyncStatus::Modified => '~',
        SyncStatus::NeverSealed => '\u{b7}',
    }
}

/// The sync icon of environment `ei`, blank when its state is not known.
pub open spec fn env_icon(app: App, ei: usize) -> char {
    if ei < app.sync_statuses@.len() { status_icon(app.sync_statuses@[ei as int]) } else { ' ' }
}

/// One sidebar row: the cursor marker, then for a project its fold arrow,
/// name and a star when active; for an environment its sync icon, an arrow
/// when active, and its name.
pub open spec fn sidebar_row(app: App, row: int, e: SidebarEntry) -> Seq<char> {
    let prefix = marker(row == app.sidebar_cursor && app.focus == Focus::Sidebar);
    match e {
        SidebarEntry::Project(pi) => prefix + (if app.expanded && pi == app.active_project {
            "\u{25be}"@
        } else if pi == app.active_project {
            "\u{25b8}"@
        } else {
            " "@
        }) + " "@ + app.projects@[pi as int].name@ + (if pi == app.active_project { " \u{2605}"@ } else { ""@ }),
        SidebarEntry::Environment(_, ei) => prefix + "   "@ + seq![env_icon(app, ei)] + " "@ + (if ei
            == app.active_environment {
            "\u{25b6}"@
        } else {
            " "@
        }) + " "@ + app.environments@[ei as int].name@,
    }
}

/// The rows of the sidebar pane, one per entry of the sidebar.
pub fn sidebar_rows(app: &App) -> (r: Vec<String>)
    ensures
        string_views(r@) == Seq::new(app.sidebar().len(), |row: int| sidebar_row(*app, row, app.sidebar()[row])),
{
    let flat = app.flatten_sidebar();
    let n_projects: usize = app.projects.len();
    let n_envs: usize = app.environments.len();
    let ghost want = Seq::new(app.sidebar().len(), |row: int| sidebar_row(*app, row, app.sidebar()[row]));
    proof {
        lemma_sidebar_in_range(n_projects as int, app.expanded, app.active_project as int, n_envs as int);
    }
    let on_sidebar = app.focus == Focus::Sidebar;
    let mut rows: Vec<String> = Vec::new();
    let mut i: usize = 0;
    while i < flat.len()
        invariant
            0 <= i <= flat@.len(),
            flat@ == app.sidebar(),
            n_projects == app.projects@.len(),
            n_envs == app.environments@.len(),
            on_sidebar == (app.focus == Focus::Sidebar),
            forall|k: int| 0 <= k < flat@.len() ==> entry_in_range(#[trigger] flat@[k], n_projects as int, n_envs as int),
            want == Seq::new(app.sidebar().len(), |row: int| sidebar_row(*app, row, app.sidebar()[row])),
            rows@.len() == i,
            forall|k: int| 0 <= k < i ==> (#[trigger] rows@[k])@ == want[k],
        decreases flat@.len() - i,
    {
        let mut row = if i == app.sidebar_cursor && on_sidebar { ">".to_string() } else { " ".to_string() };
        assert(entry_in_range(flat@[i as int], n_projects as int, n_envs as int));
        match flat[i] {
            SidebarEntry::Project(pi) => {
                if app.expanded && pi == app.active_project {
                    push_str(&mut row, "\u{25be}");
                } else if pi == app.active_project {
                    push_str(&mut row, "\u{25b8}");
                } else {
                    push_str(&mut row, " ");
                }
                push_str(&mut row, " ");
                push_str(&mut row, app.projects[pi].name.as_str());
                if pi == app.active_project {
                    push_str(&mut row, " \u{2605}");
                } else {
                    push_str(&mut row, "");
                }
            },
            SidebarEntry::Environment(_, ei) => {
                push_str(&mut row, "   ");
                let icon = if ei < app.sync_statuses.len() {
                    match app.sync_statuses[ei] {
                        SyncStatus::InSync => '\u{2713}',
                        SyncStatus::Modified => '~',
                        SyncStatus::NeverSealed => '\u{b7}',
                    }
                } else {
                    ' '
                };
                crate::text::push_char(&mut row, icon);
                push_str(&mut row, " ");
                if ei == app.active_environment {
                    push_str(&mut row, "\u{25b6}");
                } else {
                    push_str(&mut row, " ");
                }
                push_str(&mut row, " ");
                push_str(&mut row, app.environments[ei].name.as_str());
            },
        }
        proof {
            assert(row@ =~= want[i as int]);
        }
        rows.push(row);
        i += 1;
    }
    proof {
        assert(string_views(rows@) =~= want);
    }
    rows
}

/// The title of the sidebar pane, starred when it has the focus.
pub fn sidebar_title(app: &App) -> (s: &'static str)
    ensures
        s@ == if app.focus == Focus::Sidebar { " Projects \u{2605}"@ } else { " Projects"@ },
{
    if app.focus == Focus::Sidebar { " Projects \u{2605}" } else { " Projects" }
}

/// What the sidebar pane says when there is no project.
pub const NO_PROJECTS: &'static str = "No projects.\nRun `envy init` first.";

/// What the secrets pane says in place of a table, if anything: the vault
/// is locked, no environment is selected, or no secret is (left) to show.
pub open spec fn secrets_notice_text(app: App) -> Option<Seq<char>> {
    if app.vault_state == VaultState::Locked {
        Some("Vault locked. Press U to unlock."@)
    } else if app.active_environment >= app.environments@.len() {
        Some("No environment selected.\nPress Enter on a project to expand, then \u{2193} to select an environment."@)
    } else if app.filtered().len() == 0 {
        if app.search@.len() == 0 {
            Some("No secrets. Press N to create one."@)
        } else {
            Some("No matching secrets. Press Esc to clear search."@)
        }
    } else {
        None
    }
}

/// The notice of the secrets pane; see [`secrets_notice_text`].
pub fn secrets_notice(app: &App) -> (r: Option<&'static str>)
    ensures
        match secrets_notice_text(*app) {
            None => r is None,
            Some(t) => r matches Some(s) && s@ == t,
        },
{
    if app.vault_state == VaultState::Locked {
        return Some("Vault locked. Press U to unlock.");
    }
    if app.active_environment().is_none() {
        return Some("No environment selected.\nPress Enter on a project to expand, then \u{2193} to select an environment.");
    }
    let shown = app.filtered_secret_indices();
    if shown.len() == 0 {
        if crate::text::chars_of(app.search.as_str()).len() == 0 {
            Some("No secrets. Press N to create one.")
        } else {
            Some("No matching secrets. Press Esc to clear search.")
        }
    } else {
        None
    }
}

/// One row of the secrets table: key, value (masked unless revealed) and
/// the age of its last update at `now`.
pub open spec fn secret_row(app: App, index: usize, now: i64) -> (Seq<char>, Seq<char>, Seq<char>) {
    let s = app.secrets@[index as int];
    (s.key@, if s.revealed { s.value@ } else { "********"@ }, session_age(s.updated_at as int, now as int))
}

/// The rows of the secrets table at time `now`: the secrets the filter lets
/// through, in order.
pub fn secret_rows(app: &App, now: i64) -> (r: Vec<(String, String, String)>)
    ensures
        r@.len() == app.filtered().len(),
        forall|k: int| 0 <= k < r@.len() ==> ((#[trigger] r@[k]).0@, r@[k].1@, r@[k].2@) == secret_row(*app, app.filtered()[k], now),
{
    let shown = app.filtered_secret_indices();
    let n_secrets: usize = app.secrets.len();
    proof {
        assert(crate::cli::state::secret_names(app.secrets@).len() == n_secrets);
        lemma_filtered_in_range(crate::cli::state::secret_names(app.secrets@), ascii_lower_spec(app.search@));
    }
    let mut rows: Vec<(String, String, String)> = Vec::new();
    let mut i: usize = 0;
    while i < shown.len()
        invariant
            0 <= i <= shown@.len(),
            shown@ == app.filtered(),
            n_secrets == app.secrets@.len(),
            forall|k: int| 0 <= k < shown@.len() ==> (#[trigger] shown@[k]) < n_secrets,
            rows@.len() == i,
            forall|k: int| 0 <= k < i ==> ((#[trigger] rows@[k]).0@, rows@[k].1@, rows@[k].2@) == secret_row(*app, shown@[k], now),
        decreases shown@.len() - i,
    {
        let s = &app.secrets[shown[i]];
        let value = if s.revealed { s.value.clone() } else { "********".to_string() };
        let age = format_timestamp_at(s.updated_at, now);
        rows.push((s.key.clone(), value, age));
        i += 1;
    }
    rows
}

/// The title of the secrets pane, starred when it has the focus.
pub fn secrets_title(app: &App) -> (s: &'static str)
    ensures
        s@ == if app.focus == Focus::Secrets { " Secrets \u{2605}"@ } else { " Secrets"@ },
{
    if app.focus == Focus::Secrets { " Secrets \u{2605}" } else { " Secrets" }
}

} // verus!
