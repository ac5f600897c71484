//! Session steps around the vault work: opening a sidebar row, the seal
//! preview, the project list after a deletion, and the status report text.
use vstd::prelude::*;
use crate::cli::report::push_i64;
use crate::cli::session::{PassphrasePurpose, SidebarEntry};
use crate::cli::state::{App, Popup, ProjectSummary};
use crate::cli::time::{format_timestamp_at, session_age};
use crate::engine::diff::{ChangeType, DiffEntry, DiffReport};
use crate::engine::discover::DiscoveredProject;
use crate::engine::status::{StatusRow, SyncStatus};
use crate::text::{ascii_upper_spec, to_ascii_uppercase, chars_of, compare_str, push_char, push_str, signed_decimal, u64_to_decimal, decimal, KeyOrder};

verus! {

/// What opening a sidebar row leaves to load.
#[derive(Debug, Clone, Copy, PartialEq, Eq, Structural)]
pub enum SidebarLoad {
    /// Nothing to load (no row, or the project was folded).
    Nothing,
    /// Load the project at this index (now active and expanded), then put
    /// the cursor on its row.
    Project(usize),
    /// Load the secrets of the now active environment.
    Environment,
}

/// Opening the row under the cursor: the active, expanded project folds;
/// another project becomes active and expanded; an environment row makes
/// its project and environment active. Each sets its status note.
pub open spec fn sidebar_opened(a: App, b: App, r: SidebarLoad) -> bool {
    if a.sidebar_cursor >= a.sidebar().len() {
        b == a && r == SidebarLoad::Nothing
    } else {
        match a.sidebar()[a.sidebar_cursor as int] {
            SidebarEntry::Project(pi) => if pi == a.active_project && a.expanded {
                b == App { expanded: false, status: b.status, status_is_error: false, ..a } && b.status@
                    == "Project collapsed"@ && r == SidebarLoad::Nothing
            } else {
                b == App { active_project: pi, expanded: true, status: b.status, status_is_error: false, ..a }
                    && b.status@ == "Project selected \u{2014} press Down for environments"@ && r
                    == SidebarLoad::Project(pi)
            },
            SidebarEntry::Environment(pi, ei) => b == App {
                active_project: pi,
                active_environment: ei,
                status: b.status,
                status_is_error: false,
                ..a
            } && b.status@ == "Environment selected \u{2014} Tab opens secrets"@ && r == SidebarLoad::Environment,
        }
    }
}

/// The environments a seal would write: those with secrets, in order.
pub open spec fn with_secrets(counts: Seq<(String, usize)>) -> Seq<(String, usize)>
    decreases counts.len(),
{
    if counts.len() == 0 {
        seq![]
    } else if counts.last().1 > 0 {
        with_secrets(counts.drop_last()).push(counts.last())
    } else {
        with_secrets(counts.drop_last())
    }
}

/// The projects whose id is among `known`, in order.
pub open spec fn known_projects(ps: Seq<ProjectSummary>, known: Seq<Seq<char>>) -> Seq<ProjectSummary>
    decreases ps.len(),
{
    if ps.len() == 0 {
        seq![]
    } else if known.contains(ps.last().id.0@) {
        known_projects(ps.drop_last(), known).push(ps.last())
    } else {
        known_projects(ps.drop_last(), known)
    }
}

/// `s` padded with spaces on the right to `w` characters (`{:<w}`).
pub open spec fn pad_right(s: Seq<char>, w: int) -> Seq<char> {
    if s.len() >= w { s } else { s + Seq::new((w - s.len()) as nat, |i: int| ' ') }
}

/// `s` padded with spaces on the left to `w` characters (`{:>w}`).
pub open spec fn pad_left(s: Seq<char>, w: int) -> Seq<char> {
    if s.len() >= w { s } else { Seq::new((w - s.len()) as nat, |i: int| ' ') + s }
}

/// The status word of the report dialog.
pub open spec fn report_word(s: SyncStatus) -> Seq<char> {
    match s {
        SyncStatus::InSync => "in sync"@,
        SyncStatus::Modified => "MODIFIED"@,
        SyncStatus::NeverSealed => "never sealed"@,
    }
}

/// Names joined with ", ".
pub open spec fn joined_names(items: Seq<String>) -> Seq<char>
    decreases items.len(),
{
    if items.len() == 0 {
        seq![]
    } else if items.len() == 1 {
        items[0]@
    } else {
        joined_names(items.drop_last()) + ", "@ + items.last()@
    }
}

/// One environment's lines of the report: name, secret count, status and
/// seal age, then its stale keys when there are any.
pub open spec fn report_row(r: StatusRow, days: u32, now: i64) -> Seq<char> {
    row_main(r, now) + row_stale(r, days)
}

/// The first line of an environment's report entry.
pub open spec fn row_main(r: StatusRow, now: i64) -> Seq<char> {
    "  "@ + pad_right(r.name@, 16) + " "@ + pad_left(signed_decimal(r.secret_count as int), 3) + " secrets  "@
        + pad_right(report_word(r.sync_status), 12) + "  sealed: "@ + (match r.sealed_at {
        Some(t) => session_age(t as int, now as int),
        None => "never"@,
    }) + "\n"@
}

/// The stale-keys line of an environment's report entry, if any.
pub open spec fn row_stale(r: StatusRow, days: u32) -> Seq<char> {
    if r.stale_secrets@.len() == 0 {
        seq![]
    } else {
        "    stale (>"@ + decimal(days as nat) + "d): "@ + joined_names(r.stale_secrets@) + "\n"@
    }
}

/// The table rows of a status report, one line per environment.
pub open spec fn report_rows(rows: Seq<StatusRow>, days: u32, now: i64) -> Seq<char>
    decreases rows.len(),
{
    if rows.len() == 0 {
        seq![]
    } else {
        report_rows(rows.drop_last(), days, now) + report_row(rows.last(), days, now)
    }
}

/// The text of the status dialog for `project` at time `now`.
pub open spec fn report_text(project: Seq<char>, rows: Seq<StatusRow>, days: u32, now: i64) -> Seq<char> {
    "Status for "@ + project + "\n\n"@ + report_rows(rows, days, now)
}

fn push_spaces(out: &mut String, n: usize)
    ensures
        final(out)@ == old(out)@ + Seq::new(n as nat, |i: int| ' '),
{
    let mut i: usize = 0;
    while i < n
        invariant
            0 <= i <= n,
            out@ == old(out)@ + Seq::new(i as nat, |k: int| ' '),
        decreases n - i,
    {
        push_char(out, ' ');
        proof {
            assert(old(out)@ + Seq::new((i + 1) as nat, |k: int| ' ') =~= (old(out)@ + Seq::new(i as nat, |k: int| ' ')).push(
                ' ',
            ));
        }
        i += 1;
    }
}

fn push_padded_right(out: &mut String, s: &str, w: usize)
    ensures
        final(out)@ == old(out)@ + pad_right(s@, w as int),
{
    let n = chars_of(s).len();
    push_str(out, s);
    if n < w {
        push_spaces(out, w - n);
    }
    proof {
        assert(final(out)@ =~= old(out)@ + pad_right(s@, w as int));
    }
}

fn push_padded_left(out: &mut String, s: &str, w: usize)
    ensures
        final(out)@ == old(out)@ + pad_left(s@, w as int),
{
    let n = chars_of(s).len();
    if n < w {
        push_spaces(out, w - n);
    }
    push_str(out, s);
    proof {
        assert(final(out)@ =~= old(out)@ + pad_left(s@, w as int));
    }
}

fn push_joined(out: &mut String, items: &Vec<String>)
    ensures
        final(out)@ == old(out)@ + joined_names(items@),
{
    let mut i: usize = 0;
    while i < items.len()
        invariant
            0 <= i <= items@.len(),
            out@ == old(out)@ + joined_names(items@.take(i as int)),
        decreases items@.len() - i,
    {
        proof {
            assert(items@.take(i + 1).drop_last() =~= items@.take(i as int));
        }
        if i > 0 {
            push_str(out, ", ");
        }
        push_str(out, items[i].as_str());
        proof {
            if i == 0 {
                assert(joined_names(items@.take(1)) == items@[0]@);
            }
            assert(out@ =~= old(out)@ + joined_names(items@.take(i + 1)));
        }
        i += 1;
    }
    proof {
        assert(items@.take(items@.len() as int) =~= items@);
    }
}

fn push_row_main(out: &mut String, r: &StatusRow, now: i64)
    ensures
        final(out)@ == old(out)@ + row_main(*r, now),
{
    let ghost start = out@;
    push_str(out, "  ");
    push_padded_right(out, r.name.as_str(), 16);
    push_str(out, " ");
    let mut count = String::new();
    push_i64(&mut count, r.secret_count);
    push_padded_left(out, count.as_str(), 3);
    push_str(out, " secrets  ");
    let word = match r.sync_status {
        SyncStatus::InSync => "in sync",
        SyncStatus::Modified => "MODIFIED",
        SyncStatus::NeverSealed => "never sealed",
    };
    push_padded_right(out, word, 12);
    push_str(out, "  sealed: ");
    match r.sealed_at {
        Some(t) => {
            let age = format_timestamp_at(t, now);
            push_str(out, age.as_str());
        },
        None => push_str(out, "never"),
    }
    push_str(out, "\n");
    proof {
        assert(out@ =~= start + row_main(*r, now));
    }
}

fn push_row_stale(out: &mut String, r: &StatusRow, days: u32)
    ensures
        final(out)@ == old(out)@ + row_stale(*r, days),
{
    let ghost start = out@;
    if r.stale_secrets.len() > 0 {
        push_str(out, "    stale (>");
        let d = u64_to_decimal(days as u64);
        push_str(out, d.as_str());
        push_str(out, "d): ");
        push_joined(out, &r.stale_secrets);
        push_str(out, "\n");
    }
    proof {
        assert(out@ =~= start + row_stale(*r, days));
    }
}

fn push_report_row(out: &mut String, r: &StatusRow, days: u32, now: i64)
    ensures
        final(out)@ == old(out)@ + report_row(*r, days, now),
{
    let ghost start = out@;
    push_row_main(out, r, now);
    push_row_stale(out, r, days);
    proof {
        assert(out@ =~= start + report_row(*r, days, now));
    }
}

/// The text of the status dialog (see [`report_text`]); ages are relative
/// to `now`.
pub fn status_text(project: &str, rows: &Vec<StatusRow>, rotation_days: u32, now: i64) -> (s: String)
    ensures
        s@ == report_text(project@, rows@, rotation_days, now),
{
    let mut s = "Status for ".to_string();
    push_str(&mut s, project);
    push_str(&mut s, "\n\n");
    let ghost head = s@;
    let mut i: usize = 0;
    while i < rows.len()
        invariant
            0 <= i <= rows@.len(),
            head == "Status for "@ + project@ + "\n\n"@,
            s@ == head + report_rows(rows@.take(i as int), rotation_days, now),
        decreases rows@.len() - i,
    {
        proof {
            assert(rows@.take(i + 1).drop_last() =~= rows@.take(i as int));
        }
        push_report_row(&mut s, &rows[i], rotation_days, now);
        proof {
            assert(s@ =~= head + report_rows(rows@.take(i + 1), rotation_days, now));
        }
        i += 1;
    }
    proof {
        assert(rows@.take(rows@.len() as int) =~= rows@);
    }
    s
}

fn is_known(id: &str, known: &Vec<String>) -> (b: bool)
    ensures
        b == known@.map_values(|k: String| k@).contains(id@),
{
    let ghost ks = known@.map_values(|k: String| k@);
    let mut i: usize = 0;
    while i < known.len()
        invariant
            0 <= i <= known@.len(),
            ks == known@.map_values(|k: String| k@),
            forall|j: int| 0 <= j < i ==> ks[j] != id@,
        decreases known@.len() - i,
    {
        match compare_str(known[i].as_str(), id) {
            KeyOrder::Equal => {
                proof {
                    assert(ks[i as int] == id@);
                }
                return true;
            },
            _ => {},
        }
        i += 1;
    }
    false
}

/// The symbol of a change in the session's diff dialog.
pub open spec fn change_symbol(c: ChangeType) -> char {
    match c {
        ChangeType::Added => '+',
        ChangeType::Removed => '-',
        ChangeType::Modified => '~',
    }
}

/// The lines of a diff popup, one per change.
pub open spec fn change_lines(es: Seq<DiffEntry>) -> Seq<char>
    decreases es.len(),
{
    if es.len() == 0 {
        seq![]
    } else {
        change_lines(es.drop_last()) + "  "@ + seq![change_symbol(es.last().change)] + " "@ + es.last().key@ + "\n"@
    }
}

/// The text of the session's diff dialog for `env`: a one-line verdict
/// when nothing differs, else a header with the counts and one line per
/// changed key (values never shown).
pub open spec fn session_diff(env: Seq<char>, r: DiffReport) -> Seq<char> {
    if r.entries@.len() == 0 {
        "envy diff: "@ + env + " \u{2014} no differences"@
    } else {
        "envy diff: "@ + env + " (vault \u{2194} envy.enc)\n\n"@ + decimal(r.added as nat) + " added, "@ + decimal(
            r.removed as nat,
        ) + " removed, "@ + decimal(r.modified as nat) + " modified\n"@ + change_lines(r.entries@)
    }
}

/// The session's diff dialog text (see [`session_diff`]).
pub fn diff_text(env: &str, report: &DiffReport) -> (s: String)
    ensures
        s@ == session_diff(env@, *report),
{
    let mut s = "envy diff: ".to_string();
    push_str(&mut s, env);
    if report.entries.len() == 0 {
        push_str(&mut s, " \u{2014} no differences");
        return s;
    }
    push_str(&mut s, " (vault \u{2194} envy.enc)\n\n");
    let a = u64_to_decimal(report.added as u64);
    push_str(&mut s, a.as_str());
    push_str(&mut s, " added, ");
    let r = u64_to_decimal(report.removed as u64);
    push_str(&mut s, r.as_str());
    push_str(&mut s, " removed, ");
    let m = u64_to_decimal(report.modified as u64);
    push_str(&mut s, m.as_str());
    push_str(&mut s, " modified\n");
    let ghost head = s@;
    let mut i: usize = 0;
    while i < report.entries.len()
        invariant
            0 <= i <= report.entries@.len(),
            s@ == head + change_lines(report.entries@.take(i as int)),
        decreases report.entries@.len() - i,
    {
        proof {
            assert(report.entries@.take(i + 1).drop_last() =~= report.entries@.take(i as int));
        }
        push_str(&mut s, "  ");
        let e = &report.entries[i];
        push_char(&mut s, match e.change {
            ChangeType::Added => '+',
            ChangeType::Removed => '-',
            ChangeType::Modified => '~',
        });
        push_str(&mut s, " ");
        push_str(&mut s, e.key.as_str());
        push_str(&mut s, "\n");
        proof {
            assert(s@ =~= head + change_lines(report.entries@.take(i + 1)));
        }
        i += 1;
    }
    proof {
        assert(report.entries@.take(report.entries@.len() as int) =~= report.entries@);
        assert(s@ =~= session_diff(env@, *report));
    }
    s
}

/// The session's passphrase variable for an environment:
/// `ENVY_PASSPHRASE_` and the name in ASCII uppercase.
pub fn session_passphrase_var(env: &str) -> (s: String)
    ensures
        s@ == "ENVY_PASSPHRASE_"@ + ascii_upper_spec(env@),
{
    let mut s = "ENVY_PASSPHRASE_".to_string();
    let upper = to_ascii_uppercase(env);
    push_str(&mut s, upper.as_str());
    s
}

/// The passphrase the session takes from the environment: the
/// environment's own variable when set, else the global one.
pub fn resolve_passphrase_values(specific: Option<String>, global: Option<String>) -> (r: Option<String>)
    ensures
        r == (match specific {
            Some(s) => Some(s),
            None => global,
        }),
{
    match specific {
        Some(s) => Some(s),
        None => global,
    }
}

impl App {
    /// Opens the sidebar row under the cursor (see [`sidebar_opened`]).
    pub fn select_sidebar_entry(&mut self) -> (r: SidebarLoad)
        ensures
            sidebar_opened(*old(self), *final(self), r),
    {
        match self.current_sidebar_entry() {
            Some(SidebarEntry::Project(pi)) => {
                if pi == self.active_project && self.expanded {
                    self.expanded = false;
                    self.status = "Project collapsed".to_string();
                    self.status_is_error = false;
                    SidebarLoad::Nothing
                } else {
                    self.active_project = pi;
                    self.expanded = true;
                    self.status = "Project selected \u{2014} press Down for environments".to_string();
                    self.status_is_error = false;
                    SidebarLoad::Project(pi)
                }
            },
            Some(SidebarEntry::Environment(pi, ei)) => {
                self.active_project = pi;
                self.active_environment = ei;
                self.status = "Environment selected \u{2014} Tab opens secrets".to_string();
                self.status_is_error = false;
                SidebarLoad::Environment
            },
            None => SidebarLoad::Nothing,
        }
    }

    /// Opens the seal preview over the environments that have secrets
    /// (`counts` holds each environment's secret count, in order), or
    /// reports that there is nothing to seal.
    pub fn propose_seal(&mut self, project: &str, counts: &Vec<(String, usize)>)
        ensures
            with_secrets(counts@).len() == 0 ==> *final(self) == (App {
                status: final(self).status,
                status_is_error: true,
                ..*old(self)
            }) && final(self).status@ == "No environments with secrets to seal"@,
            with_secrets(counts@).len() > 0 ==> *final(self) == (App { popup: final(self).popup, ..*old(self) }) && (
            final(self).popup matches Some(Popup::ConfirmSeal { project: p, environments: e, scroll: 0 }) && p@
                == project@ && e@ == with_secrets(counts@)),
    {
        let mut listed: Vec<(String, usize)> = Vec::new();
        let mut i: usize = 0;
        while i < counts.len()
            invariant
                0 <= i <= counts@.len(),
                listed@ == with_secrets(counts@.take(i as int)),
            decreases counts@.len() - i,
        {
            proof {
                assert(counts@.take(i + 1).drop_last() =~= counts@.take(i as int));
            }
            if counts[i].1 > 0 {
                let name = counts[i].0.clone();
                listed.push((name, counts[i].1));
                proof {
                    assert(listed@.last() == counts@[i as int]);
                    assert(listed@ =~= with_secrets(counts@.take(i + 1)));
                }
            }
            i += 1;
        }
        proof {
            assert(counts@.take(counts@.len() as int) =~= counts@);
        }
        if listed.len() == 0 {
            self.status = "No environments with secrets to seal".to_string();
            self.status_is_error = true;
        } else {
            self.popup = Some(Popup::ConfirmSeal { project: project.to_string(), environments: listed, scroll: 0 });
        }
    }

    /// Replaces the project list by the projects whose ids are `known`
    /// (the workspace's), keeps the active index in range and expands it.
    pub fn keep_projects(&mut self, projects: Vec<ProjectSummary>, known: &Vec<String>)
        ensures
            final(self).projects@ == known_projects(projects@, known@.map_values(|k: String| k@)),
            final(self).active_project == if old(self).active_project < final(self).projects@.len() {
                old(self).active_project as int
            } else if final(self).projects@.len() > 0 {
                final(self).projects@.len() - 1
            } else {
                0
            },
            final(self).expanded,
            final(self).environments == old(self).environments,
            final(self).secrets == old(self).secrets,
            final(self).popup == old(self).popup,
    {
        let ghost ks = known@.map_values(|k: String| k@);
        let mut kept: Vec<ProjectSummary> = Vec::new();
        let mut i: usize = 0;
        while i < projects.len()
            invariant
                0 <= i <= projects@.len(),
                ks == known@.map_values(|k: String| k@),
                kept@ == known_projects(projects@.take(i as int), ks),
            decreases projects@.len() - i,
        {
            proof {
                assert(projects@.take(i + 1).drop_last() =~= projects@.take(i as int));
            }
            if is_known(projects[i].id.0.as_str(), known) {
                let p = ProjectSummary {
                    id: crate::db::ProjectId(projects[i].id.0.clone()),
                    name: projects[i].name.clone(),
                };
                kept.push(p);
                proof {
                    assert(kept@ =~= known_projects(projects@.take(i + 1), ks));
                }
            }
            i += 1;
        }
        proof {
            assert(projects@.take(projects@.len() as int) =~= projects@);
        }
        self.projects = kept;
        if self.active_project >= self.projects.len() {
            self.active_project = if self.projects.len() > 0 { self.projects.len() - 1 } else { 0 };
        }
        self.expanded = true;
    }
}

/// The discovered manifests whose project has a row among `ids`, in order.
pub open spec fn in_vault(ds: Seq<DiscoveredProject>, ids: Seq<Seq<char>>) -> Seq<DiscoveredProject>
    decreases ds.len(),
{
    if ds.len() == 0 {
        seq![]
    } else if ids.contains(ds.last().project_id@) {
        in_vault(ds.drop_last(), ids).push(ds.last())
    } else {
        in_vault(ds.drop_last(), ids)
    }
}

/// The workspace of a session: of the manifests discovered below the launch
/// directory, those whose `project_id` has a vault row. A manifest left over
/// from a deleted project is out of the sidebar's scope.
pub fn workspace_context(discovered: &Vec<DiscoveredProject>, projects: &Vec<ProjectSummary>) -> (r: Vec<DiscoveredProject>)
    ensures
        r@ == in_vault(discovered@, projects@.map_values(|p: ProjectSummary| p.id.0@)),
{
    let ghost ids = projects@.map_values(|p: ProjectSummary| p.id.0@);
    let mut rows: Vec<String> = Vec::new();
    let mut j: usize = 0;
    while j < projects.len()
        invariant
            0 <= j <= projects@.len(),
            ids == projects@.map_values(|p: ProjectSummary| p.id.0@),
            rows@.len() == j,
            forall|k: int| 0 <= k < j ==> (#[trigger] rows@[k])@ == ids[k],
        decreases projects@.len() - j,
    {
        let id = projects[j].id.0.clone();
        rows.push(id);
        j += 1;
    }
    proof {
        assert(rows@.map_values(|k: String| k@) =~= ids);
    }
    let mut kept: Vec<DiscoveredProject> = Vec::new();
    let mut i: usize = 0;
    while i < discovered.len()
        invariant
            0 <= i <= discovered@.len(),
            rows@.map_values(|k: String| k@) == ids,
            kept@ == in_vault(discovered@.take(i as int), ids),
        decreases discovered@.len() - i,
    {
        proof {
            assert(discovered@.take(i + 1).drop_last() =~= discovered@.take(i as int));
        }
        if is_known(discovered[i].project_id.as_str(), &rows) {
            let d = &discovered[i];
            kept.push(DiscoveredProject {
                project_id: d.project_id.clone(),
                rotation_reminder_days: d.rotation_reminder_days,
                manifest_dir: d.manifest_dir.clone(),
                artifact_path: d.artifact_path.clone(),
            });
            proof {
                assert(kept@ =~= in_vault(discovered@.take(i + 1), ids));
            }
        }
        i += 1;
    }
    proof {
        assert(discovered@.take(discovered@.len() as int) =~= discovered@);
    }
    kept
}

/// What a seal run does with the environment it took off its queue.
#[derive(Debug)]
pub enum SealStep {
    /// The environment has no secrets: take the next one.
    Skip,
    /// Seal `environment` with `passphrase`.
    Seal { environment: String, passphrase: String },
    /// The passphrase dialog for the environment is open: wait for it.
    AskPassphrase,
    /// The run stopped on an error, shown in the status line.
    Stopped,
}

/// `a` and `b` agree on everything but the status line and the dialog.
pub open spec fn same_but_status_and_popup(a: App, b: App) -> bool {
    &&& b.projects == a.projects
    &&& b.environments == a.environments
    &&& b.secrets == a.secrets
    &&& b.sync_statuses == a.sync_statuses
    &&& b.active_project == a.active_project
    &&& b.active_environment == a.active_environment
    &&& b.expanded == a.expanded
    &&& b.sidebar_cursor == a.sidebar_cursor
    &&& b.secret_index == a.secret_index
    &&& b.focus == a.focus
    &&& b.search == a.search
    &&& b.search_active == a.search_active
    &&& b.command_mode == a.command_mode
    &&& b.command_query == a.command_query
    &&& b.palette_index == a.palette_index
    &&& b.compact_banner == a.compact_banner
    &&& b.vault_state == a.vault_state
    &&& b.working == a.working
    &&& b.workspace_name == a.workspace_name
    &&& b.artifact_path == a.artifact_path
}

/// The status line of a seal run that stopped at `environment` on `error`.
pub open spec fn seal_stop_text(environment: Seq<char>, error: Seq<char>) -> Seq<char> {
    "'"@ + environment + "' skipped: "@ + error
}

impl App {
    /// One environment of a seal run, just taken off `queue`: `has_secrets`
    /// is what the vault said of it, `passphrase` what the environment
    /// variables give for it. A vault error stops the run and drops the
    /// queue; an empty environment is skipped; with a passphrase it is
    /// sealed, without one the passphrase dialog opens.
    pub fn seal_queue_step(
        &mut self,
        queue: &mut Vec<String>,
        environment: String,
        has_secrets: Result<bool, String>,
        passphrase: Option<String>,
    ) -> (r: SealStep)
        ensures
            same_but_status_and_popup(*old(self), *final(self)),
            match has_secrets {
                Err(e) => {
                    &&& r is Stopped
                    &&& final(queue)@.len() == 0
                    &&& final(self).status@ == seal_stop_text(environment@, e@)
                    &&& final(self).status_is_error
                    &&& final(self).popup == old(self).popup
                },
                Ok(false) => {
                    &&& r is Skip
                    &&& final(queue)@ == old(queue)@
                    &&& *final(self) == *old(self)
                },
                Ok(true) => {
                    &&& final(queue)@ == old(queue)@
                    &&& final(self).status == old(self).status
                    &&& final(self).status_is_error == old(self).status_is_error
                    &&& match passphrase {
                        Some(p) => {
                            &&& final(self).popup == old(self).popup
                            &&& r matches SealStep::Seal { environment: en, passphrase: pp } && en@ == environment@ && pp@
                                == p@
                        },
                        None => {
                            &&& r is AskPassphrase
                            &&& final(self).popup matches Some(Popup::Passphrase { environment: en, value: v, purpose: pu })
                                && en@ == environment@ && v@.len() == 0 && pu == PassphrasePurpose::Sync
                        },
                    }
                },
            },
    {
        match has_secrets {
            Err(e) => {
                queue.clear();
                let mut msg = "'".to_string();
                push_str(&mut msg, environment.as_str());
                push_str(&mut msg, "' skipped: ");
                push_str(&mut msg, e.as_str());
                self.status = msg;
                self.status_is_error = true;
                SealStep::Stopped
            },
            Ok(false) => SealStep::Skip,
            Ok(true) => match passphrase {
                Some(p) => SealStep::Seal { environment, passphrase: p },
                None => {
                    self.popup = Some(Popup::Passphrase { environment, value: String::new(), purpose: PassphrasePurpose::Sync });
                    SealStep::AskPassphrase
                },
            },
        }
    }

    /// The outcome of sealing one environment of a run: on success the
    /// status says so and the run goes on (`true`); on failure the error is
    /// shown and the rest of the queue is dropped.
    pub fn seal_outcome(&mut self, queue: &mut Vec<String>, result: Result<(), String>) -> (more: bool)
        ensures
            same_but_status_and_popup(*old(self), *final(self)),
            final(self).popup == old(self).popup,
            match result {
                Ok(()) => more && final(queue)@ == old(queue)@ && final(self).status@ == "Sync complete"@
                    && !final(self).status_is_error,
                Err(e) => !more && final(queue)@.len() == 0 && final(self).status@ == e@ && final(self).status_is_error,
            },
    {
        match result {
            Ok(()) => {
                self.status = "Sync complete".to_string();
                self.status_is_error = false;
                true
            },
            Err(e) => {
                queue.clear();
                self.status = e;
                self.status_is_error = true;
                false
            },
        }
    }
}

} // verus!
