//! Text of the `envy status --format json` report and of the `envy diff`
//! table and JSON outputs.
use vstd::prelude::*;
use crate::cli::format::{push_json_string, spec_json_string};
use crate::cli::time::{epoch_to_iso8601, iso8601_text};
use crate::crypto::artifact::SyncArtifact;
use crate::engine::diff::{opt_view, ChangeType, DiffEntry, DiffReport};
use crate::engine::status::{StatusRow, SyncStatus};
use crate::engine::sync::SyncError;
use crate::engine::audit::AuditEntry;
use crate::engine::scan::LineMatch;
use crate::text::{decimal, push_str, signed_decimal, u64_to_decimal};

verus! {

/// What `envy status` knows of `envy.enc` without decrypting it.
pub struct ArtifactMetadata {
    /// The file exists and parses.
    pub found: bool,
    /// The file exists but does not parse.
    pub malformed: bool,
    /// Unix time of the file's last modification, if known.
    pub last_modified_at: Option<i64>,
    /// Environment names listed in the artifact (empty unless found).
    pub environments: Vec<String>,
}

/// Builds the artifact metadata from the outcome of reading `envy.enc` and
/// the file's modification time: a missing file is neither found nor
/// malformed and has no time; an unreadable one is malformed.
pub fn artifact_metadata(read: Result<SyncArtifact, SyncError>, mtime: Option<i64>) -> (m: ArtifactMetadata)
    ensures
        match read {
            Ok(a) => m.found && !m.malformed && m.last_modified_at == mtime && m.environments@.map_values(
                |n: String| n@,
            ) == crate::crypto::artifact::env_names(a.environments@),
            Err(SyncError::FileNotFound(_)) => !m.found && !m.malformed && m.last_modified_at is None
                && m.environments@.len() == 0,
            Err(_) => !m.found && m.malformed && m.last_modified_at == mtime && m.environments@.len() == 0,
        },
{
    match read {
        Ok(a) => {
            let mut names: Vec<String> = Vec::new();
            let mut i: usize = 0;
            while i < a.environments.len()
                invariant
                    0 <= i <= a.environments@.len(),
                    names@.map_values(|n: String| n@) == crate::crypto::artifact::env_names(a.environments@).take(
                        i as int,
                    ),
                decreases a.environments@.len() - i,
            {
                let ghost before = names@;
                names.push(a.environments[i].0.clone());
                proof {
                    assert(names@.map_values(|n: String| n@) =~= before.map_values(|n: String| n@).push(
                        a.environments@[i as int].0@,
                    ));
                    assert(names@.map_values(|n: String| n@) =~= crate::crypto::artifact::env_names(
                        a.environments@,
                    ).take(i + 1));
                }
                i += 1;
            }
            proof {
                assert(crate::crypto::artifact::env_names(a.environments@).take(a.environments@.len() as int)
                    =~= crate::crypto::artifact::env_names(a.environments@));
            }
            ArtifactMetadata { found: true, malformed: false, last_modified_at: mtime, environments: names }
        },
        Err(SyncError::FileNotFound(_)) => ArtifactMetadata {
            found: false,
            malformed: false,
            last_modified_at: None,
            environments: Vec::new(),
        },
        Err(_) => ArtifactMetadata { found: false, malformed: true, last_modified_at: mtime, environments: Vec::new() },
    }
}

/// The status string of a sync state in the JSON report.
pub open spec fn status_word(s: SyncStatus) -> Seq<char> {
    match s {
        SyncStatus::InSync => "in_sync"@,
        SyncStatus::Modified => "modified"@,
        SyncStatus::NeverSealed => "never_sealed"@,
    }
}

/// `null`, or the ISO 8601 text of a time as a JSON string.
pub open spec fn json_time(t: Option<i64>) -> Seq<char> {
    match t {
        Some(secs) => spec_json_string(iso8601_text(secs as int)),
        None => "null"@,
    }
}

/// The JSON object of one status row.
pub open spec fn json_row(r: StatusRow) -> Seq<char> {
    "{\"name\":"@ + spec_json_string(r.name@) + ",\"secret_count\":"@ + signed_decimal(r.secret_count as int)
        + ",\"last_modified_at\":"@ + json_time(r.last_modified_at) + ",\"status\":\""@ + status_word(r.sync_status)
        + "\"}"@
}

/// Items joined with commas.
pub open spec fn comma_joined(items: Seq<Seq<char>>) -> Seq<char>
    decreases items.len(),
{
    if items.len() == 0 {
        seq![]
    } else if items.len() == 1 {
        items[0]
    } else {
        comma_joined(items.drop_last()) + ","@ + items.last()
    }
}

/// The text of `envy status --format json`: one compact JSON document and
/// a newline.
pub open spec fn status_json_text(rows: Seq<StatusRow>, path: Seq<char>, meta: ArtifactMetadata) -> Seq<char> {
    "{\"environments\":["@ + comma_joined(rows.map_values(|r: StatusRow| json_row(r)))
        + "],\"artifact\":{\"found\":"@ + (if meta.found { "true"@ } else { "false"@ }) + ",\"path\":"@
        + spec_json_string(path) + ",\"last_modified_at\":"@ + json_time(meta.last_modified_at)
        + ",\"environments\":["@ + comma_joined(meta.environments@.map_values(|n: String| spec_json_string(n@)))
        + "]}}\n"@
}

pub(crate) fn push_i64(out: &mut String, n: i64)
    ensures
        final(out)@ == old(out)@ + signed_decimal(n as int),
{
    if n < 0 {
        crate::text::push_char(out, '-');
        let m: u64 = if n == i64::MIN { 9_223_372_036_854_775_808u64 } else { (-n) as u64 };
        let d = u64_to_decimal(m);
        push_str(out, d.as_str());
    } else {
        let d = u64_to_decimal(n as u64);
        push_str(out, d.as_str());
    }
}

fn push_json_time(out: &mut String, t: Option<i64>)
    ensures
        final(out)@ == old(out)@ + json_time(t),
{
    match t {
        Some(secs) => {
            let iso = epoch_to_iso8601(secs);
            push_json_string(out, iso.as_str());
        },
        None => push_str(out, "null"),
    }
}

fn push_json_row(out: &mut String, r: &StatusRow)
    ensures
        final(out)@ == old(out)@ + json_row(*r),
{
    let ghost start = out@;
    push_str(out, "{\"name\":");
    push_json_string(out, r.name.as_str());
    push_str(out, ",\"secret_count\":");
    push_i64(out, r.secret_count);
    push_str(out, ",\"last_modified_at\":");
    push_json_time(out, r.last_modified_at);
    push_str(out, ",\"status\":\"");
    match r.sync_status {
        SyncStatus::InSync => push_str(out, "in_sync"),
        SyncStatus::Modified => push_str(out, "modified"),
        SyncStatus::NeverSealed => push_str(out, "never_sealed"),
    }
    push_str(out, "\"}");
    proof {
        assert(out@ =~= start + json_row(*r));
    }
}

/// Renders the status report as JSON: the environments with their secret
/// count, last modification (ISO 8601 or null) and lowercase sync state,
/// then the artifact's presence, path, time and sealed environments.
pub fn status_json(rows: &Vec<StatusRow>, artifact_path: &str, meta: &ArtifactMetadata) -> (s: String)
    ensures
        s@ == status_json_text(rows@, artifact_path@, *meta),
{
    let mut s = "{\"environments\":[".to_string();
    let ghost head = s@;
    let mut i: usize = 0;
    proof {
        assert(rows@.take(0).map_values(|r: StatusRow| json_row(r)) =~= Seq::<Seq<char>>::empty());
        assert(s@ =~= head + comma_joined(rows@.take(0).map_values(|r: StatusRow| json_row(r))));
    }
    while i < rows.len()
        invariant
            0 <= i <= rows@.len(),
            s@ == head + comma_joined(rows@.take(i as int).map_values(|r: StatusRow| json_row(r))),
        decreases rows@.len() - i,
    {
        let ghost before = s@;
        if i > 0 {
            push_str(&mut s, ",");
        }
        push_json_row(&mut s, &rows[i]);
        proof {
            let items = rows@.take(i + 1).map_values(|r: StatusRow| json_row(r));
            assert(items.drop_last() =~= rows@.take(i as int).map_values(|r: StatusRow| json_row(r)));
            assert(items.last() == json_row(rows@[i as int]));
            if i == 0 {
                assert(items.len() == 1);
                assert(s@ =~= head + items[0]);
            } else {
                assert(s@ =~= head + (comma_joined(items.drop_last()) + ","@ + items.last()));
            }
        }
        i += 1;
    }
    proof {
        assert(rows@.take(rows@.len() as int) =~= rows@);
    }
    let ghost envs_part = s@;
    push_str(&mut s, "],\"artifact\":{\"found\":");
    if meta.found {
        push_str(&mut s, "true");
    } else {
        push_str(&mut s, "false");
    }
    push_str(&mut s, ",\"path\":");
    push_json_string(&mut s, artifact_path);
    push_str(&mut s, ",\"last_modified_at\":");
    push_json_time(&mut s, meta.last_modified_at);
    push_str(&mut s, ",\"environments\":[");
    let ghost head2 = s@;
    let names = &meta.environments;
    let mut j: usize = 0;
    proof {
        assert(names@.take(0).map_values(|n: String| spec_json_string(n@)) =~= Seq::<Seq<char>>::empty());
        assert(s@ =~= head2 + comma_joined(names@.take(0).map_values(|n: String| spec_json_string(n@))));
    }
    while j < names.len()
        invariant
            0 <= j <= names@.len(),
            s@ == head2 + comma_joined(names@.take(j as int).map_values(|n: String| spec_json_string(n@))),
        decreases names@.len() - j,
    {
        if j > 0 {
            push_str(&mut s, ",");
        }
        push_json_string(&mut s, names[j].as_str());
        proof {
            let items = names@.take(j + 1).map_values(|n: String| spec_json_string(n@));
            assert(items.drop_last() =~= names@.take(j as int).map_values(|n: String| spec_json_string(n@)));
            assert(items.last() == spec_json_string(names@[j as int]@));
            if j == 0 {
                assert(items.len() == 1);
            }
        }
        j += 1;
    }
    proof {
        assert(names@.take(names@.len() as int) =~= names@);
    }
    push_str(&mut s, "]}}\n");
    proof {
        assert(s@ =~= status_json_text(rows@, artifact_path@, *meta));
    }
    s
}

// ---------------------------------------------------------------------------
// envy diff
// ---------------------------------------------------------------------------

/// `text` wrapped in an ANSI SGR colour when `enabled`.
pub open spec fn colorized(text: Seq<char>, ansi: Seq<char>, enabled: bool) -> Seq<char> {
    if enabled {
        "\u{1b}["@ + ansi + "m"@ + text + "\u{1b}[0m"@
    } else {
        text
    }
}

/// Wraps `text` in ANSI escape sequences (`ansi` is the SGR code, e.g.
/// `"32"` for green) when colour output is enabled.
pub fn colorize(text: &str, ansi: &str, enabled: bool) -> (s: String)
    ensures
        s@ == colorized(text@, ansi@, enabled),
{
    if enabled {
        let mut s = "\u{1b}[".to_string();
        push_str(&mut s, ansi);
        push_str(&mut s, "m");
        push_str(&mut s, text);
        push_str(&mut s, "\u{1b}[0m");
        proof {
            assert(s@ =~= "\u{1b}["@ + ansi@ + "m"@ + text@ + "\u{1b}[0m"@);
        }
        s
    } else {
        text.to_string()
    }
}

/// Symbol and colour code of a change kind.
pub open spec fn change_mark(c: ChangeType) -> (Seq<char>, Seq<char>) {
    match c {
        ChangeType::Added => ("+"@, "32"@),
        ChangeType::Removed => ("-"@, "31"@),
        ChangeType::Modified => ("~"@, "33"@),
    }
}

/// The revealed values of an entry in the table (each line indented).
pub open spec fn revealed_values(e: DiffEntry) -> Seq<char> {
    let vault = match opt_view(e.new_value) {
        Some(v) => "    vault:    "@ + v + "\n"@,
        None => seq![],
    };
    let artifact = match opt_view(e.old_value) {
        Some(v) => "    artifact: "@ + v + "\n"@,
        None => seq![],
    };
    let values = match e.change {
        ChangeType::Added => vault,
        ChangeType::Removed => artifact,
        ChangeType::Modified => artifact + vault,
    };
    values + "\n"@
}

/// The table lines of one entry.
pub open spec fn entry_lines(e: DiffEntry, reveal: bool, color: bool) -> Seq<char> {
    let (sym, ansi) = change_mark(e.change);
    let values = if reveal {
        revealed_values(e)
    } else {
        seq![]
    };
    "  "@ + colorized(sym + " "@ + e.key@, ansi, color) + "\n"@ + values
}

/// The table lines of all entries.
pub open spec fn entries_lines(es: Seq<DiffEntry>, reveal: bool, color: bool) -> Seq<char>
    decreases es.len(),
{
    if es.len() == 0 {
        seq![]
    } else {
        entries_lines(es.drop_last(), reveal, color) + entry_lines(es.last(), reveal, color)
    }
}

/// The header of a non-empty diff table, with the note on a missing
/// artifact or environment.
pub open spec fn diff_header(r: DiffReport, artifact_missing: bool, env_not_in_artifact: bool) -> Seq<char> {
    "envy diff: "@ + r.env_name@ + " (vault \u{2194} envy.enc)\n"@ + (if artifact_missing {
        "Note: envy.enc not found \u{2014} all vault secrets shown as additions.\n"@
    } else if env_not_in_artifact {
        "Note: environment '"@ + r.env_name@ + "' not found in envy.enc \u{2014} all vault secrets shown as additions.\n"@
    } else {
        seq![]
    }) + "\n"@
}

/// The summary line of a diff table.
pub open spec fn diff_summary(r: DiffReport) -> Seq<char> {
    let total = r.added + r.removed + r.modified;
    decimal(total as nat) + (if total == 1 {
        " change: "@
    } else {
        " changes: "@
    }) + decimal(r.added as nat) + " added, "@ + decimal(r.removed as nat) + " removed, "@ + decimal(r.modified as nat)
        + " modified\n"@
}

/// The text of the `envy diff` table.
pub open spec fn diff_table_text(r: DiffReport, reveal: bool, artifact_missing: bool, env_not_in_artifact: bool, color: bool) -> Seq<char> {
    if r.entries@.len() == 0 {
        "envy diff: "@ + r.env_name@ + " \u{2014} no differences\n"@
    } else {
        diff_header(r, artifact_missing, env_not_in_artifact) + entries_lines(r.entries@, reveal, color) + diff_summary(r)
    }
}

fn push_diff_header(out: &mut String, report: &DiffReport, artifact_missing: bool, env_not_in_artifact: bool)
    ensures
        final(out)@ == old(out)@ + diff_header(*report, artifact_missing, env_not_in_artifact),
{
    let ghost start = out@;
    push_str(out, "envy diff: ");
    push_str(out, report.env_name.as_str());
    push_str(out, " (vault \u{2194} envy.enc)\n");
    let ghost mid = out@;
    if artifact_missing {
        push_str(out, "Note: envy.enc not found \u{2014} all vault secrets shown as additions.\n");
    } else if env_not_in_artifact {
        push_str(out, "Note: environment '");
        push_str(out, report.env_name.as_str());
        push_str(out, "' not found in envy.enc \u{2014} all vault secrets shown as additions.\n");
    }
    push_str(out, "\n");
    proof {
        assert(out@ =~= start + diff_header(*report, artifact_missing, env_not_in_artifact));
    }
}

fn push_diff_summary(out: &mut String, report: &DiffReport)
    requires
        report.added + report.removed + report.modified <= usize::MAX,
    ensures
        final(out)@ == old(out)@ + diff_summary(*report),
{
    let ghost start = out@;
    let total = report.total();
    let t = u64_to_decimal(total as u64);
    push_str(out, t.as_str());
    if total == 1 {
        push_str(out, " change: ");
    } else {
        push_str(out, " changes: ");
    }
    let a = u64_to_decimal(report.added as u64);
    push_str(out, a.as_str());
    push_str(out, " added, ");
    let r = u64_to_decimal(report.removed as u64);
    push_str(out, r.as_str());
    push_str(out, " removed, ");
    let m = u64_to_decimal(report.modified as u64);
    push_str(out, m.as_str());
    push_str(out, " modified\n");
    proof {
        assert(out@ =~= start + diff_summary(*report));
    }
}

#[verifier::spinoff_prover]
#[verifier::rlimit(40)]
fn push_entry_lines(out: &mut String, e: &DiffEntry, reveal: bool, color: bool)
    ensures
        final(out)@ == old(out)@ + entry_lines(*e, reveal, color),
{
    let ghost start = out@;
    let (sym, ansi) = match e.change {
        ChangeType::Added => ("+", "32"),
        ChangeType::Removed => ("-", "31"),
        ChangeType::Modified => ("~", "33"),
    };
    let mut label = sym.to_string();
    push_str(&mut label, " ");
    push_str(&mut label, e.key.as_str());
    let colored = colorize(label.as_str(), ansi, color);
    push_str(out, "  ");
    push_str(out, colored.as_str());
    push_str(out, "\n");
    let ghost mid = out@;
    if reveal {
        match e.change {
            ChangeType::Added => {
                if let Some(v) = &e.new_value {
                    push_str(out, "    vault:    ");
                    push_str(out, v.as_str());
                    push_str(out, "\n");
                }
            },
            ChangeType::Removed => {
                if let Some(v) = &e.old_value {
                    push_str(out, "    artifact: ");
                    push_str(out, v.as_str());
                    push_str(out, "\n");
                }
            },
            ChangeType::Modified => {
                if let Some(v) = &e.old_value {
                    push_str(out, "    artifact: ");
                    push_str(out, v.as_str());
                    push_str(out, "\n");
                }
                if let Some(v) = &e.new_value {
                    push_str(out, "    vault:    ");
                    push_str(out, v.as_str());
                    push_str(out, "\n");
                }
            },
        }
        push_str(out, "\n");
        proof {
            assert(out@ =~= mid + revealed_values(*e));
        }
    }
    proof {
        assert(out@ =~= start + entry_lines(*e, reveal, color));
    }
}

/// Renders the `envy diff` report as a table: a header, an optional note
/// on a missing artifact or environment, one line per change (`+` added,
/// `-` removed, `~` modified, coloured when `color`), the values when
/// `reveal`, and a summary line.
pub fn render_diff_table(report: &DiffReport, reveal: bool, artifact_missing: bool, env_not_in_artifact: bool, color: bool) -> (s: String)
    requires
        report.added + report.removed + report.modified <= usize::MAX,
    ensures
        s@ == diff_table_text(*report, reveal, artifact_missing, env_not_in_artifact, color),
{
    if !report.has_differences() {
        let mut s = "envy diff: ".to_string();
        push_str(&mut s, report.env_name.as_str());
        push_str(&mut s, " \u{2014} no differences\n");
        return s;
    }
    let mut s = String::new();
    push_diff_header(&mut s, report, artifact_missing, env_not_in_artifact);
    let ghost head = s@;
    let mut i: usize = 0;
    proof {
        assert(report.entries@.take(0) =~= Seq::<DiffEntry>::empty());
        assert(s@ =~= head + entries_lines(report.entries@.take(0), reveal, color));
    }
    while i < report.entries.len()
        invariant
            0 <= i <= report.entries@.len(),
            s@ == head + entries_lines(report.entries@.take(i as int), reveal, color),
        decreases report.entries@.len() - i,
    {
        push_entry_lines(&mut s, &report.entries[i], reveal, color);
        proof {
            assert(report.entries@.take(i + 1).drop_last() =~= report.entries@.take(i as int));
            assert(report.entries@.take(i + 1).last() == report.entries@[i as int]);
        }
        i += 1;
    }
    proof {
        assert(report.entries@.take(report.entries@.len() as int) =~= report.entries@);
    }
    push_diff_summary(&mut s, report);
    proof {
        assert(s@ =~= diff_table_text(*report, reveal, artifact_missing, env_not_in_artifact, color));
    }
    s
}


/// The type word of a change in the JSON diff.
pub open spec fn change_word(c: ChangeType) -> Seq<char> {
    match c {
        ChangeType::Added => "added"@,
        ChangeType::Removed => "removed"@,
        ChangeType::Modified => "modified"@,
    }
}

/// A JSON string or `null`.
pub open spec fn json_opt(o: Option<Seq<char>>) -> Seq<char> {
    match o {
        Some(v) => spec_json_string(v),
        None => "null"@,
    }
}

/// One change of the JSON diff, pretty-printed at depth two (keys in
/// alphabetical order; the values only when revealed).
pub open spec fn change_json(e: DiffEntry, reveal: bool) -> Seq<char> {
    let values = if reveal {
        "      \"new_value\": "@ + json_opt(opt_view(e.new_value)) + ",\n"@ + "      \"old_value\": "@ + json_opt(
            opt_view(e.old_value),
        ) + ",\n"@
    } else {
        seq![]
    };
    "    {\n      \"key\": "@ + spec_json_string(e.key@) + ",\n"@ + values + "      \"type\": \""@ + change_word(e.change)
        + "\"\n    }"@
}

/// The changes joined with `,\n`.
pub open spec fn changes_joined(es: Seq<DiffEntry>, reveal: bool) -> Seq<char>
    decreases es.len(),
{
    if es.len() == 0 {
        seq![]
    } else if es.len() == 1 {
        change_json(es[0], reveal)
    } else {
        changes_joined(es.drop_last(), reveal) + ",\n"@ + change_json(es.last(), reveal)
    }
}

/// The text of `envy diff --format json`: a pretty-printed document (two
/// spaces per level, keys in alphabetical order) and a newline.
pub open spec fn diff_json_text(r: DiffReport, env_name: Seq<char>, reveal: bool) -> Seq<char> {
    let changes = if r.entries@.len() == 0 {
        "[]"@
    } else {
        "[\n"@ + changes_joined(r.entries@, reveal) + "\n  ]"@
    };
    "{\n  \"changes\": "@ + changes + ",\n  \"environment\": "@ + spec_json_string(env_name)
        + ",\n  \"has_differences\": "@ + (if r.entries@.len() > 0 { "true"@ } else { "false"@ })
        + ",\n  \"summary\": {\n    \"added\": "@ + decimal(r.added as nat) + ",\n    \"modified\": "@ + decimal(
        r.modified as nat,
    ) + ",\n    \"removed\": "@ + decimal(r.removed as nat) + ",\n    \"total\": "@ + decimal(
        (r.added + r.removed + r.modified) as nat,
    ) + "\n  }\n}\n"@
}

fn push_json_opt(out: &mut String, o: &Option<String>)
    ensures
        final(out)@ == old(out)@ + json_opt(opt_view(*o)),
{
    match o {
        Some(v) => push_json_string(out, v.as_str()),
        None => push_str(out, "null"),
    }
}

fn push_change_json(out: &mut String, e: &DiffEntry, reveal: bool)
    ensures
        final(out)@ == old(out)@ + change_json(*e, reveal),
{
    let ghost start = out@;
    push_str(out, "    {\n      \"key\": ");
    push_json_string(out, e.key.as_str());
    push_str(out, ",\n");
    let ghost mid = out@;
    if reveal {
        push_str(out, "      \"new_value\": ");
        push_json_opt(out, &e.new_value);
        push_str(out, ",\n");
        push_str(out, "      \"old_value\": ");
        push_json_opt(out, &e.old_value);
        push_str(out, ",\n");
    }
    let ghost mid2 = out@;
    push_str(out, "      \"type\": \"");
    match e.change {
        ChangeType::Added => push_str(out, "added"),
        ChangeType::Removed => push_str(out, "removed"),
        ChangeType::Modified => push_str(out, "modified"),
    }
    push_str(out, "\"\n    }");
    proof {
        assert(out@ =~= start + change_json(*e, reveal));
    }
}

fn push_changes(out: &mut String, report: &DiffReport, reveal: bool)
    ensures
        final(out)@ == old(out)@ + (if report.entries@.len() == 0 {
            "[]"@
        } else {
            "[\n"@ + changes_joined(report.entries@, reveal) + "\n  ]"@
        }),
{
    if report.entries.len() == 0 {
        push_str(out, "[]");
        return;
    }
    let ghost start = out@;
    push_str(out, "[\n");
    let ghost head = out@;
    let mut i: usize = 0;
    proof {
        assert(report.entries@.take(0) =~= Seq::<DiffEntry>::empty());
        assert(out@ =~= head + changes_joined(report.entries@.take(0), reveal));
    }
    while i < report.entries.len()
        invariant
            0 <= i <= report.entries@.len(),
            out@ == head + changes_joined(report.entries@.take(i as int), reveal),
        decreases report.entries@.len() - i,
    {
        if i > 0 {
            push_str(out, ",\n");
        }
        push_change_json(out, &report.entries[i], reveal);
        proof {
            let es = report.entries@.take(i + 1);
            assert(es.drop_last() =~= report.entries@.take(i as int));
            assert(es.last() == report.entries@[i as int]);
            if i == 0 {
                assert(es.len() == 1);
            }
        }
        i += 1;
    }
    proof {
        assert(report.entries@.take(report.entries@.len() as int) =~= report.entries@);
    }
    push_str(out, "\n  ]");
    proof {
        assert(out@ =~= start + ("[\n"@ + changes_joined(report.entries@, reveal) + "\n  ]"@));
    }
}

/// Renders the diff report as pretty-printed JSON: the changes (key, type,
/// and the values only when `reveal`), the environment, whether there are
/// differences, and the counts.
pub fn write_diff_json(report: &DiffReport, env_name: &str, reveal: bool) -> (s: String)
    requires
        report.added + report.removed + report.modified <= usize::MAX,
    ensures
        s@ == diff_json_text(*report, env_name@, reveal),
{
    let mut s = "{\n  \"changes\": ".to_string();
    push_changes(&mut s, report, reveal);
    push_str(&mut s, ",\n  \"environment\": ");
    push_json_string(&mut s, env_name);
    push_str(&mut s, ",\n  \"has_differences\": ");
    if report.has_differences() {
        push_str(&mut s, "true");
    } else {
        push_str(&mut s, "false");
    }
    push_str(&mut s, ",\n  \"summary\": {\n    \"added\": ");
    let a = u64_to_decimal(report.added as u64);
    push_str(&mut s, a.as_str());
    push_str(&mut s, ",\n    \"modified\": ");
    let m = u64_to_decimal(report.modified as u64);
    push_str(&mut s, m.as_str());
    push_str(&mut s, ",\n    \"removed\": ");
    let r = u64_to_decimal(report.removed as u64);
    push_str(&mut s, r.as_str());
    push_str(&mut s, ",\n    \"total\": ");
    let t = u64_to_decimal(report.total() as u64);
    push_str(&mut s, t.as_str());
    push_str(&mut s, "\n  }\n}\n");
    proof {
        assert(s@ =~= diff_json_text(*report, env_name@, reveal));
    }
    s
}

/// One leak as a JSON object, members in key order; `value` only when it
/// was revealed.
pub open spec fn json_leak(path: Seq<char>, m: LineMatch) -> Seq<char> {
    "{\"environment\":"@ + spec_json_string(m.environment@) + ",\"key\":"@ + spec_json_string(m.key@) + ",\"line\":"@
        + decimal(m.line as nat) + ",\"path\":"@ + spec_json_string(path) + (match m.value {
        Some(v) => ",\"value\":"@ + spec_json_string(v@),
        None => ""@,
    }) + "}"@
}

/// The text of `envy scan --format json`: `{"leaks":[...]}` and a newline.
pub open spec fn scan_json_text(found: Seq<(String, LineMatch)>) -> Seq<char> {
    "{\"leaks\":["@ + comma_joined(found.map_values(|f: (String, LineMatch)| json_leak(f.0@, f.1))) + "]}\n"@
}

fn push_json_leak(out: &mut String, path: &str, m: &LineMatch)
    ensures
        final(out)@ == old(out)@ + json_leak(path@, *m),
{
    let ghost start = out@;
    push_str(out, "{\"environment\":");
    push_json_string(out, m.environment.as_str());
    push_str(out, ",\"key\":");
    push_json_string(out, m.key.as_str());
    push_str(out, ",\"line\":");
    let n = u64_to_decimal(m.line as u64);
    push_str(out, n.as_str());
    push_str(out, ",\"path\":");
    push_json_string(out, path);
    match &m.value {
        Some(v) => {
            push_str(out, ",\"value\":");
            push_json_string(out, v.as_str());
        },
        None => push_str(out, ""),
    }
    push_str(out, "}");
    proof {
        assert(out@ =~= start + json_leak(path@, *m));
    }
}

/// Renders the leaks found by a scan (file path, match) as JSON: each with
/// its environment, key, line, path and, when revealed, value.
pub fn scan_json(found: &Vec<(String, LineMatch)>) -> (s: String)
    ensures
        s@ == scan_json_text(found@),
{
    let mut s = "{\"leaks\":[".to_string();
    let ghost head = s@;
    let mut i: usize = 0;
    proof {
        assert(found@.take(0).map_values(|f: (String, LineMatch)| json_leak(f.0@, f.1)) =~= Seq::<Seq<char>>::empty());
        assert(s@ =~= head + comma_joined(found@.take(0).map_values(|f: (String, LineMatch)| json_leak(f.0@, f.1))));
    }
    while i < found.len()
        invariant
            0 <= i <= found@.len(),
            s@ == head + comma_joined(found@.take(i as int).map_values(|f: (String, LineMatch)| json_leak(f.0@, f.1))),
        decreases found@.len() - i,
    {
        if i > 0 {
            push_str(&mut s, ",");
        }
        push_json_leak(&mut s, found[i].0.as_str(), &found[i].1);
        proof {
            let items = found@.take(i + 1).map_values(|f: (String, LineMatch)| json_leak(f.0@, f.1));
            assert(items.drop_last() =~= found@.take(i as int).map_values(|f: (String, LineMatch)| json_leak(f.0@, f.1)));
            assert(items.last() == json_leak(found@[i as int].0@, found@[i as int].1));
            if i == 0 {
                assert(items.len() == 1);
                assert(s@ =~= head + items[0]);
            } else {
                assert(s@ =~= head + (comma_joined(items.drop_last()) + ","@ + items.last()));
            }
        }
        i += 1;
    }
    proof {
        assert(found@.take(found@.len() as int) =~= found@);
    }
    push_str(&mut s, "]}\n");
    s
}

/// One line of the plain scan report: `path:line  KEY (env)  value`, the
/// value masked unless revealed and shown in red when colour is on.
pub open spec fn leak_line(path: Seq<char>, m: LineMatch, color: bool) -> Seq<char> {
    path + ":"@ + decimal(m.line as nat) + "  "@ + m.key@ + " ("@ + m.environment@ + ")  "@ + colorized(
        match m.value {
            Some(v) => v@,
            None => "********"@,
        },
        "31"@,
        color,
    ) + "\n"@
}

/// The lines of the plain scan report, in order.
pub open spec fn leak_lines(found: Seq<(String, LineMatch)>, color: bool) -> Seq<char>
    decreases found.len(),
{
    if found.len() == 0 {
        seq![]
    } else {
        leak_lines(found.drop_last(), color) + leak_line(found.last().0@, found.last().1, color)
    }
}

/// The text of a plain `envy scan`: a line per leak and their count, or a
/// line saying that nothing was found.
pub open spec fn scan_report_text(found: Seq<(String, LineMatch)>, color: bool) -> Seq<char> {
    if found.len() == 0 {
        "No plaintext copies of vault secrets found.\n"@
    } else {
        leak_lines(found, color) + decimal(found.len()) + " leak(s) found.\n"@
    }
}

/// Renders the leaks found by a scan as plain text; see
/// [`scan_report_text`].
pub fn scan_report(found: &Vec<(String, LineMatch)>, color: bool) -> (s: String)
    ensures
        s@ == scan_report_text(found@, color),
{
    if found.len() == 0 {
        return "No plaintext copies of vault secrets found.\n".to_string();
    }
    let mut s = String::new();
    let mut i: usize = 0;
    while i < found.len()
        invariant
            0 <= i <= found@.len(),
            s@ == leak_lines(found@.take(i as int), color),
        decreases found@.len() - i,
    {
        proof {
            assert(found@.take(i + 1).drop_last() =~= found@.take(i as int));
        }
        let (path, m) = (&found[i].0, &found[i].1);
        push_str(&mut s, path.as_str());
        push_str(&mut s, ":");
        let n = u64_to_decimal(m.line as u64);
        push_str(&mut s, n.as_str());
        push_str(&mut s, "  ");
        push_str(&mut s, m.key.as_str());
        push_str(&mut s, " (");
        push_str(&mut s, m.environment.as_str());
        push_str(&mut s, ")  ");
        let value = match &m.value {
            Some(v) => colorize(v.as_str(), "31", color),
            None => colorize("********", "31", color),
        };
        push_str(&mut s, value.as_str());
        push_str(&mut s, "\n");
        i += 1;
    }
    proof {
        assert(found@.take(found@.len() as int) =~= found@);
    }
    let count = u64_to_decimal(found.len() as u64);
    push_str(&mut s, count.as_str());
    push_str(&mut s, " leak(s) found.\n");
    s
}

/// One audit entry as a JSON object, members in key order; `key` is null
/// for whole-environment actions.
#[verifier::opaque]
pub open spec fn json_audit(e: AuditEntry) -> Seq<char> {
    "{\"action\":"@ + spec_json_string(e.action@) + ",\"created_at\":"@ + spec_json_string(iso8601_text(e.created_at as int))
        + ",\"environment\":"@ + spec_json_string(e.environment@) + ",\"key\":"@ + (match e.key {
        Some(k) => spec_json_string(k@),
        None => "null"@,
    }) + "}"@
}

/// The text of `envy audit --format json`: an array of entries and a newline.
pub open spec fn audit_json_text(entries: Seq<AuditEntry>) -> Seq<char> {
    "["@ + comma_joined(entries.map_values(|e: AuditEntry| json_audit(e))) + "]\n"@
}

fn push_json_audit(out: &mut String, e: &AuditEntry)
    ensures
        final(out)@ == old(out)@ + json_audit(*e),
{
    let ghost start = out@;
    push_str(out, "{\"action\":");
    push_json_string(out, e.action.as_str());
    push_str(out, ",\"created_at\":");
    let iso = epoch_to_iso8601(e.created_at);
    push_json_string(out, iso.as_str());
    push_str(out, ",\"environment\":");
    push_json_string(out, e.environment.as_str());
    push_str(out, ",\"key\":");
    match &e.key {
        Some(k) => push_json_string(out, k.as_str()),
        None => push_str(out, "null"),
    }
    push_str(out, "}");
    proof {
        reveal(json_audit);
        assert(out@ =~= start + json_audit(*e));
    }
}

/// Renders audit entries as JSON: each with its action, ISO 8601 time,
/// environment and key (null when none).
pub fn audit_json(entries: &Vec<AuditEntry>) -> (s: String)
    ensures
        s@ == audit_json_text(entries@),
{
    let mut s = "[".to_string();
    let ghost head = s@;
    let mut i: usize = 0;
    proof {
        assert(entries@.take(0).map_values(|e: AuditEntry| json_audit(e)) =~= Seq::<Seq<char>>::empty());
        assert(s@ =~= head + comma_joined(entries@.take(0).map_values(|e: AuditEntry| json_audit(e))));
    }
    while i < entries.len()
        invariant
            0 <= i <= entries@.len(),
            s@ == head + comma_joined(entries@.take(i as int).map_values(|e: AuditEntry| json_audit(e))),
        decreases entries@.len() - i,
    {
        if i > 0 {
            push_str(&mut s, ",");
        }
        push_json_audit(&mut s, &entries[i]);
        proof {
            let items = entries@.take(i + 1).map_values(|e: AuditEntry| json_audit(e));
            assert(items.drop_last() =~= entries@.take(i as int).map_values(|e: AuditEntry| json_audit(e)));
            assert(items.last() == json_audit(entries@[i as int]));
            if i == 0 {
                assert(items.len() == 1);
                assert(s@ =~= head + items[0]);
            } else {
                assert(s@ =~= head + (comma_joined(items.drop_last()) + ","@ + items.last()));
            }
        }
        i += 1;
    }
    proof {
        assert(entries@.take(entries@.len() as int) =~= entries@);
    }
    push_str(&mut s, "]\n");
    s
}

} // verus!
