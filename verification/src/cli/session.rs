//! Pure helpers of the interactive session: input and focus values, the
//! command palette, popup scrolling, status icons and colour quantisation.
use vstd::prelude::*;
use crate::engine::status::SyncStatus;
use crate::text::{ascii_lower_spec, contains_spec, contains_str, push_char, push_str, to_ascii_lowercase};

verus! {

/// Which pane has the keyboard focus.
#[derive(Debug, Clone, Copy, PartialEq, Eq, Structural)]
pub enum Focus {
    Sidebar,
    Secrets,
}

/// A key press, as the session understands it.
#[derive(Debug, Clone, Copy, PartialEq, Eq, Structural)]
pub enum Input {
    Up,
    Down,
    Left,
    Right,
    Tab,
    Enter,
    Space,
    Character(char),
    Backspace,
    Quit,
}

/// Why the session asks for a passphrase.
#[derive(Debug, Clone, Copy, PartialEq, Eq, Structural)]
pub enum PassphrasePurpose {
    Sync,
    Diff,
    Decrypt,
}

/// Input stage of the guided rotate flow (current, new, confirm).
#[derive(Debug, Clone, Copy, PartialEq, Eq, Structural)]
pub enum RotateStage {
    Current,
    New,
    Confirm,
}

/// Whether the vault is open.
#[derive(Debug, Clone, Copy, PartialEq, Eq, Structural)]
pub enum VaultState {
    Locked,
    Unlocked,
}

/// An entry of the sidebar: a project, or an environment of a project.
#[derive(Debug, Clone, Copy, PartialEq, Eq, Structural)]
pub enum SidebarEntry {
    Project(usize),
    Environment(usize, usize),
}

/// A command the palette can execute. `label` is what the user matches against.
pub struct PaletteAction {
    pub id: &'static str,
    pub label: &'static str,
}

/// The palette's commands as (id, label), in display order.
pub open spec fn palette_table() -> Seq<(Seq<char>, Seq<char>)> {
    seq![
        ("new"@, "New secret"@),
        ("edit"@, "Edit secret"@),
        ("delete"@, "Delete secret"@),
        ("seal"@, "Seal project to envy.enc"@),
        ("rotate"@, "Rotate environment passphrase"@),
        ("import"@, "Import environment from envy.enc"@),
        ("diff"@, "Diff environment against envy.enc"@),
        ("status"@, "Project status"@),
        ("lock"@, "Lock vault"@),
        ("unlock"@, "Unlock vault"@),
        ("delete-project"@, "Delete project"@),
        ("filter"@, "Filter secrets"@),
        ("picker"@, "Switch project"@),
        ("banner"@, "Toggle banner"@),
        ("help"@, "Help"@),
        ("quit"@, "Quit"@),
    ]
}

/// The palette's commands, in display order.
pub fn palette_actions() -> (v: Vec<PaletteAction>)
    ensures
        v@.len() == palette_table().len(),
        forall|i: int| 0 <= i < v@.len() ==> (#[trigger] v@[i]).id@ == palette_table()[i].0 && v@[i].label@
            == palette_table()[i].1,
{
    let v = vec![
        PaletteAction { id: "new", label: "New secret" },
        PaletteAction { id: "edit", label: "Edit secret" },
        PaletteAction { id: "delete", label: "Delete secret" },
        PaletteAction { id: "seal", label: "Seal project to envy.enc" },
        PaletteAction { id: "rotate", label: "Rotate environment passphrase" },
        PaletteAction { id: "import", label: "Import environment from envy.enc" },
        PaletteAction { id: "diff", label: "Diff environment against envy.enc" },
        PaletteAction { id: "status", label: "Project status" },
        PaletteAction { id: "lock", label: "Lock vault" },
        PaletteAction { id: "unlock", label: "Unlock vault" },
        PaletteAction { id: "delete-project", label: "Delete project" },
        PaletteAction { id: "filter", label: "Filter secrets" },
        PaletteAction { id: "picker", label: "Switch project" },
        PaletteAction { id: "banner", label: "Toggle banner" },
        PaletteAction { id: "help", label: "Help" },
        PaletteAction { id: "quit", label: "Quit" },
    ];
    v
}

/// The ids of the palette entries whose label, in ASCII lowercase, contains
/// the ASCII lowercase query; all ids for an empty query.
pub open spec fn palette_filter(q: Seq<char>, table: Seq<(Seq<char>, Seq<char>)>) -> Seq<Seq<char>>
    decreases table.len(),
{
    if table.len() == 0 {
        seq![]
    } else {
        let prev = palette_filter(q, table.drop_last());
        if q.len() == 0 || contains_spec(ascii_lower_spec(table.last().1), q) {
            prev.push(table.last().0)
        } else {
            prev
        }
    }
}

/// Palette entries matching `query` (case-insensitive substring on the label).
pub fn palette_matches(query: &str) -> (r: Vec<&'static str>)
    ensures
        r@.map_values(|s: &'static str| s@) == palette_filter(ascii_lower_spec(query@), palette_table()),
{
    let q = to_ascii_lowercase(query);
    let q_empty = crate::text::chars_of(q.as_str()).len() == 0;
    let actions = palette_actions();
    let mut out: Vec<&'static str> = Vec::new();
    let mut i: usize = 0;
    let ghost table = palette_table();
    proof {
        assert(table.take(0) =~= Seq::<(Seq<char>, Seq<char>)>::empty());
        assert(out@.map_values(|s: &'static str| s@) =~= Seq::<Seq<char>>::empty());
    }
    while i < actions.len()
        invariant
            table == palette_table(),
            actions@.len() == table.len(),
            forall|k: int| 0 <= k < actions@.len() ==> (#[trigger] actions@[k]).id@ == table[k].0 && actions@[k].label@
                == table[k].1,
            q@ == ascii_lower_spec(query@),
            q_empty == (q@.len() == 0),
            0 <= i <= actions@.len(),
            out@.map_values(|s: &'static str| s@) == palette_filter(q@, table.take(i as int)),
        decreases actions@.len() - i,
    {
        let a = &actions[i];
        proof {
            assert(table.take(i + 1).drop_last() =~= table.take(i as int));
            assert(table.take(i + 1).last() == table[i as int]);
        }
        let label = to_ascii_lowercase(a.label);
        let ghost before = out@;
        if q_empty || contains_str(label.as_str(), q.as_str()) {
            out.push(a.id);
            proof {
                assert(out@.map_values(|s: &'static str| s@) =~= before.map_values(|s: &'static str| s@).push(a.id@));
            }
        }
        i += 1;
    }
    proof {
        assert(table.take(table.len() as int) =~= table);
    }
    out
}

/// The icon shown for an environment's sync state.
pub fn sync_status_icon(status: &SyncStatus) -> (c: char)
    ensures
        c == match *status {
            SyncStatus::InSync => '\u{2713}',
            SyncStatus::Modified => '~',
            SyncStatus::NeverSealed => '\u{b7}',
        },
{
    match status {
        SyncStatus::InSync => '\u{2713}',
        SyncStatus::Modified => '~',
        SyncStatus::NeverSealed => '\u{b7}',
    }
}

/// Inner (border-excluded) height of a scrollable text popup for `lines`
/// of content: the line count clamped to 5..=20.
pub fn popup_inner_height(lines: usize) -> (h: usize)
    ensures
        h == if lines < 5 { 5 } else if lines > 20 { 20 } else { lines },
{
    if lines < 5 {
        5
    } else if lines > 20 {
        20
    } else {
        lines
    }
}

/// Maximum scroll offset of a scrollable text popup with `lines` of
/// content: the lines that do not fit, or 0.
pub fn popup_max_scroll(lines: usize) -> (s: usize)
    ensures
        s == if lines > 20 { lines - 20 } else { 0 },
{
    let h = popup_inner_height(lines);
    if lines > h {
        lines - h
    } else {
        0
    }
}

/// An RGB colour.
#[derive(Debug, Clone, Copy, PartialEq, Eq, Structural)]
pub struct Rgb(pub u8, pub u8, pub u8);

/// The six channel levels of the xterm 256-colour cube.
pub open spec fn cube_level(i: int) -> int {
    if i == 0 {
        0
    } else if i == 1 {
        95
    } else if i == 2 {
        135
    } else if i == 3 {
        175
    } else if i == 4 {
        215
    } else {
        255
    }
}

/// Distance between a cube level and a channel value.
pub open spec fn level_distance(i: int, v: int) -> int {
    let d = cube_level(i) - v;
    if d < 0 {
        -d
    } else {
        d
    }
}

/// Whether `i` is the first of the closest cube levels to `v`.
pub open spec fn is_nearest_level(i: int, v: int) -> bool {
    &&& 0 <= i < 6
    &&& forall|j: int| 0 <= j < 6 ==> level_distance(i, v) <= #[trigger] level_distance(j, v)
    &&& forall|j: int| 0 <= j < i ==> level_distance(i, v) < #[trigger] level_distance(j, v)
}

fn cube_level_exec(i: u8) -> (l: u8)
    requires
        i < 6,
    ensures
        l == cube_level(i as int),
{
    if i == 0 {
        0
    } else if i == 1 {
        95
    } else if i == 2 {
        135
    } else if i == 3 {
        175
    } else if i == 4 {
        215
    } else {
        255
    }
}

/// Index of the first closest cube level to `v`.
fn nearest_level(v: u8) -> (i: u8)
    ensures
        is_nearest_level(i as int, v as int),
{
    let mut best: u8 = 0;
    let mut best_dist: i16 = v as i16;
    let mut i: u8 = 1;
    while i < 6
        invariant
            1 <= i <= 6,
            best < i,
            best_dist == level_distance(best as int, v as int),
            forall|j: int| 0 <= j < i ==> level_distance(best as int, v as int) <= #[trigger] level_distance(j, v as int),
            forall|j: int| 0 <= j < best ==> level_distance(best as int, v as int) < #[trigger] level_distance(j, v as int),
        decreases 6 - i,
    {
        let l = cube_level_exec(i) as i16;
        let d = if l >= v as i16 { l - v as i16 } else { v as i16 - l };
        if d < best_dist {
            best = i;
            best_dist = d;
        }
        i += 1;
    }
    best
}

/// The xterm-256 palette index of the colour cube entry nearest to `rgb`:
/// `16 + 36 r + 6 g + b` with each channel's first closest cube level.
pub fn nearest_ansi256(rgb: Rgb) -> (c: u8)
    ensures
        exists|r: int, g: int, b: int|
            is_nearest_level(r, rgb.0 as int) && is_nearest_level(g, rgb.1 as int) && is_nearest_level(b, rgb.2 as int)
                && c == 16 + 36 * r + 6 * g + b,
{
    let r = nearest_level(rgb.0);
    let g = nearest_level(rgb.1);
    let b = nearest_level(rgb.2);
    16 + 36 * r + 6 * g + b
}

/// The nearest cube level of a channel is unique: the index the palette
/// uses is determined by the channel value.
pub proof fn lemma_nearest_level_unique(i: int, j: int, v: int)
    requires
        is_nearest_level(i, v),
        is_nearest_level(j, v),
    ensures
        i == j,
{
    if i < j {
        assert(level_distance(j, v) < level_distance(i, v));
        assert(level_distance(j, v) <= level_distance(i, v));
    } else if j < i {
        assert(level_distance(i, v) < level_distance(j, v));
        assert(level_distance(i, v) <= level_distance(j, v));
    }
}

/// Terminals shorter than this many rows open with the compact strip in place
/// of the full five-row logo.
pub const BANNER_MIN_HEIGHT: u16 = 32;

/// The texts of the compact identity strip, one per span: the wordmark, then
/// the version and the workspace name. Terminals narrower than 40 columns get
/// the bare wordmark, so the line never clips in the middle of a token.
pub fn compact_spans(width: u16, version: &str, workspace: &str) -> (v: Vec<String>)
    ensures
        v@.len() == (if width < 40 { 1int } else { 3int }),
        v@[0]@ == " ENVY "@,
        width >= 40 ==> v@[1]@ == " \u{b7} v"@ + version@ && v@[2]@ == " \u{b7} "@ + workspace@,
{
    let mut spans: Vec<String> = Vec::new();
    spans.push(" ENVY ".to_string());
    if width < 40 {
        return spans;
    }
    let mut tagged = " \u{b7} v".to_string();
    push_str(&mut tagged, version);
    spans.push(tagged);
    let mut named = " \u{b7} ".to_string();
    push_str(&mut named, workspace);
    spans.push(named);
    spans
}

/// The text shown for a secret value: the value itself when revealed, else
/// one `*` per character, at least eight, so short values do not show their
/// length.
pub open spec fn display_text(value: Seq<char>, revealed: bool) -> Seq<char> {
    if revealed {
        value
    } else {
        Seq::new(if value.len() < 8 { 8nat } else { value.len() }, |_i: int| '*')
    }
}

/// The text shown for a secret value; see [`display_text`].
pub fn display(value: &str, revealed: bool) -> (r: String)
    ensures
        r@ == display_text(value@, revealed),
{
    if revealed {
        return value.to_string();
    }
    let n: usize = value.unicode_len();
    let width: usize = if n < 8 { 8 } else { n };
    let mut out = String::new();
    let mut i: usize = 0;
    while i < width
        invariant
            i <= width,
            out@ == Seq::new(i as nat, |_i: int| '*'),
        decreases width - i,
    {
        push_char(&mut out, '*');
        i = i + 1;
        proof {
            assert(out@ =~= Seq::new(i as nat, |_i: int| '*'));
        }
    }
    out
}

} // verus!
