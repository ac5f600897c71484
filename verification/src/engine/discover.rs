//! Workspace discovery: the projects whose `envy.toml` lies at or below the
//! launch directory, ordered by directory and listed once each.
use vstd::prelude::*;
use crate::text::{
    char_seq_lt, chars_of, compare_str, lemma_lt_asymmetric, lemma_lt_irreflexive, lemma_lt_total, lemma_lt_transitive,
    string_of, KeyOrder,
};

verus! {

/// A project found below the launch directory.
#[derive(Debug, Clone)]
pub struct DiscoveredProject {
    /// The project UUID from its `envy.toml`.
    pub project_id: String,
    /// The manifest's rotation reminder threshold.
    pub rotation_reminder_days: u32,
    /// The directory holding `envy.toml`.
    pub manifest_dir: String,
    /// `envy.enc` beside it.
    pub artifact_path: String,
}

/// A path component as `Path::components` yields it on Unix, as a rank
/// (root, current dir, parent dir, name, in the order `Component`'s
/// variants compare) and, for a name, its text.
pub open spec fn component(rank: int, name: Seq<char>) -> (int, Seq<char>) {
    (rank, name)
}

/// The components of the parts of a path after its first part: empty and
/// `.` parts vanish, `..` is a parent-dir component, anything else a name.
pub open spec fn later_components(parts: Seq<Seq<char>>) -> Seq<(int, Seq<char>)>
    decreases parts.len(),
{
    if parts.len() == 0 {
        seq![]
    } else {
        let prev = later_components(parts.drop_last());
        let p = parts.last();
        if p.len() == 0 || p == seq!['.'] {
            prev
        } else if p == seq!['.', '.'] {
            prev.push(component(3, seq![]))
        } else {
            prev.push(component(4, p))
        }
    }
}

/// The `/`-separated parts of a text.
pub open spec fn split_parts(s: Seq<char>) -> Seq<Seq<char>>
    decreases s.len(),
{
    if s.len() == 0 {
        seq![seq![]]
    } else {
        let prev = split_parts(s.drop_last());
        if s.last() == '/' {
            prev.push(seq![])
        } else {
            prev.update(prev.len() - 1, prev.last().push(s.last()))
        }
    }
}

/// The components of a Unix path: a root component for a leading `/`, a
/// current-dir component for a leading `.` part of a relative path, then
/// the later components.
pub open spec fn path_components(s: Seq<char>) -> Seq<(int, Seq<char>)> {
    let parts = split_parts(s);
    let first = parts[0];
    let rest = parts.drop_first();
    if s.len() > 0 && s[0] == '/' {
        seq![component(1, seq![])] + later_components(rest)
    } else if first == seq!['.'] {
        seq![component(2, seq![])] + later_components(rest)
    } else {
        later_components(seq![first] + rest)
    }
}

/// Component order: by rank, then names by character.
pub open spec fn component_lt(a: (int, Seq<char>), b: (int, Seq<char>)) -> bool {
    a.0 < b.0 || (a.0 == b.0 && char_seq_lt(a.1, b.1))
}

/// Lexicographic order of component sequences (a proper prefix first).
pub open spec fn components_lt(a: Seq<(int, Seq<char>)>, b: Seq<(int, Seq<char>)>) -> bool
    decreases a.len(),
{
    if a.len() == 0 {
        b.len() > 0
    } else if b.len() == 0 {
        false
    } else if component_lt(a[0], b[0]) {
        true
    } else if a[0] == b[0] {
        components_lt(a.drop_first(), b.drop_first())
    } else {
        false
    }
}

/// `a`'s directory sorts after `b`'s (`PathBuf` order).
pub open spec fn dir_after(a: DiscoveredProject, b: DiscoveredProject) -> bool {
    components_lt(path_components(b.manifest_dir@), path_components(a.manifest_dir@))
}

/// The position before the first element of `s` that sorts after `x`.
pub open spec fn insert_pos(s: Seq<DiscoveredProject>, x: DiscoveredProject) -> int
    decreases s.len(),
{
    if s.len() == 0 {
        0
    } else if dir_after(s.last(), x) {
        let p = insert_pos(s.drop_last(), x);
        p
    } else {
        s.len() as int
    }
}

/// `s` in ascending directory order, equal directories keeping their
/// relative order (the stable sort).
pub open spec fn sorted_by_dir(s: Seq<DiscoveredProject>) -> Seq<DiscoveredProject>
    decreases s.len(),
{
    if s.len() == 0 {
        seq![]
    } else {
        let prev = sorted_by_dir(s.drop_last());
        let p = insert_pos(prev, s.last());
        prev.take(p).push(s.last()) + prev.skip(p)
    }
}

/// Whether a project of `s` has the id `id`.
pub open spec fn has_id(s: Seq<DiscoveredProject>, id: Seq<char>) -> bool {
    exists|k: int| 0 <= k < s.len() && (#[trigger] s[k]).project_id@ == id
}

/// `s` keeping only the first project of each id.
pub open spec fn dedup_ids(s: Seq<DiscoveredProject>) -> Seq<DiscoveredProject>
    decreases s.len(),
{
    if s.len() == 0 {
        seq![]
    } else {
        let prev = dedup_ids(s.drop_last());
        if has_id(prev, s.last().project_id@) {
            prev
        } else {
            prev.push(s.last())
        }
    }
}

/// The (rank, name) view of computed components.
pub open spec fn parts_view(v: Seq<(u8, String)>) -> Seq<(int, Seq<char>)> {
    v.map_values(|c: (u8, String)| (c.0 as int, c.1@))
}

/// The character sequences of the strings, in order.
pub open spec fn texts_view(v: Seq<String>) -> Seq<Seq<char>> {
    v.map_values(|t: String| t@)
}

/// The `/`-separated parts of `cs`.
fn split_at_slashes(cs: &Vec<char>) -> (r: Vec<String>)
    ensures
        texts_view(r@) == split_parts(cs@),
{
    let mut parts: Vec<String> = Vec::new();
    let mut start: usize = 0;
    let mut i: usize = 0;
    proof {
        assert(cs@.take(0) =~= Seq::<char>::empty());
        assert(texts_view(parts@).push(cs@.subrange(0, 0)) =~= seq![Seq::<char>::empty()]);
    }
    while i < cs.len()
        invariant
            0 <= start <= i <= cs@.len(),
            split_parts(cs@.take(i as int)) == texts_view(parts@).push(cs@.subrange(start as int, i as int)),
        decreases cs@.len() - i,
    {
        proof {
            assert(cs@.take(i + 1).drop_last() =~= cs@.take(i as int));
        }
        if cs[i] == '/' {
            let part = string_of(cs, start, i);
            parts.push(part);
            start = i + 1;
            proof {
                assert(cs@.subrange(start as int, i + 1) =~= Seq::<char>::empty());
                assert(texts_view(parts@) =~= texts_view(parts@.drop_last()).push(part@));
                assert(split_parts(cs@.take(i + 1)) =~= texts_view(parts@).push(cs@.subrange(start as int, i + 1)));
            }
        } else {
            proof {
                assert(cs@.subrange(start as int, i + 1) =~= cs@.subrange(start as int, i as int).push(cs@[i as int]));
                assert(split_parts(cs@.take(i + 1)) =~= texts_view(parts@).push(cs@.subrange(start as int, i + 1)));
            }
        }
        i += 1;
    }
    let last = string_of(cs, start, cs.len());
    parts.push(last);
    proof {
        assert(cs@.take(cs@.len() as int) =~= cs@);
        assert(texts_view(parts@) =~= texts_view(parts@.drop_last()).push(last@));
    }
    parts
}

fn is_text(s: &String, t: &str) -> (b: bool)
    ensures
        b == (s@ == t@),
{
    match compare_str(s.as_str(), t) {
        KeyOrder::Equal => true,
        _ => false,
    }
}

/// Appends the components of `parts[from..]` (see [`later_components`]).
fn push_later(out: &mut Vec<(u8, String)>, parts: &Vec<String>, from: usize)
    requires
        from <= parts@.len(),
    ensures
        parts_view(final(out)@) == parts_view(old(out)@) + later_components(texts_view(parts@).skip(from as int)),
{
    let ghost base = parts_view(out@);
    let ghost ps = texts_view(parts@).skip(from as int);
    let mut i: usize = from;
    while i < parts.len()
        invariant
            from <= i <= parts@.len(),
            ps == texts_view(parts@).skip(from as int),
            parts_view(out@) == base + later_components(ps.take(i - from)),
        decreases parts@.len() - i,
    {
        proof {
            assert(ps.take(i - from + 1).drop_last() =~= ps.take(i - from));
            assert(ps.take(i - from + 1).last() == parts@[i as int]@);
            reveal_strlit(".");
            reveal_strlit("..");
        }
        let p = &parts[i];
        let empty = chars_of(p.as_str()).len() == 0;
        if empty || is_text(p, ".") {
            proof {
                let q = ps.take(i - from + 1);
                assert("."@ == seq!['.']);
                assert(q.last() == p@);
                assert(later_components(q) == later_components(q.drop_last()));
            }
        } else if is_text(p, "..") {
            let ghost before = out@;
            out.push((3u8, String::new()));
            proof {
                let q = ps.take(i - from + 1);
                assert(q.last() == seq!['.', '.']);
                assert(later_components(q) == later_components(q.drop_last()).push(component(3, seq![])));
                assert(parts_view(out@) =~= parts_view(before).push((3int, Seq::<char>::empty())));
                assert(parts_view(out@) =~= base + later_components(ps.take(i - from + 1)));
            }
        } else {
            let ghost before = out@;
            out.push((4u8, p.clone()));
            proof {
                let q = ps.take(i - from + 1);
                assert(p@.len() != 0);
                assert("."@ == seq!['.']);
                assert(".."@ == seq!['.', '.']);
                assert(p@ != seq!['.']);
                assert(p@ != seq!['.', '.']);
                assert(q.last() == p@);
                assert(later_components(q) == later_components(q.drop_last()).push(component(4, p@)));
                assert(parts_view(out@) =~= parts_view(before).push((4int, p@)));
                assert(parts_view(out@) =~= base + later_components(ps.take(i - from + 1)));
            }
        }
        i += 1;
    }
    proof {
        assert(ps.take(parts@.len() - from) =~= ps);
    }
}

/// The components of a Unix path (see [`path_components`]).
pub fn components_of(path: &str) -> (r: Vec<(u8, String)>)
    ensures
        parts_view(r@) == path_components(path@),
{
    let cs = chars_of(path);
    let parts = split_at_slashes(&cs);
    proof {
        lemma_split_nonempty(cs@);
        reveal_strlit(".");
    }
    let mut out: Vec<(u8, String)> = Vec::new();
    let ghost tp = texts_view(parts@);
    proof {
        assert("."@ == seq!['.']);
        assert(tp == split_parts(path@));
    }
    if cs.len() > 0 && cs[0] == '/' {
        out.push((1u8, String::new()));
        push_later(&mut out, &parts, 1);
        proof {
            assert(tp.skip(1) =~= tp.drop_first());
            assert(parts_view(out@) =~= path_components(path@));
        }
    } else if is_text(&parts[0], ".") {
        out.push((2u8, String::new()));
        push_later(&mut out, &parts, 1);
        proof {
            assert(tp.skip(1) =~= tp.drop_first());
            assert(parts_view(out@) =~= path_components(path@));
        }
    } else {
        push_later(&mut out, &parts, 0);
        proof {
            assert(tp.skip(0) =~= seq![tp[0]] + tp.drop_first());
            assert(parts_view(out@) =~= path_components(path@));
        }
    }
    out
}

proof fn lemma_split_nonempty(s: Seq<char>)
    ensures
        split_parts(s).len() >= 1,
    decreases s.len(),
{
    if s.len() > 0 {
        lemma_split_nonempty(s.drop_last());
    }
}

/// Whether the components `a` sort before `b` (see [`components_lt`]).
fn components_less(a: &Vec<(u8, String)>, b: &Vec<(u8, String)>) -> (r: bool)
    ensures
        r == components_lt(parts_view(a@), parts_view(b@)),
{
    let ghost va = parts_view(a@);
    let ghost vb = parts_view(b@);
    let mut i: usize = 0;
    proof {
        assert(va.skip(0) =~= va);
        assert(vb.skip(0) =~= vb);
    }
    while i < a.len() && i < b.len()
        invariant
            0 <= i <= a@.len(),
            i <= b@.len(),
            va == parts_view(a@),
            vb == parts_view(b@),
            components_lt(va, vb) == components_lt(va.skip(i as int), vb.skip(i as int)),
        decreases a@.len() - i,
    {
        let (ra, na) = (a[i].0, &a[i].1);
        let (rb, nb) = (b[i].0, &b[i].1);
        proof {
            assert(va.skip(i as int)[0] == (ra as int, na@));
            assert(vb.skip(i as int)[0] == (rb as int, nb@));
            assert(va.skip(i as int).drop_first() =~= va.skip(i + 1));
            assert(vb.skip(i as int).drop_first() =~= vb.skip(i + 1));
        }
        if ra < rb {
            return true;
        }
        if ra > rb {
            return false;
        }
        match compare_str(na.as_str(), nb.as_str()) {
            KeyOrder::Less => {
                return true;
            },
            KeyOrder::Greater => {
                proof {
                    lemma_lt_asymmetric(nb@, na@);
                }
                return false;
            },
            KeyOrder::Equal => {},
        }
        i += 1;
    }
    proof {
        assert(va.skip(i as int).len() == va.len() - i);
        assert(vb.skip(i as int).len() == vb.len() - i);
    }
    i < b.len()
}

/// Whether `a`'s directory sorts after `b`'s (see [`dir_after`]).
pub fn dir_sorts_after(a: &DiscoveredProject, b: &DiscoveredProject) -> (r: bool)
    ensures
        r == dir_after(*a, *b),
{
    let ca = components_of(a.manifest_dir.as_str());
    let cb = components_of(b.manifest_dir.as_str());
    components_less(&cb, &ca)
}

fn copy_project(p: &DiscoveredProject) -> (r: DiscoveredProject)
    ensures
        r == *p,
{
    DiscoveredProject {
        project_id: p.project_id.clone(),
        rotation_reminder_days: p.rotation_reminder_days,
        manifest_dir: p.manifest_dir.clone(),
        artifact_path: p.artifact_path.clone(),
    }
}

fn has_project(out: &Vec<DiscoveredProject>, id: &str) -> (b: bool)
    ensures
        b == has_id(out@, id@),
{
    let mut k: usize = 0;
    while k < out.len()
        invariant
            0 <= k <= out@.len(),
            forall|t: int| 0 <= t < k ==> (#[trigger] out@[t]).project_id@ != id@,
        decreases out@.len() - k,
    {
        match compare_str(out[k].project_id.as_str(), id) {
            KeyOrder::Equal => {
                return true;
            },
            _ => {},
        }
        k += 1;
    }
    false
}

/// Orders discovered projects by directory (stable, like sorting by
/// `PathBuf`) and keeps the first project of each id: a copied manifest
/// loses to the one earliest in that order, and the launch directory,
/// which the walk reports twice, is listed once.
pub fn order_discovered(found: &Vec<DiscoveredProject>) -> (r: Vec<DiscoveredProject>)
    ensures
        r@ == dedup_ids(sorted_by_dir(found@)),
{
    let mut sorted: Vec<DiscoveredProject> = Vec::new();
    let mut i: usize = 0;
    while i < found.len()
        invariant
            0 <= i <= found@.len(),
            sorted@ == sorted_by_dir(found@.take(i as int)),
        decreases found@.len() - i,
    {
        proof {
            assert(found@.take(i + 1).drop_last() =~= found@.take(i as int));
        }
        let x = copy_project(&found[i]);
        let mut p: usize = sorted.len();
        proof {
            assert(sorted@.take(p as int) =~= sorted@);
        }
        while p > 0 && dir_sorts_after(&sorted[p - 1], &x)
            invariant
                0 <= p <= sorted@.len(),
                i < found@.len(),
                sorted@ == sorted_by_dir(found@.take(i as int)),
                x == found@[i as int],
                insert_pos(sorted@, x) == insert_pos(sorted@.take(p as int), x),
            decreases p,
        {
            proof {
                assert(sorted@.take(p as int).drop_last() =~= sorted@.take(p - 1));
            }
            p -= 1;
        }
        proof {
            if p > 0 {
                assert(insert_pos(sorted@.take(p as int), x) == p);
            } else {
                assert(insert_pos(sorted@.take(0), x) == 0);
            }
            assert(sorted@.insert(p as int, x) =~= sorted@.take(p as int).push(x) + sorted@.skip(p as int));
        }
        sorted.insert(p, x);
        i += 1;
    }
    proof {
        assert(found@.take(found@.len() as int) =~= found@);
    }
    let mut out: Vec<DiscoveredProject> = Vec::new();
    let mut j: usize = 0;
    while j < sorted.len()
        invariant
            0 <= j <= sorted@.len(),
            out@ == dedup_ids(sorted@.take(j as int)),
        decreases sorted@.len() - j,
    {
        proof {
            assert(sorted@.take(j + 1).drop_last() =~= sorted@.take(j as int));
        }
        let dup = has_project(&out, sorted[j].project_id.as_str());
        if !dup {
            out.push(copy_project(&sorted[j]));
        }
        j += 1;
    }
    proof {
        assert(sorted@.take(sorted@.len() as int) =~= sorted@);
    }
    out
}

proof fn lemma_components_irreflexive(a: Seq<(int, Seq<char>)>)
    ensures
        !components_lt(a, a),
    decreases a.len(),
{
    if a.len() > 0 {
        lemma_lt_irreflexive(a[0].1);
        lemma_components_irreflexive(a.drop_first());
    }
}

proof fn lemma_components_transitive(a: Seq<(int, Seq<char>)>, b: Seq<(int, Seq<char>)>, c: Seq<(int, Seq<char>)>)
    requires
        components_lt(a, b),
        components_lt(b, c),
    ensures
        components_lt(a, c),
    decreases a.len(),
{
    if a.len() > 0 && b.len() > 0 && c.len() > 0 {
        if a[0].0 == b[0].0 && b[0].0 == c[0].0 && char_seq_lt(a[0].1, b[0].1) && char_seq_lt(b[0].1, c[0].1) {
            lemma_lt_transitive(a[0].1, b[0].1, c[0].1);
        }
        if a[0] == b[0] && b[0] == c[0] {
            lemma_lt_irreflexive(a[0].1);
            lemma_components_transitive(a.drop_first(), b.drop_first(), c.drop_first());
        }
    }
}

proof fn lemma_components_total(a: Seq<(int, Seq<char>)>, b: Seq<(int, Seq<char>)>)
    requires
        a != b,
    ensures
        components_lt(a, b) || components_lt(b, a),
    decreases a.len(),
{
    if a.len() > 0 && b.len() > 0 {
        if a[0] == b[0] {
            if a.drop_first() == b.drop_first() {
                assert(a =~= seq![a[0]] + a.drop_first());
                assert(b =~= seq![b[0]] + b.drop_first());
            }
            lemma_components_total(a.drop_first(), b.drop_first());
        } else if a[0].0 == b[0].0 {
            lemma_lt_total(a[0].1, b[0].1);
        }
    } else if a.len() == 0 && b.len() == 0 {
        assert(a =~= b);
    }
}

/// "Does not sort after" is transitive.
proof fn lemma_not_after_transitive(a: DiscoveredProject, b: DiscoveredProject, c: DiscoveredProject)
    requires
        !dir_after(a, b),
        !dir_after(b, c),
    ensures
        !dir_after(a, c),
{
    let pa = path_components(a.manifest_dir@);
    let pb = path_components(b.manifest_dir@);
    let pc = path_components(c.manifest_dir@);
    if components_lt(pc, pa) {
        if pa != pb {
            lemma_components_total(pa, pb);
        }
        if pb != pc {
            lemma_components_total(pb, pc);
        }
        if pa == pb {
            lemma_components_irreflexive(pa);
        } else if pb == pc {
        } else {
            lemma_components_transitive(pa, pb, pc);
            lemma_components_transitive(pc, pa, pc);
            lemma_components_irreflexive(pc);
        }
        if pa == pb && pb != pc {
            lemma_components_transitive(pb, pc, pb);
            lemma_components_irreflexive(pb);
        }
        if pb == pc && pa != pb {
            lemma_components_transitive(pa, pb, pa);
            lemma_components_irreflexive(pa);
        }
    }
}

/// No project of `s` sorts after a later one.
pub open spec fn dirs_ordered(s: Seq<DiscoveredProject>) -> bool {
    forall|i: int, j: int| 0 <= i < j < s.len() ==> !dir_after(#[trigger] s[i], #[trigger] s[j])
}

proof fn lemma_insert_pos_bounds(s: Seq<DiscoveredProject>, x: DiscoveredProject)
    ensures
        0 <= insert_pos(s, x) <= s.len(),
        insert_pos(s, x) > 0 ==> !dir_after(s[insert_pos(s, x) - 1], x),
        forall|k: int| insert_pos(s, x) <= k < s.len() ==> dir_after(#[trigger] s[k], x),
    decreases s.len(),
{
    if s.len() > 0 && dir_after(s.last(), x) {
        lemma_insert_pos_bounds(s.drop_last(), x);
        assert forall|k: int| insert_pos(s, x) <= k < s.len() implies dir_after(#[trigger] s[k], x) by {
            if k < s.len() - 1 {
                assert(s[k] == s.drop_last()[k]);
            }
        }
    }
}

proof fn lemma_sorted_by_dir_ordered(s: Seq<DiscoveredProject>)
    ensures
        dirs_ordered(sorted_by_dir(s)),
        sorted_by_dir(s).len() == s.len(),
        forall|k: int| 0 <= k < sorted_by_dir(s).len() ==> s.contains(#[trigger] sorted_by_dir(s)[k]),
    decreases s.len(),
{
    if s.len() > 0 {
        let prev = sorted_by_dir(s.drop_last());
        let x = s.last();
        lemma_sorted_by_dir_ordered(s.drop_last());
        lemma_insert_pos_bounds(prev, x);
        let p = insert_pos(prev, x);
        let r = prev.take(p).push(x) + prev.skip(p);
        assert(r == sorted_by_dir(s));
        assert forall|i: int, j: int| 0 <= i < j < r.len() implies !dir_after(#[trigger] r[i], #[trigger] r[j]) by {
            if j < p {
                assert(r[i] == prev[i] && r[j] == prev[j]);
            } else if j == p {
                assert(r[j] == x);
                assert(r[i] == prev[i]);
                if i < p - 1 {
                    lemma_not_after_transitive(prev[i], prev[p - 1], x);
                }
            } else if i == p {
                assert(r[i] == x && r[j] == prev[j - 1]);
                let pc = path_components(prev[j - 1].manifest_dir@);
                let px = path_components(x.manifest_dir@);
                assert(components_lt(px, pc));
                lemma_lt_cases(px, pc);
            } else if i < p {
                assert(r[i] == prev[i] && r[j] == prev[j - 1]);
            } else {
                assert(r[i] == prev[i - 1] && r[j] == prev[j - 1]);
            }
        }
        assert forall|k: int| 0 <= k < r.len() implies s.contains(#[trigger] r[k]) by {
            if k < p {
                assert(r[k] == prev[k]);
                assert(s.drop_last().contains(prev[k]));
                let t = choose|t: int| 0 <= t < s.drop_last().len() && s.drop_last()[t] == prev[k];
                assert(s[t] == prev[k]);
            } else if k == p {
                assert(s[s.len() - 1] == x);
            } else {
                assert(r[k] == prev[k - 1]);
                assert(s.drop_last().contains(prev[k - 1]));
                let t = choose|t: int| 0 <= t < s.drop_last().len() && s.drop_last()[t] == prev[k - 1];
                assert(s[t] == prev[k - 1]);
            }
        }
    }
}

proof fn lemma_lt_cases(a: Seq<(int, Seq<char>)>, b: Seq<(int, Seq<char>)>)
    requires
        components_lt(a, b),
    ensures
        !components_lt(b, a),
{
    if components_lt(b, a) {
        lemma_components_transitive(a, b, a);
        lemma_components_irreflexive(a);
    }
}

proof fn lemma_dedup_members(s: Seq<DiscoveredProject>)
    ensures
        forall|k: int| 0 <= k < dedup_ids(s).len() ==> s.contains(#[trigger] dedup_ids(s)[k]),
        forall|i: int, j: int| 0 <= i < j < dedup_ids(s).len() ==> (#[trigger] dedup_ids(s)[i]).project_id@
            != (#[trigger] dedup_ids(s)[j]).project_id@,
    decreases s.len(),
{
    if s.len() > 0 {
        lemma_dedup_members(s.drop_last());
        let prev = dedup_ids(s.drop_last());
        let d = dedup_ids(s);
        assert forall|k: int| 0 <= k < d.len() implies s.contains(#[trigger] d[k]) by {
            if k < prev.len() {
                assert(s.drop_last().contains(prev[k]));
                let t = choose|t: int| 0 <= t < s.drop_last().len() && s.drop_last()[t] == prev[k];
                assert(s[t] == d[k]);
            } else {
                assert(d[k] == s[s.len() - 1]);
            }
        }
        if !has_id(prev, s.last().project_id@) {
            assert forall|i: int, j: int| 0 <= i < j < d.len() implies (#[trigger] d[i]).project_id@
                != (#[trigger] d[j]).project_id@ by {
                if j == d.len() - 1 {
                    assert(d[i] == prev[i]);
                    assert(d[j] == s.last());
                } else {
                    assert(d[i] == prev[i] && d[j] == prev[j]);
                }
            }
        }
    }
}

proof fn lemma_dedup_ordered(s: Seq<DiscoveredProject>)
    requires
        dirs_ordered(s),
    ensures
        dirs_ordered(dedup_ids(s)),
    decreases s.len(),
{
    if s.len() > 0 {
        let prefix = s.drop_last();
        assert(dirs_ordered(prefix)) by {
            assert forall|i: int, j: int| 0 <= i < j < prefix.len() implies !dir_after(
                #[trigger] prefix[i],
                #[trigger] prefix[j],
            ) by {
                assert(prefix[i] == s[i] && prefix[j] == s[j]);
            }
        }
        lemma_dedup_ordered(prefix);
        lemma_dedup_members(prefix);
        let prev = dedup_ids(prefix);
        let d = dedup_ids(s);
        assert forall|i: int, j: int| 0 <= i < j < d.len() implies !dir_after(#[trigger] d[i], #[trigger] d[j]) by {
            if j < prev.len() {
                assert(d[i] == prev[i] && d[j] == prev[j]);
            } else {
                assert(d[i] == prev[i]);
                assert(d[j] == s[s.len() - 1]);
                assert(prefix.contains(prev[i]));
                let t = choose|t: int| 0 <= t < prefix.len() && prefix[t] == prev[i];
                assert(s[t] == prev[i]);
            }
        }
    }
}

/// Discovery lists each project id once, in directory order: no project
/// sorts after a later one, no two share an id, and every project listed
/// was found.
pub proof fn lemma_discovery_ordered_and_unique(found: Seq<DiscoveredProject>)
    ensures
        dirs_ordered(dedup_ids(sorted_by_dir(found))),
        forall|i: int, j: int|
            0 <= i < j < dedup_ids(sorted_by_dir(found)).len() ==> (#[trigger] dedup_ids(sorted_by_dir(found))[i]).project_id@
                != (#[trigger] dedup_ids(sorted_by_dir(found))[j]).project_id@,
        forall|k: int| 0 <= k < dedup_ids(sorted_by_dir(found)).len() ==> found.contains(#[trigger] dedup_ids(sorted_by_dir(found))[k]),
{
    let s = sorted_by_dir(found);
    lemma_sorted_by_dir_ordered(found);
    lemma_dedup_ordered(s);
    lemma_dedup_members(s);
    let d = dedup_ids(s);
    assert forall|k: int| 0 <= k < d.len() implies found.contains(#[trigger] d[k]) by {
        assert(s.contains(d[k]));
        let t = choose|t: int| 0 <= t < s.len() && s[t] == d[k];
        assert(found.contains(s[t]));
    }
}

} // verus!
