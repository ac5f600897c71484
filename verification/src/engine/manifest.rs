//! The `envy.toml` project manifest: its contents, the text a new manifest
//! is written with, and the line-based edit of its `auto_inject` flag.
//!
//! Finding, reading, parsing and writing the file are the application's job.
use vstd::prelude::*;
use crate::text::{
    chars_of, is_ws, leading_ws, lines, lines_spec, push_str, starts_with_spec, string_of, trim_bounds,
    trim_start_spec,
};

verus! {

/// The parsed contents of an `envy.toml` project manifest.
#[derive(Debug)]
pub struct Manifest {
    /// The UUID v4 that links this directory tree to its vault entry.
    pub project_id: String,
    /// Days a secret can go without an update before `envy status` flags it.
    pub rotation_reminder_days: u32,
    /// Opt-in flag for transparent shell auto-injection.
    pub auto_inject: bool,
}

/// Rotation reminder threshold used when `envy.toml` omits it: 90 days.
pub fn default_rotation_reminder_days() -> (d: u32)
    ensures
        d == 90,
{
    90
}

/// `true` or `false` as TOML writes it.
pub open spec fn bool_text(b: bool) -> Seq<char> {
    if b {
        "true"@
    } else {
        "false"@
    }
}

/// The text of a freshly created `envy.toml`.
pub open spec fn manifest_text(project_id: Seq<char>, auto_inject: bool) -> Seq<char> {
    "# Created by `envy init`. Do not delete \u{2014} this file links the directory to its vault.\nproject_id = \""@
        + project_id
        + "\"\n\n# Transparent shell auto-injection (`eval \"$(envy shell-init <shell>)\"` + `envy hook`).\n# When true, entering this directory auto-exports vault secrets into the shell,\n# taking precedence over a legacy `.env` file (a warning is printed).\n# Manage with `envy auto on|off|status`. Default: false.\nauto_inject = "@
        + bool_text(auto_inject)
        + "\n\n# Days a secret can go unmodified before `envy status` flags it for rotation.\n# Uncomment to override the default (90).\n# rotation_reminder_days = 90\n"@
}

/// The text of a new `envy.toml` for `project_id`: a comment header, the
/// project id, the `auto_inject` flag and the commented-out rotation default.
pub fn manifest_content(project_id: &str, auto_inject: bool) -> (s: String)
    ensures
        s@ == manifest_text(project_id@, auto_inject),
{
    let mut s = "# Created by `envy init`. Do not delete \u{2014} this file links the directory to its vault.\nproject_id = \"".to_string();
    push_str(&mut s, project_id);
    push_str(
        &mut s,
        "\"\n\n# Transparent shell auto-injection (`eval \"$(envy shell-init <shell>)\"` + `envy hook`).\n# When true, entering this directory auto-exports vault secrets into the shell,\n# taking precedence over a legacy `.env` file (a warning is printed).\n# Manage with `envy auto on|off|status`. Default: false.\nauto_inject = ",
    );
    if auto_inject {
        push_str(&mut s, "true");
    } else {
        push_str(&mut s, "false");
    }
    push_str(
        &mut s,
        "\n\n# Days a secret can go unmodified before `envy status` flags it for rotation.\n# Uncomment to override the default (90).\n# rotation_reminder_days = 90\n",
    );
    s
}

/// Whether a manifest line sets the `auto_inject` flag: after optional
/// indentation, `auto_inject`, optional white space and `=`.
pub open spec fn is_flag_line(l: Seq<char>) -> bool {
    let t = trim_start_spec(l);
    starts_with_spec(t, "auto_inject"@) && starts_with_spec(trim_start_spec(t.skip(11)), "="@)
}

/// Whether a manifest line is the `project_id` assignment.
pub open spec fn is_project_line(l: Seq<char>) -> bool {
    starts_with_spec(trim_start_spec(l), "project_id"@) && l.contains('=')
}

/// The flag line written for `b`.
pub open spec fn flag_text(b: bool) -> Seq<char> {
    "auto_inject = "@ + bool_text(b)
}

/// The leading white space of a line.
pub open spec fn indent_of(l: Seq<char>) -> Seq<char> {
    l.take(leading_ws(l) as int)
}

/// Index of the first line satisfying the flag predicate, if any.
pub open spec fn first_flag_line(ls: Seq<Seq<char>>) -> Option<int> {
    if exists|i: int| 0 <= i < ls.len() && #[trigger] is_flag_line(ls[i]) {
        Some(
            choose|i: int|
                0 <= i < ls.len() && #[trigger] is_flag_line(ls[i]) && forall|k: int| 0 <= k < i ==> !is_flag_line(ls[k]),
        )
    } else {
        None
    }
}

/// Index of the first `project_id` line, if any.
pub open spec fn first_project_line(ls: Seq<Seq<char>>) -> Option<int> {
    if exists|i: int| 0 <= i < ls.len() && #[trigger] is_project_line(ls[i]) {
        Some(
            choose|i: int|
                0 <= i < ls.len() && #[trigger] is_project_line(ls[i]) && forall|k: int| 0 <= k < i
                    ==> !is_project_line(ls[k]),
        )
    } else {
        None
    }
}

/// The manifest lines after setting the flag to `b`: the first flag line is
/// replaced (keeping its indentation); without one, the flag is inserted
/// after the first `project_id` line, or else appended.
pub open spec fn rewritten_lines(ls: Seq<Seq<char>>, b: bool) -> Seq<Seq<char>> {
    match first_flag_line(ls) {
        Some(f) => ls.update(f, indent_of(ls[f]) + flag_text(b)),
        None => match first_project_line(ls) {
            Some(p) => ls.take(p + 1) + seq![flag_text(b)] + ls.skip(p + 1),
            None => ls.push(flag_text(b)),
        },
    }
}

/// The lines joined, each followed by a newline.
pub open spec fn terminated(ls: Seq<Seq<char>>) -> Seq<char>
    decreases ls.len(),
{
    if ls.len() == 0 {
        seq![]
    } else {
        terminated(ls.drop_last()) + ls.last() + seq!['\n']
    }
}

/// Whether `cs[from..]` begins with `p`.
fn starts_with_at(cs: &Vec<char>, from: usize, p: &str) -> (b: bool)
    requires
        from <= cs@.len(),
    ensures
        b == starts_with_spec(cs@.skip(from as int), p@),
{
    let ps = chars_of(p);
    if ps.len() > cs.len() - from {
        return false;
    }
    let cl = cs.len();
    let mut k: usize = 0;
    while k < ps.len()
        invariant
            cl == cs@.len(),
            ps@ == p@,
            from + ps@.len() <= cs@.len(),
            0 <= k <= ps@.len(),
            forall|x: int| 0 <= x < k ==> cs@[from + x] == ps@[x],
        decreases ps@.len() - k,
    {
        if cs[from + k] != ps[k] {
            proof {
                assert(cs@.skip(from as int).take(ps@.len() as int)[k as int] == cs@[from + k]);
            }
            return false;
        }
        k += 1;
    }
    proof {
        assert(cs@.skip(from as int).take(ps@.len() as int) =~= ps@);
    }
    true
}

/// Whether the line `l` sets the flag.
fn flag_line(l: &String) -> (b: bool)
    ensures
        b == is_flag_line(l@),
{
    let cs = chars_of(l.as_str());
    let (i, _j) = trim_bounds(&cs, 0, cs.len());
    proof {
        assert(cs@.subrange(0, cs@.len() as int) =~= cs@);
        assert(cs@.subrange(i as int, cs@.len() as int) =~= cs@.skip(i as int));
    }
    if !starts_with_at(&cs, i, "auto_inject") {
        return false;
    }
    proof {
        reveal_strlit("auto_inject");
    }
    let (k, _m) = trim_bounds(&cs, i + 11, cs.len());
    proof {
        let t = trim_start_spec(cs@);
        assert(t.skip(11) =~= cs@.subrange(i + 11, cs@.len() as int));
        assert(cs@.subrange(k as int, cs@.len() as int) =~= cs@.skip(k as int));
    }
    starts_with_at(&cs, k, "=")
}

/// Whether the line `l` is the `project_id` assignment.
fn project_line(l: &String) -> (b: bool)
    ensures
        b == is_project_line(l@),
{
    let cs = chars_of(l.as_str());
    let (i, _j) = trim_bounds(&cs, 0, cs.len());
    proof {
        assert(cs@.subrange(0, cs@.len() as int) =~= cs@);
        assert(cs@.subrange(i as int, cs@.len() as int) =~= cs@.skip(i as int));
    }
    if !starts_with_at(&cs, i, "project_id") {
        return false;
    }
    proof {
        assert(starts_with_spec(trim_start_spec(l@), "project_id"@));
    }
    let mut k: usize = 0;
    while k < cs.len()
        invariant
            starts_with_spec(trim_start_spec(l@), "project_id"@),
            cs@ == l@,
            0 <= k <= cs@.len(),
            forall|x: int| 0 <= x < k ==> cs@[x] != '=',
        decreases cs@.len() - k,
    {
        if cs[k] == '=' {
            proof {
                assert(l@.contains('='));
            }
            return true;
        }
        k += 1;
    }
    false
}

/// Rewrites the manifest text `content` so that `auto_inject` is `b`.
///
/// The edit is line based and keeps every other line, comments included:
/// the first `auto_inject = ...` line is replaced (its indentation kept);
/// without one, the flag goes right after the first `project_id` line, or
/// at the end. The result ends with a newline.
pub fn rewrite_auto_inject(content: &str, b: bool) -> (r: String)
    ensures
        r@ == terminated(rewritten_lines(lines_spec(content@), b)),
{
    let ls = lines(content);
    let ghost lv = lines_spec(content@);
    let mut replacement = "auto_inject = ".to_string();
    if b {
        push_str(&mut replacement, "true");
    } else {
        push_str(&mut replacement, "false");
    }
    proof {
        assert(replacement@ == flag_text(b));
    }
    let mut found: Option<usize> = None;
    let mut i: usize = 0;
    while i < ls.len()
        invariant
            ls@.map_values(|l: String| l@) == lv,
            0 <= i <= ls@.len(),
            found is None ==> forall|k: int| 0 <= k < i ==> !#[trigger] is_flag_line(lv[k]),
            found matches Some(f) ==> f < ls@.len() && is_flag_line(lv[f as int]) && forall|k: int|
                0 <= k < f ==> !#[trigger] is_flag_line(lv[k]),
        decreases ls@.len() - i,
    {
        if found.is_none() && flag_line(&ls[i]) {
            found = Some(i);
        }
        i += 1;
    }
    match found {
        Some(f) => {
            let cs = chars_of(ls[f].as_str());
            let (start, _j) = trim_bounds(&cs, 0, cs.len());
            let mut line = string_of(&cs, 0, start);
            push_str(&mut line, replacement.as_str());
            let mut k: usize = 0;
            let ghost target = lv.update(f as int, indent_of(lv[f as int]) + flag_text(b));
            proof {
                assert(first_flag_line(lv) == Some(f as int)) by {
                    let c = choose|c: int|
                        0 <= c < lv.len() && #[trigger] is_flag_line(lv[c]) && forall|x: int| 0 <= x < c
                            ==> !is_flag_line(lv[x]);
                    if c < f {
                    } else if c > f {
                        assert(!is_flag_line(lv[f as int]));
                    }
                }
                assert(cs@.subrange(0, cs@.len() as int) =~= cs@);
                assert(leading_ws(cs@) == start) by {
                    assert(trim_start_spec(cs@) == cs@.subrange(start as int, cs@.len() as int));
                    lemma_leading_ws_le(cs@);
                }
                assert(line@ == indent_of(lv[f as int]) + flag_text(b));
            }
            let mut acc = String::new();
            while k < ls.len()
                invariant
                    ls@.map_values(|l: String| l@) == lv,
                    0 <= k <= ls@.len(),
                    f < ls@.len(),
                    line@ == target[f as int],
                    target.len() == lv.len(),
                    forall|x: int| 0 <= x < lv.len() && x != f ==> target[x] == lv[x],
                    acc@ == terminated(target.take(k as int)),
                decreases ls@.len() - k,
            {
                if k == f {
                    push_str(&mut acc, line.as_str());
                } else {
                    push_str(&mut acc, ls[k].as_str());
                    proof {
                        assert(ls@[k as int]@ == lv[k as int]);
                    }
                }
                crate::text::push_char(&mut acc, '\n');
                proof {
                    assert(target.take(k + 1).drop_last() =~= target.take(k as int));
                }
                k += 1;
            }
            proof {
                assert(target.take(lv.len() as int) =~= target);
                assert(rewritten_lines(lv, b) == target);
            }
            acc
        },
        None => {
            let mut p: usize = 0;
            let mut have_p = false;
            while p < ls.len()
                invariant_except_break
                    !have_p,
                invariant
                    ls@.map_values(|l: String| l@) == lv,
                    0 <= p <= ls@.len(),
                    forall|k: int| 0 <= k < p ==> !#[trigger] is_project_line(lv[k]),
                ensures
                    0 <= p <= ls@.len(),
                    have_p ==> p < ls@.len() && is_project_line(lv[p as int]),
                    !have_p ==> p == ls@.len(),
                    forall|k: int| 0 <= k < p ==> !#[trigger] is_project_line(lv[k]),
                decreases ls@.len() - p,
            {
                if project_line(&ls[p]) {
                    have_p = true;
                    break;
                }
                p += 1;
            }
            proof {
                assert(first_flag_line(lv) is None);
            }
            let ghost target = if have_p {
                lv.take(p + 1) + seq![flag_text(b)] + lv.skip(p + 1)
            } else {
                lv.push(flag_text(b))
            };
            proof {
                if have_p {
                    assert(first_project_line(lv) == Some(p as int)) by {
                        let c = choose|c: int|
                            0 <= c < lv.len() && #[trigger] is_project_line(lv[c]) && forall|k: int| 0 <= k < c
                                ==> !is_project_line(lv[k]);
                        if c < p {
                        } else if c > p {
                            assert(!is_project_line(lv[p as int]));
                        }
                    }
                } else {
                    assert(first_project_line(lv) is None);
                }
                assert(rewritten_lines(lv, b) == target);
            }
            let mut acc = String::new();
            let mut k: usize = 0;
            while k < ls.len()
                invariant
                    ls@.map_values(|l: String| l@) == lv,
                    0 <= k <= ls@.len(),
                    have_p ==> p < ls@.len(),
                    replacement@ == flag_text(b),
                    target == if have_p {
                        lv.take(p + 1) + seq![flag_text(b)] + lv.skip(p + 1)
                    } else {
                        lv.push(flag_text(b))
                    },
                    acc@ == terminated(target.take(if have_p && k > p { k + 1 } else { k as int })),
                decreases ls@.len() - k,
            {
                let ghost before = if have_p && k > p { k + 1 } else { k as int };
                let ghost acc0 = acc@;
                push_str(&mut acc, ls[k].as_str());
                crate::text::push_char(&mut acc, '\n');
                proof {
                    assert(ls@[k as int]@ == lv[k as int]);
                    assert(target.len() == if have_p { lv.len() + 1 } else { lv.len() + 1 });
                    assert(target[before] == lv[k as int]);
                    assert(target.take(before + 1).drop_last() =~= target.take(before));
                    assert(target.take(before + 1).last() == target[before]);
                    assert(acc@ =~= acc0 + lv[k as int] + seq!['\n']);
                    assert(acc@ == terminated(target.take(before + 1)));
                }
                if have_p && k == p {
                    let ghost acc1 = acc@;
                    push_str(&mut acc, replacement.as_str());
                    crate::text::push_char(&mut acc, '\n');
                    proof {
                        assert(acc@ =~= acc1 + flag_text(b) + seq!['\n']);
                        assert(target[k + 1] == flag_text(b));
                        assert(target.take(k + 2).drop_last() =~= target.take(k + 1));
                        assert(target.take(k + 2).last() == target[k + 1]);
                    }
                }
                k += 1;
            }
            if !have_p {
                push_str(&mut acc, replacement.as_str());
                crate::text::push_char(&mut acc, '\n');
                proof {
                    assert(target.take(lv.len() as int + 1).drop_last() =~= target.take(lv.len() as int));
                    assert(target.take(lv.len() as int + 1) =~= target);
                }
            } else {
                proof {
                    assert(target.take(lv.len() as int + 1) =~= target);
                }
            }
            acc
        },
    }
}

proof fn lemma_leading_ws_le(s: Seq<char>)
    ensures
        leading_ws(s) <= s.len(),
    decreases s.len(),
{
    if s.len() > 0 && is_ws(s[0]) {
        lemma_leading_ws_le(s.drop_first());
    }
}

} // verus!
