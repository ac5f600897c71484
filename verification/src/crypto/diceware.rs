//! Diceware passphrase suggestions from the EFF large word list.
//!
//! The word list text (one `DDDDD<TAB>word` entry per line) is supplied by
//! the caller; words are drawn with the OS CSPRNG.
use vstd::prelude::*;
use crate::text::{chars_of, is_ws, lines, lines_spec, push_char, push_str, skip_ws_forward, string_of, trim_start_spec};
use rand::rngs::OsRng;
use rand::seq::SliceRandom;

verus! {

/// Number of leading characters of `s` that are not white space.
pub open spec fn token_len(s: Seq<char>) -> nat
    decreases s.len(),
{
    if s.len() > 0 && !is_ws(s[0]) {
        1 + token_len(s.drop_first())
    } else {
        0
    }
}

/// The second white-space-separated token of a line
/// (`split_whitespace().nth(1)`), if it has one.
pub open spec fn second_token(l: Seq<char>) -> Option<Seq<char>> {
    let a = trim_start_spec(l);
    let b = trim_start_spec(a.skip(token_len(a) as int));
    if a.len() == 0 || b.len() == 0 {
        None
    } else {
        Some(b.take(token_len(b) as int))
    }
}

/// The words of a word-list text: the second token of every line that has one.
pub open spec fn words_of(ls: Seq<Seq<char>>) -> Seq<Seq<char>>
    decreases ls.len(),
{
    if ls.len() == 0 {
        seq![]
    } else {
        match second_token(ls.last()) {
            Some(w) => words_of(ls.drop_last()).push(w),
            None => words_of(ls.drop_last()),
        }
    }
}

proof fn lemma_token_len(s: Seq<char>, m: int)
    requires
        0 <= m <= s.len(),
        forall|k: int| 0 <= k < m ==> !is_ws(#[trigger] s[k]),
        m < s.len() ==> is_ws(s[m]),
    ensures
        token_len(s) == m,
    decreases m,
{
    if m > 0 {
        assert forall|k: int| 0 <= k < m - 1 implies !is_ws(#[trigger] s.drop_first()[k]) by {
            assert(s.drop_first()[k] == s[k + 1]);
        }
        lemma_token_len(s.drop_first(), m - 1);
    }
}

/// Position of the first white-space character of `cs[from..]` (or the end).
fn skip_token(cs: &Vec<char>, from: usize) -> (i: usize)
    requires
        from <= cs@.len(),
    ensures
        from <= i <= cs@.len(),
        token_len(cs@.skip(from as int)) == i - from,
{
    let mut i = from;
    while i < cs.len() && !crate::text::is_whitespace(cs[i])
        invariant
            from <= i <= cs@.len(),
            forall|k: int| from <= k < i ==> !is_ws(#[trigger] cs@[k]),
        decreases cs@.len() - i,
    {
        i += 1;
    }
    proof {
        let t = cs@.skip(from as int);
        assert forall|k: int| 0 <= k < i - from implies !is_ws(#[trigger] t[k]) by {
            assert(t[k] == cs@[from + k]);
        }
        if i < cs@.len() {
            assert(t[i - from] == cs@[i as int]);
        }
        lemma_token_len(t, i - from);
    }
    i
}

/// The second white-space-separated token of `line`, if any.
fn second_word(line: &String) -> (r: Option<String>)
    ensures
        match second_token(line@) {
            Some(w) => r matches Some(s) && s@ == w,
            None => r is None,
        },
{
    let cs = chars_of(line.as_str());
    let n = cs.len();
    let (a, _x) = crate::text::trim_bounds(&cs, 0, n);
    proof {
        assert(cs@.subrange(0, n as int) =~= cs@);
        assert(cs@.subrange(a as int, n as int) =~= cs@.skip(a as int));
    }
    let a_end = skip_token(&cs, a);
    let (b, _y) = crate::text::trim_bounds(&cs, a_end, n);
    proof {
        let av = trim_start_spec(cs@);
        assert(av.skip(token_len(av) as int) =~= cs@.subrange(a_end as int, n as int));
        assert(cs@.subrange(b as int, n as int) =~= cs@.skip(b as int));
    }
    if a == n || b == n {
        return None;
    }
    let b_end = skip_token(&cs, b);
    let w = string_of(&cs, b, b_end);
    proof {
        assert(w@ =~= cs@.skip(b as int).take(token_len(cs@.skip(b as int)) as int));
    }
    Some(w)
}

/// Parses the word-list text: the second token of each line (the word after
/// the dice roll); lines without one are skipped.
pub fn words(raw: &str) -> (r: Vec<String>)
    ensures
        r@.map_values(|w: String| w@) == words_of(lines_spec(raw@)),
{
    let ls = lines(raw);
    let ghost lv = lines_spec(raw@);
    let mut out: Vec<String> = Vec::new();
    let n = ls.len();
    let mut i: usize = 0;
    proof {
        assert(lv.take(0) =~= Seq::<Seq<char>>::empty());
        assert(out@.map_values(|w: String| w@) =~= Seq::<Seq<char>>::empty());
    }
    while i < n
        invariant
            ls@.map_values(|l: String| l@) == lv,
            n == lv.len(),
            0 <= i <= n,
            out@.map_values(|w: String| w@) == words_of(lv.take(i as int)),
        decreases n - i,
    {
        proof {
            assert(ls@[i as int]@ == lv[i as int]);
            assert(lv.take(i + 1).drop_last() =~= lv.take(i as int));
            assert(lv.take(i + 1).last() == lv[i as int]);
        }
        let ghost before = out@;
        match second_word(&ls[i]) {
            Some(w) => {
                out.push(w);
                proof {
                    assert(out@.map_values(|x: String| x@) =~= before.map_values(|x: String| x@).push(w@));
                }
            },
            None => {},
        }
        i += 1;
    }
    proof {
        assert(lv.take(n as int) =~= lv);
    }
    out
}

/// Trusted: `SliceRandom::choose` with `OsRng`, which picks one element of
/// a non-empty slice uniformly (rejection sampling, no modulo bias). Only
/// that the word is one of the list is stated: which one is up to chance.
#[verifier::external_body]
fn choose_word(words: &[String]) -> (w: String)
    requires
        words@.len() > 0,
    ensures
        words@.contains(w),
{
    match words.choose(&mut OsRng) {
        Some(w) => w.clone(),
        None => String::new(),
    }
}

/// The words joined with single spaces.
pub open spec fn joined(ws: Seq<Seq<char>>) -> Seq<char>
    decreases ws.len(),
{
    if ws.len() == 0 {
        seq![]
    } else if ws.len() == 1 {
        ws[0]
    } else {
        joined(ws.drop_last()) + seq![' '] + ws.last()
    }
}

/// Generates a Diceware passphrase of `word_count` words from `words`,
/// separated by single spaces, each drawn with the OS CSPRNG.
pub fn suggest_passphrase(words: &Vec<String>, word_count: usize) -> (s: String)
    requires
        words@.len() > 0,
    ensures
        exists|chosen: Seq<Seq<char>>|
            chosen.len() == word_count && (forall|k: int| 0 <= k < chosen.len() ==> exists|i: int|
                0 <= i < words@.len() && words@[i]@ == #[trigger] chosen[k]) && s@ == joined(chosen),
{
    let mut s = String::new();
    let ghost mut chosen: Seq<Seq<char>> = seq![];
    let mut k: usize = 0;
    while k < word_count
        invariant
            words@.len() > 0,
            0 <= k <= word_count,
            chosen.len() == k,
            forall|x: int| 0 <= x < chosen.len() ==> exists|i: int|
                0 <= i < words@.len() && words@[i]@ == #[trigger] chosen[x],
            s@ == joined(chosen),
        decreases word_count - k,
    {
        let w = choose_word(words.as_slice());
        if k > 0 {
            push_char(&mut s, ' ');
        }
        push_str(&mut s, w.as_str());
        proof {
            let old_chosen = chosen;
            chosen = chosen.push(w@);
            assert(chosen.drop_last() =~= old_chosen);
            if k == 0 {
                assert(s@ =~= w@);
            }
            assert forall|x: int| 0 <= x < chosen.len() implies exists|i: int|
                0 <= i < words@.len() && words@[i]@ == #[trigger] chosen[x] by {
                if x < old_chosen.len() {
                    assert(chosen[x] == old_chosen[x]);
                } else {
                    let i = choose|i: int| 0 <= i < words@.len() && words@[i] == w;
                    assert(words@[i]@ == chosen[x]);
                }
            }
        }
        k += 1;
    }
    s
}

} // verus!
