//! Vault-leak scanning: finding known secret values pasted in plaintext.
//!
//! Matching is against values already stored in the vault, never against
//! patterns. Walking the working tree and reading files is the
//! application's job; this module decides what to search for and searches
//! one file's content.
use vstd::prelude::*;
use crate::text::{chars_of, contains_chars, contains_spec, lines, lines_spec};
use vstd::string::StringSliceAdditionalSpecFns;

verus! {

/// Secret values shorter than this many bytes are not searched for: short
/// values match everywhere and say nothing.
pub const MIN_MATCH_LEN: usize = 6usize;

/// Files larger than this are skipped (10 MiB).
pub const MAX_FILE_BYTES: u64 = 10485760u64;

/// Number of leading bytes inspected by the binary-file heuristic.
pub const BINARY_SNIFF_BYTES: usize = 8000usize;

/// Whether the first [`BINARY_SNIFF_BYTES`] bytes hold a NUL byte.
pub open spec fn looks_binary(bytes: Seq<u8>) -> bool {
    exists|i: int| 0 <= i < bytes.len() && i < 8000 && bytes[i] == 0
}

/// Coarse binary-file heuristic: a NUL byte among the first 8000 bytes.
pub fn is_probably_binary(bytes: &[u8]) -> (b: bool)
    ensures
        b == looks_binary(bytes@),
{
    let mut i: usize = 0;
    while i < bytes.len() && i < BINARY_SNIFF_BYTES
        invariant
            0 <= i <= bytes@.len(),
            i <= 8000,
            forall|k: int| 0 <= k < i ==> bytes@[k] != 0,
        decreases bytes@.len() - i,
    {
        if bytes[i] == 0 {
            return true;
        }
        i += 1;
    }
    false
}

/// A secret value to search for: its key, its environment and the value.
pub struct Needle {
    pub key: String,
    pub environment: String,
    pub value: String,
}

/// The needles for the secrets of one environment: every value of at least
/// [`MIN_MATCH_LEN`] bytes, in order.
pub open spec fn needles_of(environment: Seq<char>, pairs: Seq<(String, String)>) -> Seq<(Seq<char>, Seq<char>, Seq<char>)>
    decreases pairs.len(),
{
    if pairs.len() == 0 {
        seq![]
    } else {
        let prev = needles_of(environment, pairs.drop_last());
        let (k, v) = pairs.last();
        if vstd::utf8::encode_utf8(v@).len() >= 6 {
            prev.push((k@, environment, v@))
        } else {
            prev
        }
    }
}

/// The (key, environment, value) view of needles.
pub open spec fn needles_view(s: Seq<Needle>) -> Seq<(Seq<char>, Seq<char>, Seq<char>)> {
    s.map_values(|n: Needle| (n.key@, n.environment@, n.value@))
}

/// Appends to `out` the needles for the secrets `pairs` of `environment`.
pub fn add_needles(out: &mut Vec<Needle>, environment: &str, pairs: &Vec<(String, String)>)
    ensures
        needles_view(final(out)@) == needles_view(old(out)@) + needles_of(environment@, pairs@),
{
    let ghost start = needles_view(out@);
    let mut i: usize = 0;
    proof {
        assert(pairs@.take(0) =~= Seq::<(String, String)>::empty());
        assert(needles_view(out@) =~= start + needles_of(environment@, pairs@.take(0)));
    }
    while i < pairs.len()
        invariant
            0 <= i <= pairs@.len(),
            needles_view(out@) == start + needles_of(environment@, pairs@.take(i as int)),
        decreases pairs@.len() - i,
    {
        proof {
            assert(pairs@.take(i + 1).drop_last() =~= pairs@.take(i as int));
            assert(pairs@.take(i + 1).last() == pairs@[i as int]);
        }
        let value = &pairs[i].1;
        let ghost prev = out@;
        let value_str = value.as_str();
        let byte_len = value_str.as_bytes().len();
        proof {
            assert(byte_len == vstd::utf8::encode_utf8(value@).len());
        }
        if byte_len >= MIN_MATCH_LEN {
            let needle = Needle { key: pairs[i].0.clone(), environment: environment.to_string(), value: value.clone() };
            out.push(needle);
            proof {
                assert(needles_view(out@) =~= needles_view(prev).push((needle.key@, needle.environment@, needle.value@)));
                assert(needles_of(environment@, pairs@.take(i + 1)) == needles_of(environment@, pairs@.take(i as int)).push(
                    (pairs@[i as int].0@, environment@, pairs@[i as int].1@),
                ));
                assert(needles_view(out@) =~= start + needles_of(environment@, pairs@.take(i + 1)));
            }
        } else {
            proof {
                assert(needles_of(environment@, pairs@.take(i + 1)) == needles_of(environment@, pairs@.take(i as int)));
            }
        }
        i += 1;
    }
    proof {
        assert(pairs@.take(pairs@.len() as int) =~= pairs@);
    }
}

/// One occurrence of a needle in a file's text.
#[derive(Debug)]
pub struct LineMatch {
    /// The secret's key name.
    pub key: String,
    /// The environment the secret belongs to.
    pub environment: String,
    /// 1-indexed line number.
    pub line: usize,
    /// The matched value, only when the caller asked to reveal values.
    pub value: Option<String>,
}

/// The (line number, needle index) pairs of the matches in `ls`, lines in
/// order and needles in order within a line; line numbers start at
/// `first_line`.
pub open spec fn matches_in(ls: Seq<Seq<char>>, needles: Seq<(Seq<char>, Seq<char>, Seq<char>)>, first_line: int) -> Seq<(int, int)>
    decreases ls.len(),
{
    if ls.len() == 0 {
        seq![]
    } else {
        matches_in(ls.drop_last(), needles, first_line) + line_matches(ls.last(), needles, first_line + ls.len() - 1, needles.len() as int)
    }
}

/// The matches of needles `0..n` within one line.
pub open spec fn line_matches(line: Seq<char>, needles: Seq<(Seq<char>, Seq<char>, Seq<char>)>, line_no: int, n: int) -> Seq<(int, int)>
    decreases n,
{
    if n <= 0 {
        seq![]
    } else if contains_spec(line, needles[n - 1].2) {
        line_matches(line, needles, line_no, n - 1).push((line_no, n - 1))
    } else {
        line_matches(line, needles, line_no, n - 1)
    }
}

/// Whether `m` reports the match `(line, needle)` of `needles`.
pub open spec fn reports(m: LineMatch, hit: (int, int), needles: Seq<Needle>, reveal: bool) -> bool {
    &&& m.line == hit.0
    &&& m.key@ == needles[hit.1].key@
    &&& m.environment@ == needles[hit.1].environment@
    &&& if reveal {
        m.value matches Some(v) && v@ == needles[hit.1].value@
    } else {
        m.value is None
    }
}

/// Searches one file's text for every needle, line by line (`str::lines`).
/// Each line that contains a needle's value gives one match per needle, in
/// line order and then needle order. Values are only copied into the
/// matches when `reveal` is set.
pub fn scan_text(text: &str, needles: &Vec<Needle>, reveal: bool) -> (r: Vec<LineMatch>)
    ensures
        r@.len() == matches_in(lines_spec(text@), needles_view(needles@), 1).len(),
        forall|i: int| 0 <= i < r@.len() ==> reports(
            #[trigger] r@[i],
            matches_in(lines_spec(text@), needles_view(needles@), 1)[i],
            needles@,
            reveal,
        ),
{
    let ls = lines(text);
    let ghost lv = lines_spec(text@);
    let ghost nv = needles_view(needles@);
    let mut out: Vec<LineMatch> = Vec::new();
    let n = ls.len();
    let mut li: usize = 0;
    while li < n
        invariant
            ls@.map_values(|l: String| l@) == lv,
            n == lv.len(),
            nv == needles_view(needles@),
            0 <= li <= lv.len(),
            out@.len() == matches_in(lv.take(li as int), nv, 1).len(),
            forall|i: int| 0 <= i < out@.len() ==> reports(
                #[trigger] out@[i],
                matches_in(lv.take(li as int), nv, 1)[i],
                needles@,
                reveal,
            ),
        decreases lv.len() - li,
    {
        let line = chars_of(ls[li].as_str());
        proof {
            assert(ls@[li as int]@ == lv[li as int]);
            assert(lv.take(li + 1).drop_last() =~= lv.take(li as int));
            assert(lv.take(li + 1).last() == lv[li as int]);
        }
        let ghost before = matches_in(lv.take(li as int), nv, 1);
        let mut ni: usize = 0;
        while ni < needles.len()
            invariant
                line@ == lv[li as int],
                nv == needles_view(needles@),
                0 <= li < lv.len() <= usize::MAX,
                0 <= ni <= needles@.len(),
                out@.len() == before.len() + line_matches(line@, nv, li + 1, ni as int).len(),
                forall|i: int| 0 <= i < out@.len() ==> reports(
                    #[trigger] out@[i],
                    (before + line_matches(line@, nv, li + 1, ni as int))[i],
                    needles@,
                    reveal,
                ),
            decreases needles@.len() - ni,
        {
            let needle = &needles[ni];
            let value = chars_of(needle.value.as_str());
            proof {
                assert(nv[ni as int].2 == needle.value@);
            }
            let ghost prev_out = out@;
            if contains_chars(&line, &value) {
                let m = LineMatch {
                    key: needle.key.clone(),
                    environment: needle.environment.clone(),
                    line: li + 1,
                    value: if reveal {
                        Some(needle.value.clone())
                    } else {
                        None
                    },
                };
                out.push(m);
                proof {
                    let hits = before + line_matches(line@, nv, li + 1, ni + 1);
                    assert(hits =~= (before + line_matches(line@, nv, li + 1, ni as int)).push((li + 1, ni as int)));
                    assert forall|i: int| 0 <= i < out@.len() implies reports(#[trigger] out@[i], hits[i], needles@, reveal) by {
                        if i < prev_out.len() {
                            assert(out@[i] == prev_out[i]);
                        }
                    }
                }
            } else {
                proof {
                    assert(line_matches(line@, nv, li + 1, ni + 1) == line_matches(line@, nv, li + 1, ni as int));
                }
            }
            ni += 1;
        }
        proof {
            assert(needles@.len() == nv.len());
            assert(matches_in(lv.take(li + 1), nv, 1) =~= before + line_matches(line@, nv, li + 1, nv.len() as int));
        }
        li += 1;
    }
    proof {
        assert(lv.take(lv.len() as int) =~= lv);
    }
    out
}

/// What `String::from_utf8_lossy` decodes `bytes` to.
pub uninterp spec fn spec_utf8_lossy(bytes: Seq<u8>) -> Seq<char>;

/// Trusted: `String::from_utf8_lossy`, named by [`spec_utf8_lossy`]: the
/// text of the bytes with every invalid sequence replaced by U+FFFD, a
/// function of the bytes alone.
#[verifier::external_body]
fn utf8_lossy(bytes: &[u8]) -> (s: String)
    ensures
        s@ == spec_utf8_lossy(bytes@),
{
    String::from_utf8_lossy(bytes).into_owned()
}

/// Searches one file's bytes: nothing for a file that looks binary, else
/// the matches of [`scan_text`] in its (lossily decoded) text.
pub fn scan_bytes(bytes: &[u8], needles: &Vec<Needle>, reveal: bool) -> (r: Vec<LineMatch>)
    ensures
        looks_binary(bytes@) ==> r@.len() == 0,
        !looks_binary(bytes@) ==> {
            &&& r@.len() == matches_in(lines_spec(spec_utf8_lossy(bytes@)), needles_view(needles@), 1).len()
            &&& forall|i: int| 0 <= i < r@.len() ==> reports(
                #[trigger] r@[i],
                matches_in(lines_spec(spec_utf8_lossy(bytes@)), needles_view(needles@), 1)[i],
                needles@,
                reveal,
            )
        },
{
    if is_probably_binary(bytes) {
        return Vec::new();
    }
    let text = utf8_lossy(bytes);
    scan_text(text.as_str(), needles, reveal)
}

/// Whether a file of `len` bytes is read by a scan: empty files and files
/// over [`MAX_FILE_BYTES`] are passed over.
pub fn scannable_size(len: u64) -> (b: bool)
    ensures
        b == (len != 0 && len <= MAX_FILE_BYTES),
{
    len != 0 && len <= MAX_FILE_BYTES
}

/// Every secret of at least six UTF-8 bytes becomes one needle carrying its
/// own key and its own value, in order; shorter secrets become none. So the
/// needles are the long enough pairs, each mapped to (key, environment,
/// value).
pub proof fn lemma_needles_are_long_pairs(environment: Seq<char>, pairs: Seq<(String, String)>)
    ensures
        needles_of(environment, pairs) == pairs.filter(|p: (String, String)| vstd::utf8::encode_utf8(p.1@).len() >= 6).map_values(
            |p: (String, String)| (p.0@, environment, p.1@),
        ),
    decreases pairs.len(),
{
    let long = |p: (String, String)| vstd::utf8::encode_utf8(p.1@).len() >= 6;
    let view = |p: (String, String)| (p.0@, environment, p.1@);
    if pairs.len() == 0 {
        assert(pairs.filter(long) =~= pairs) by {
            reveal(Seq::filter);
        }
        assert(pairs.filter(long).map_values(view) =~= Seq::<(Seq<char>, Seq<char>, Seq<char>)>::empty());
    } else {
        lemma_needles_are_long_pairs(environment, pairs.drop_last());
        assert(pairs.filter(long) == if long(pairs.last()) {
            pairs.drop_last().filter(long).push(pairs.last())
        } else {
            pairs.drop_last().filter(long)
        }) by {
            reveal(Seq::filter);
        }
        if long(pairs.last()) {
            assert(pairs.filter(long).map_values(view) =~= pairs.drop_last().filter(long).map_values(view).push(
                view(pairs.last()),
            ));
        }
    }
}

} // verus!
