//! Passphrase strength hints for the interactive `encrypt`/`rotate`
//! prompts. Purely informational: a weak score never blocks a passphrase.
//!
//! The entropy estimate is `length * log2(alphabet size)`; the alphabet
//! size is decided here, the floating-point arithmetic is the caller's.
use vstd::prelude::*;
use crate::text::chars_of;

verus! {

/// Qualitative strength bucket derived from estimated entropy bits.
#[derive(Debug, Clone, Copy, PartialEq, Eq, Structural)]
pub enum StrengthLevel {
    VeryWeak,
    Weak,
    Fair,
    Strong,
    VeryStrong,
}

/// The label of a strength level.
pub open spec fn level_label(l: StrengthLevel) -> Seq<char> {
    match l {
        StrengthLevel::VeryWeak => "very weak"@,
        StrengthLevel::Weak => "weak"@,
        StrengthLevel::Fair => "fair"@,
        StrengthLevel::Strong => "strong"@,
        StrengthLevel::VeryStrong => "very strong"@,
    }
}

impl StrengthLevel {
    /// Lowercase label suitable for CLI output (e.g. "weak").
    pub fn label(self) -> (s: &'static str)
        ensures
            s@ == level_label(self),
    {
        match self {
            StrengthLevel::VeryWeak => "very weak",
            StrengthLevel::Weak => "weak",
            StrengthLevel::Fair => "fair",
            StrengthLevel::Strong => "strong",
            StrengthLevel::VeryStrong => "very strong",
        }
    }

    /// `true` for the two weakest buckets, which earn a hint pointing at the
    /// Diceware generator.
    pub fn is_weak(self) -> (b: bool)
        ensures
            b == (self == StrengthLevel::VeryWeak || self == StrengthLevel::Weak),
    {
        match self {
            StrengthLevel::VeryWeak | StrengthLevel::Weak => true,
            _ => false,
        }
    }
}

/// ASCII character classes.
pub open spec fn is_ascii_lower(c: char) -> bool {
    'a' <= c <= 'z'
}

/// `c` is an ASCII capital letter.
pub open spec fn is_ascii_upper(c: char) -> bool {
    'A' <= c <= 'Z'
}

/// `c` is an ASCII digit.
pub open spec fn is_ascii_digit(c: char) -> bool {
    '0' <= c <= '9'
}

/// An ASCII character that is neither alphanumeric nor a space.
pub open spec fn is_ascii_symbol(c: char) -> bool {
    (c as u32) < 128 && !is_ascii_lower(c) && !is_ascii_upper(c) && !is_ascii_digit(c) && c != ' '
}

/// Whether some character of `s` satisfies `p`.
pub open spec fn any_char(s: Seq<char>, p: spec_fn(char) -> bool) -> bool {
    exists|i: int| 0 <= i < s.len() && p(#[trigger] s[i])
}

/// The size of the alphabet a passphrase draws from: 26 for lowercase, 26
/// for uppercase, 10 for digits, 32 for ASCII symbols, 1 for the space and a
/// floor of 100 for any non-ASCII use.
pub open spec fn charset_size_of(s: Seq<char>) -> int {
    (if any_char(s, |c: char| is_ascii_lower(c)) { 26int } else { 0int }) + (if any_char(s, |c: char| is_ascii_upper(c)) {
        26int
    } else {
        0int
    }) + (if any_char(s, |c: char| is_ascii_digit(c)) { 10int } else { 0int }) + (if any_char(
        s,
        |c: char| is_ascii_symbol(c),
    ) {
        32int
    } else {
        0int
    }) + (if any_char(s, |c: char| c == ' ') { 1int } else { 0int }) + (if any_char(s, |c: char| (c as u32) >= 128) {
        100int
    } else {
        0int
    })
}

/// Returns the alphabet size and the character count of `passphrase`, the
/// two inputs of the entropy estimate.
pub fn charset_size(passphrase: &str) -> (r: (u32, usize))
    ensures
        r.0 == charset_size_of(passphrase@),
        r.1 == passphrase@.len(),
{
    let cs = chars_of(passphrase);
    let mut lower = false;
    let mut upper = false;
    let mut digit = false;
    let mut symbol = false;
    let mut space = false;
    let mut non_ascii = false;
    let mut i: usize = 0;
    while i < cs.len()
        invariant
            cs@ == passphrase@,
            0 <= i <= cs@.len(),
            lower == any_char(cs@.take(i as int), |c: char| is_ascii_lower(c)),
            upper == any_char(cs@.take(i as int), |c: char| is_ascii_upper(c)),
            digit == any_char(cs@.take(i as int), |c: char| is_ascii_digit(c)),
            symbol == any_char(cs@.take(i as int), |c: char| is_ascii_symbol(c)),
            space == any_char(cs@.take(i as int), |c: char| c == ' '),
            non_ascii == any_char(cs@.take(i as int), |c: char| (c as u32) >= 128),
        decreases cs@.len() - i,
    {
        let c = cs[i];
        let u = c as u32;
        let is_l = 'a' <= c && c <= 'z';
        let is_u = 'A' <= c && c <= 'Z';
        let is_d = '0' <= c && c <= '9';
        lower = lower || is_l;
        upper = upper || is_u;
        digit = digit || is_d;
        symbol = symbol || (u < 128 && !is_l && !is_u && !is_d && c != ' ');
        space = space || c == ' ';
        non_ascii = non_ascii || u >= 128;
        proof {
            let pre = cs@.take(i as int);
            let post = cs@.take(i + 1);
            assert(post =~= pre.push(c));
            assert forall|p: spec_fn(char) -> bool| #[trigger] any_char(post, p) == (any_char(pre, p) || p(c)) by {
                if any_char(post, p) {
                    let k = choose|k: int| 0 <= k < post.len() && p(#[trigger] post[k]);
                    if k < pre.len() {
                        assert(post[k] == pre[k]);
                    }
                }
                if any_char(pre, p) {
                    let k = choose|k: int| 0 <= k < pre.len() && p(#[trigger] pre[k]);
                    assert(post[k] == pre[k]);
                }
                if p(c) {
                    assert(post[i as int] == c);
                }
            }
        }
        i += 1;
    }
    proof {
        assert(cs@.take(cs@.len() as int) =~= cs@);
    }
    let mut size: u32 = 0;
    if lower {
        size += 26;
    }
    if upper {
        size += 26;
    }
    if digit {
        size += 10;
    }
    if symbol {
        size += 32;
    }
    if space {
        size += 1;
    }
    if non_ascii {
        size += 100;
    }
    (size, cs.len())
}

/// The class of a character for the alphabet size: 0 ASCII lowercase, 1
/// ASCII uppercase, 2 ASCII digit, 3 other ASCII (symbols and controls), 4
/// the space, 5 anything beyond ASCII.
pub open spec fn char_class(c: char) -> int {
    if 'a' <= c <= 'z' {
        0
    } else if 'A' <= c <= 'Z' {
        1
    } else if '0' <= c <= '9' {
        2
    } else if c == ' ' {
        4
    } else if (c as u32) < 128 {
        3
    } else {
        5
    }
}

/// How many symbols a class adds to the alphabet.
pub open spec fn class_weight(k: int) -> int {
    if k == 0 {
        26
    } else if k == 1 {
        26
    } else if k == 2 {
        10
    } else if k == 3 {
        32
    } else if k == 4 {
        1
    } else {
        100
    }
}

proof fn lemma_any_push(s: Seq<char>, c: char, p: spec_fn(char) -> bool)
    ensures
        any_char(s.push(c), p) == (any_char(s, p) || p(c)),
{
    let post = s.push(c);
    if any_char(post, p) {
        let k = choose|k: int| 0 <= k < post.len() && p(#[trigger] post[k]);
        if k < s.len() {
            assert(post[k] == s[k]);
        }
    }
    if any_char(s, p) {
        let k = choose|k: int| 0 <= k < s.len() && p(#[trigger] s[k]);
        assert(post[k] == s[k]);
    }
    if p(c) {
        assert(post[s.len() as int] == c);
    }
}

proof fn lemma_any_class(s: Seq<char>, c: char)
    ensures
        (exists|i: int| 0 <= i < s.len() && char_class(#[trigger] s[i]) == char_class(c)) == (if char_class(c) == 0 {
            any_char(s, |x: char| is_ascii_lower(x))
        } else if char_class(c) == 1 {
            any_char(s, |x: char| is_ascii_upper(x))
        } else if char_class(c) == 2 {
            any_char(s, |x: char| is_ascii_digit(x))
        } else if char_class(c) == 3 {
            any_char(s, |x: char| is_ascii_symbol(x))
        } else if char_class(c) == 4 {
            any_char(s, |x: char| x == ' ')
        } else {
            any_char(s, |x: char| (x as u32) >= 128)
        }),
{
    if exists|i: int| 0 <= i < s.len() && char_class(#[trigger] s[i]) == char_class(c) {
        let i = choose|i: int| 0 <= i < s.len() && char_class(#[trigger] s[i]) == char_class(c);
        assert(s[i] == s[i]);
    }
    assert(forall|x: char| char_class(x) == 0 <==> is_ascii_lower(x));
    assert(forall|x: char| char_class(x) == 1 <==> is_ascii_upper(x));
    assert(forall|x: char| char_class(x) == 2 <==> is_ascii_digit(x));
    assert(forall|x: char| char_class(x) == 3 <==> is_ascii_symbol(x));
    assert(forall|x: char| char_class(x) == 4 <==> x == ' ');
    assert(forall|x: char| char_class(x) == 5 <==> (x as u32) >= 128) by {
        assert forall|x: char| char_class(x) == 5 <==> (x as u32) >= 128 by {
            if 'a' <= x <= 'z' || 'A' <= x <= 'Z' || '0' <= x <= '9' || x == ' ' {
                assert((x as u32) < 128);
            }
        }
    }
}

/// The alphabet size is additive over character classes: an empty
/// passphrase draws from no alphabet, and appending a character adds its
/// class's size (26 lowercase, 26 uppercase, 10 digits, 32 other ASCII, 1
/// space, 100 beyond ASCII) exactly when no character of that class was
/// there yet, whatever the other classes present.
pub proof fn lemma_charset_additive(s: Seq<char>, c: char)
    ensures
        charset_size_of(Seq::<char>::empty()) == 0,
        charset_size_of(s.push(c)) == charset_size_of(s) + if exists|i: int| 0 <= i < s.len() && char_class(#[trigger] s[i])
            == char_class(c) {
            0
        } else {
            class_weight(char_class(c))
        },
{
    lemma_any_push(s, c, |x: char| is_ascii_lower(x));
    lemma_any_push(s, c, |x: char| is_ascii_upper(x));
    lemma_any_push(s, c, |x: char| is_ascii_digit(x));
    lemma_any_push(s, c, |x: char| is_ascii_symbol(x));
    lemma_any_push(s, c, |x: char| x == ' ');
    lemma_any_push(s, c, |x: char| (x as u32) >= 128);
    lemma_any_class(s, c);
    if 'a' <= c <= 'z' || 'A' <= c <= 'Z' || '0' <= c <= '9' || c == ' ' {
        assert((c as u32) < 128);
    }
}

} // verus!
