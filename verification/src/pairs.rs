//! Ordered name/value lists: the in-memory form of every secret map.
//!
//! A secret map is a `Vec<(String, String)>` whose names are strictly
//! ascending in code-point order, the order a `BTreeMap<String, _>` walks.
use vstd::prelude::*;
use crate::text::{char_seq_lt, lemma_lt_irreflexive, lemma_lt_transitive};

verus! {

/// The (name, value) character sequences of a list of string pairs.
pub open spec fn pairs_view(s: Seq<(String, String)>) -> Seq<(Seq<char>, Seq<char>)> {
    s.map_values(|p: (String, String)| (p.0@, p.1@))
}

/// Names strictly ascending (so also free of duplicates).
pub open spec fn keys_sorted(s: Seq<(Seq<char>, Seq<char>)>) -> bool {
    forall|i: int, j: int| 0 <= i < j < s.len() ==> char_seq_lt(#[trigger] s[i].0, #[trigger] s[j].0)
}

/// Character sequences strictly ascending.
pub open spec fn names_sorted(s: Seq<Seq<char>>) -> bool {
    forall|i: int, j: int| 0 <= i < j < s.len() ==> char_seq_lt(#[trigger] s[i], #[trigger] s[j])
}

/// Whether the list holds an entry named `k`.
pub open spec fn has_key(s: Seq<(Seq<char>, Seq<char>)>, k: Seq<char>) -> bool {
    exists|i: int| 0 <= i < s.len() && (#[trigger] s[i]).0 == k
}

/// The value stored under `k` (meaningful when [`has_key`] holds).
pub open spec fn value_at(s: Seq<(Seq<char>, Seq<char>)>, k: Seq<char>) -> Seq<char> {
    s[choose|i: int| 0 <= i < s.len() && (#[trigger] s[i]).0 == k].1
}

/// In a sorted list the entry at `i` is the one found under its name.
pub proof fn lemma_value_at(s: Seq<(Seq<char>, Seq<char>)>, i: int)
    requires
        keys_sorted(s),
        0 <= i < s.len(),
    ensures
        has_key(s, s[i].0),
        value_at(s, s[i].0) == s[i].1,
{
    assert(0 <= i < s.len() && s[i].0 == s[i].0);
    let j = choose|j: int| 0 <= j < s.len() && (#[trigger] s[j]).0 == s[i].0;
    if j < i {
        assert(char_seq_lt(s[j].0, s[i].0));
        lemma_lt_irreflexive(s[i].0);
    } else if j > i {
        assert(char_seq_lt(s[i].0, s[j].0));
        lemma_lt_irreflexive(s[i].0);
    }
}

/// A name strictly between the entries before `j` and the entry at `j`
/// does not occur in a sorted list.
pub proof fn lemma_absent_between(s: Seq<(Seq<char>, Seq<char>)>, j: int, k: Seq<char>)
    requires
        keys_sorted(s),
        0 <= j <= s.len(),
        forall|q: int| 0 <= q < j ==> char_seq_lt(#[trigger] s[q].0, k),
        j < s.len() ==> char_seq_lt(k, s[j].0),
    ensures
        !has_key(s, k),
{
    if has_key(s, k) {
        let q = choose|q: int| 0 <= q < s.len() && (#[trigger] s[q]).0 == k;
        if q < j {
            assert(char_seq_lt(s[q].0, k));
            lemma_lt_irreflexive(k);
        } else if q == j {
            lemma_lt_irreflexive(k);
        } else {
            assert(char_seq_lt(s[j].0, s[q].0));
            lemma_lt_transitive(k, s[j].0, s[q].0);
            lemma_lt_irreflexive(k);
        }
    }
}

} // verus!
