//! Key-level differences between the vault and a sealed artifact for one
//! environment. Pure computation: rendering is the caller's job.
use vstd::prelude::*;
use crate::pairs::{has_key, keys_sorted, lemma_absent_between, lemma_value_at, pairs_view, value_at};
use crate::text::{char_seq_lt, compare_str, lemma_lt_transitive, KeyOrder};

verus! {

/// The kind of change detected for a single secret key.
#[derive(Debug, Clone, Copy, PartialEq, Eq, Structural)]
pub enum ChangeType {
    /// Key exists in the vault but not in the artifact.
    Added,
    /// Key exists in the artifact but not in the vault.
    Removed,
    /// Key exists in both but the values differ.
    Modified,
}

/// A single key-level difference between vault and artifact.
#[derive(Debug)]
pub struct DiffEntry {
    pub key: String,
    pub change: ChangeType,
    /// Value from the artifact (`None` for `Added` entries).
    pub old_value: Option<String>,
    /// Value from the vault (`None` for `Removed` entries).
    pub new_value: Option<String>,
}

/// Complete diff result for one environment.
#[derive(Debug)]
pub struct DiffReport {
    pub env_name: String,
    pub entries: Vec<DiffEntry>,
    pub added: usize,
    pub removed: usize,
    pub modified: usize,
}

/// The characters of an optional string.
pub open spec fn opt_view(o: Option<String>) -> Option<Seq<char>> {
    match o {
        Some(s) => Some(s@),
        None => None,
    }
}

/// Whether key `k` differs between vault `v` and artifact `a`: present on one
/// side only, or present on both with different values.
pub open spec fn key_differs(v: Seq<(Seq<char>, Seq<char>)>, a: Seq<(Seq<char>, Seq<char>)>, k: Seq<char>) -> bool {
    ||| has_key(v, k) && !has_key(a, k)
    ||| !has_key(v, k) && has_key(a, k)
    ||| has_key(v, k) && has_key(a, k) && value_at(v, k) != value_at(a, k)
}

/// Whether `e` correctly describes how its key differs between `v` and `a`.
pub open spec fn entry_correct(v: Seq<(Seq<char>, Seq<char>)>, a: Seq<(Seq<char>, Seq<char>)>, e: DiffEntry) -> bool {
    let k = e.key@;
    match e.change {
        ChangeType::Added => has_key(v, k) && !has_key(a, k) && opt_view(e.new_value) == Some(value_at(v, k))
            && e.old_value is None,
        ChangeType::Removed => !has_key(v, k) && has_key(a, k) && opt_view(e.old_value) == Some(value_at(a, k))
            && e.new_value is None,
        ChangeType::Modified => has_key(v, k) && has_key(a, k) && value_at(v, k) != value_at(a, k)
            && opt_view(e.old_value) == Some(value_at(a, k)) && opt_view(e.new_value) == Some(value_at(v, k)),
    }
}

/// Number of entries of kind `c`.
pub open spec fn count_change(s: Seq<DiffEntry>, c: ChangeType) -> nat
    decreases s.len(),
{
    if s.len() == 0 {
        0
    } else {
        count_change(s.drop_last(), c) + if s.last().change == c { 1nat } else { 0nat }
    }
}

/// Entry keys strictly ascending.
pub open spec fn entries_sorted(s: Seq<DiffEntry>) -> bool {
    forall|i: int, j: int| 0 <= i < j < s.len() ==> char_seq_lt(#[trigger] s[i].key@, #[trigger] s[j].key@)
}

/// Whether `r` is exactly the difference between vault `v` and artifact `a`:
/// one entry per differing key, each correct, in ascending key order, with
/// the per-kind counters matching the entries.
pub open spec fn is_diff_of(r: DiffReport, v: Seq<(Seq<char>, Seq<char>)>, a: Seq<(Seq<char>, Seq<char>)>) -> bool {
    &&& forall|i: int| 0 <= i < r.entries@.len() ==> entry_correct(v, a, #[trigger] r.entries@[i])
    &&& entries_sorted(r.entries@)
    &&& forall|k: Seq<char>| key_differs(v, a, k) ==> exists|i: int|
        0 <= i < r.entries@.len() && (#[trigger] r.entries@[i]).key@ == k
    &&& r.added == count_change(r.entries@, ChangeType::Added)
    &&& r.removed == count_change(r.entries@, ChangeType::Removed)
    &&& r.modified == count_change(r.entries@, ChangeType::Modified)
}

proof fn lemma_count_push(s: Seq<DiffEntry>, e: DiffEntry, c: ChangeType)
    ensures
        count_change(s.push(e), c) == count_change(s, c) + if e.change == c { 1nat } else { 0nat },
{
    assert(s.push(e).drop_last() =~= s);
}

proof fn lemma_counts_total(s: Seq<DiffEntry>)
    ensures
        count_change(s, ChangeType::Added) + count_change(s, ChangeType::Removed)
            + count_change(s, ChangeType::Modified) == s.len(),
    decreases s.len(),
{
    if s.len() > 0 {
        lemma_counts_total(s.drop_last());
    }
}

/// Names in `names[0..n]` that differ keep their witness entry when entries
/// are only appended.
proof fn lemma_keep_witnesses(
    names: Seq<(Seq<char>, Seq<char>)>,
    n: int,
    v: Seq<(Seq<char>, Seq<char>)>,
    a: Seq<(Seq<char>, Seq<char>)>,
    old: Seq<DiffEntry>,
    new: Seq<DiffEntry>,
)
    requires
        new.len() >= old.len(),
        forall|e: int| 0 <= e < old.len() ==> new[e] == old[e],
        forall|p: int| 0 <= p < n && key_differs(v, a, #[trigger] names[p].0) ==> exists|e: int|
            0 <= e < old.len() && (#[trigger] old[e]).key@ == names[p].0,
    ensures
        forall|p: int| 0 <= p < n && key_differs(v, a, #[trigger] names[p].0) ==> exists|e: int|
            0 <= e < new.len() && (#[trigger] new[e]).key@ == names[p].0,
{
    assert forall|p: int| 0 <= p < n && key_differs(v, a, #[trigger] names[p].0) implies exists|e: int|
        0 <= e < new.len() && (#[trigger] new[e]).key@ == names[p].0 by {
        let e0 = choose|e: int| 0 <= e < old.len() && (#[trigger] old[e]).key@ == names[p].0;
        assert(new[e0] == old[e0]);
    }
}

impl DiffReport {
    /// Returns `true` if there are any differences.
    pub fn has_differences(&self) -> (b: bool)
        ensures
            b == (self.entries@.len() > 0),
    {
        !self.entries.is_empty()
    }

    /// Total number of changes.
    pub fn total(&self) -> (n: usize)
        requires
            self.added + self.removed + self.modified <= usize::MAX,
        ensures
            n == self.added + self.removed + self.modified,
    {
        self.added + self.removed + self.modified
    }
}

/// Compares vault secrets against artifact secrets for a single environment.
///
/// Both lists are in ascending key order without duplicates. The report
/// holds one entry per key that is only in the vault (`Added`), only in the
/// artifact (`Removed`), or in both with different values (`Modified`),
/// sorted by key; unchanged keys are left out. Each counter equals the number
/// of entries of its kind, so the three add up to the number of entries.
pub fn compute_diff(env_name: &str, vault_secrets: &Vec<(String, String)>, artifact_secrets: &Vec<(String, String)>) -> (r: DiffReport)
    requires
        keys_sorted(pairs_view(vault_secrets@)),
        keys_sorted(pairs_view(artifact_secrets@)),
    ensures
        r.env_name@ == env_name@,
        is_diff_of(r, pairs_view(vault_secrets@), pairs_view(artifact_secrets@)),
        r.added + r.removed + r.modified == r.entries@.len(),
{
    let ghost v = pairs_view(vault_secrets@);
    let ghost a = pairs_view(artifact_secrets@);
    let mut entries: Vec<DiffEntry> = Vec::new();
    let mut added: usize = 0;
    let mut removed: usize = 0;
    let mut modified: usize = 0;
    let mut i: usize = 0;
    let mut j: usize = 0;
    while i < vault_secrets.len() || j < artifact_secrets.len()
        invariant
            v == pairs_view(vault_secrets@),
            a == pairs_view(artifact_secrets@),
            keys_sorted(v),
            keys_sorted(a),
            0 <= i <= v.len(),
            0 <= j <= a.len(),
            v.len() == vault_secrets@.len(),
            a.len() == artifact_secrets@.len(),
            forall|q: int| 0 <= q < j && i < v.len() ==> char_seq_lt(#[trigger] a[q].0, v[i as int].0),
            forall|p: int| 0 <= p < i && j < a.len() ==> char_seq_lt(#[trigger] v[p].0, a[j as int].0),
            forall|e: int| 0 <= e < entries@.len() ==> entry_correct(v, a, #[trigger] entries@[e]),
            entries_sorted(entries@),
            forall|e: int| 0 <= e < entries@.len() && i < v.len() ==> char_seq_lt(#[trigger] entries@[e].key@, v[i as int].0),
            forall|e: int| 0 <= e < entries@.len() && j < a.len() ==> char_seq_lt(#[trigger] entries@[e].key@, a[j as int].0),
            forall|p: int| 0 <= p < i && key_differs(v, a, #[trigger] v[p].0) ==> exists|e: int|
                0 <= e < entries@.len() && (#[trigger] entries@[e]).key@ == v[p].0,
            forall|q: int| 0 <= q < j && key_differs(v, a, #[trigger] a[q].0) ==> exists|e: int|
                0 <= e < entries@.len() && (#[trigger] entries@[e]).key@ == a[q].0,
            added == count_change(entries@, ChangeType::Added),
            removed == count_change(entries@, ChangeType::Removed),
            modified == count_change(entries@, ChangeType::Modified),
        decreases v.len() + a.len() - i - j,
    {
        proof {
            lemma_counts_total(entries@);
        }
        let ord = if i < vault_secrets.len() && j < artifact_secrets.len() {
            compare_str(vault_secrets[i].0.as_str(), artifact_secrets[j].0.as_str())
        } else if i < vault_secrets.len() {
            KeyOrder::Less
        } else {
            KeyOrder::Greater
        };
        let ghost old_entries = entries@;
        match ord {
            KeyOrder::Less => {
                let ghost k = v[i as int].0;
                proof {
                    lemma_value_at(v, i as int);
                    lemma_absent_between(a, j as int, k);
                }
                let e = DiffEntry {
                    key: vault_secrets[i].0.clone(),
                    change: ChangeType::Added,
                    old_value: None,
                    new_value: Some(vault_secrets[i].1.clone()),
                };
                entries.push(e);
                proof {
                    lemma_count_push(old_entries, e, ChangeType::Added);
                    lemma_count_push(old_entries, e, ChangeType::Removed);
                    lemma_count_push(old_entries, e, ChangeType::Modified);
                    assert(entries@[old_entries.len() as int] == e);
                    assert forall|x: int| 0 <= x < entries@.len() && i + 1 < v.len() implies char_seq_lt(
                        #[trigger] entries@[x].key@,
                        v[i + 1].0,
                    ) by {
                        if x < old_entries.len() {
                            lemma_lt_transitive(entries@[x].key@, k, v[i + 1].0);
                        }
                    }
                    assert forall|q: int| 0 <= q < j && i + 1 < v.len() implies char_seq_lt(
                        #[trigger] a[q].0,
                        v[i + 1].0,
                    ) by {
                        lemma_lt_transitive(a[q].0, k, v[i + 1].0);
                    }
                    assert(key_differs(v, a, k));
                    lemma_keep_witnesses(v, i as int, v, a, old_entries, entries@);
                    lemma_keep_witnesses(a, j as int, v, a, old_entries, entries@);
                    assert(entries@[old_entries.len() as int].key@ == v[i as int].0);
                    lemma_counts_total(entries@);
                }
                let _entries_so_far: usize = entries.len(); // bounds the counters, each at most the entry count
                i = i + 1;
                added = added + 1;
            },
            KeyOrder::Greater => {
                let ghost k = a[j as int].0;
                proof {
                    lemma_value_at(a, j as int);
                    lemma_absent_between(v, i as int, k);
                }
                let e = DiffEntry {
                    key: artifact_secrets[j].0.clone(),
                    change: ChangeType::Removed,
                    old_value: Some(artifact_secrets[j].1.clone()),
                    new_value: None,
                };
                entries.push(e);
                proof {
                    lemma_count_push(old_entries, e, ChangeType::Added);
                    lemma_count_push(old_entries, e, ChangeType::Removed);
                    lemma_count_push(old_entries, e, ChangeType::Modified);
                    assert(entries@[old_entries.len() as int] == e);
                    assert forall|x: int| 0 <= x < entries@.len() && j + 1 < a.len() implies char_seq_lt(
                        #[trigger] entries@[x].key@,
                        a[j + 1].0,
                    ) by {
                        if x < old_entries.len() {
                            lemma_lt_transitive(entries@[x].key@, k, a[j + 1].0);
                        }
                    }
                    assert forall|p: int| 0 <= p < i && j + 1 < a.len() implies char_seq_lt(
                        #[trigger] v[p].0,
                        a[j + 1].0,
                    ) by {
                        lemma_lt_transitive(v[p].0, k, a[j + 1].0);
                    }
                    assert(key_differs(v, a, k));
                    lemma_keep_witnesses(v, i as int, v, a, old_entries, entries@);
                    lemma_keep_witnesses(a, j as int, v, a, old_entries, entries@);
                    assert(entries@[old_entries.len() as int].key@ == a[j as int].0);
                    lemma_counts_total(entries@);
                }
                let _entries_so_far: usize = entries.len(); // bounds the counters, each at most the entry count
                j = j + 1;
                removed = removed + 1;
            },
            KeyOrder::Equal => {
                let ghost k = v[i as int].0;
                proof {
                    lemma_value_at(v, i as int);
                    lemma_value_at(a, j as int);
                }
                let same = match compare_str(vault_secrets[i].1.as_str(), artifact_secrets[j].1.as_str()) {
                    KeyOrder::Equal => true,
                    _ => false,
                };
                if !same {
                    let e = DiffEntry {
                        key: vault_secrets[i].0.clone(),
                        change: ChangeType::Modified,
                        old_value: Some(artifact_secrets[j].1.clone()),
                        new_value: Some(vault_secrets[i].1.clone()),
                    };
                    entries.push(e);
                    proof {
                        lemma_count_push(old_entries, e, ChangeType::Added);
                        lemma_count_push(old_entries, e, ChangeType::Removed);
                        lemma_count_push(old_entries, e, ChangeType::Modified);
                        assert(entries@[old_entries.len() as int] == e);
                        lemma_counts_total(entries@);
                    }
                    let _entries_so_far: usize = entries.len(); // bounds the counters, each at most the entry count
                    modified = modified + 1;
                }
                proof {
                    lemma_keep_witnesses(v, i as int, v, a, old_entries, entries@);
                    lemma_keep_witnesses(a, j as int, v, a, old_entries, entries@);
                    if !same {
                        assert(entries@[old_entries.len() as int].key@ == k);
                    } else {
                        assert(!key_differs(v, a, k));
                    }
                    assert(a[j as int].0 == k);
                    assert forall|x: int| 0 <= x < entries@.len() && i + 1 < v.len() implies char_seq_lt(
                        #[trigger] entries@[x].key@,
                        v[i + 1].0,
                    ) by {
                        if x < old_entries.len() {
                            lemma_lt_transitive(entries@[x].key@, k, v[i + 1].0);
                        }
                    }
                    assert forall|x: int| 0 <= x < entries@.len() && j + 1 < a.len() implies char_seq_lt(
                        #[trigger] entries@[x].key@,
                        a[j + 1].0,
                    ) by {
                        if x < old_entries.len() {
                            lemma_lt_transitive(entries@[x].key@, k, a[j + 1].0);
                        }
                    }
                    assert forall|q: int| 0 <= q < j + 1 && i + 1 < v.len() implies char_seq_lt(
                        #[trigger] a[q].0,
                        v[i + 1].0,
                    ) by {
                        if q < j {
                            lemma_lt_transitive(a[q].0, k, v[i + 1].0);
                        }
                    }
                    assert forall|p: int| 0 <= p < i + 1 && j + 1 < a.len() implies char_seq_lt(
                        #[trigger] v[p].0,
                        a[j + 1].0,
                    ) by {
                        if p < i {
                            lemma_lt_transitive(v[p].0, k, a[j + 1].0);
                        }
                    }
                }
                i = i + 1;
                j = j + 1;
            },
        }
    }
    proof {
        lemma_counts_total(entries@);
        assert forall|k: Seq<char>| key_differs(v, a, k) implies exists|e: int|
            0 <= e < entries@.len() && (#[trigger] entries@[e]).key@ == k by {
            if has_key(v, k) {
                let p = choose|p: int| 0 <= p < v.len() && (#[trigger] v[p]).0 == k;
                assert(key_differs(v, a, v[p].0));
            } else {
                let q = choose|q: int| 0 <= q < a.len() && (#[trigger] a[q]).0 == k;
                assert(key_differs(v, a, a[q].0));
            }
        }
    }
    DiffReport { env_name: env_name.to_string(), entries, added, removed, modified }
}

} // verus!
