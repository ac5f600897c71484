//! Sync-state derivation for `envy status`: the store returns timestamps,
//! this module derives the state of each environment from them.
use vstd::prelude::*;
use crate::db::{EnvironmentStatus, SecretRecord};

verus! {

/// The sync state of a single environment.
#[derive(Debug, Clone, Copy, PartialEq, Eq, Structural)]
pub enum SyncStatus {
    /// No secret was modified after the last successful seal.
    InSync,
    /// At least one secret was modified after the last seal.
    Modified,
    /// The environment has never been sealed.
    NeverSealed,
}

/// Per-environment row of the status report.
#[derive(Debug, Clone)]
pub struct StatusRow {
    /// Lowercase environment label.
    pub name: String,
    /// Number of secrets currently stored for this environment.
    pub secret_count: i64,
    /// Unix epoch (UTC, seconds) of the most-recently modified secret.
    pub last_modified_at: Option<i64>,
    /// Unix epoch (UTC, seconds) of the last successful seal.
    pub sealed_at: Option<i64>,
    /// The derived sync state for this environment.
    pub sync_status: SyncStatus,
    /// Names of secrets not updated within the rotation reminder threshold.
    pub stale_secrets: Vec<String>,
}

/// The sync state for the given timestamps.
pub open spec fn sync_status_of(last_modified_at: Option<i64>, sealed_at: Option<i64>) -> SyncStatus {
    match sealed_at {
        None => SyncStatus::NeverSealed,
        Some(sealed) => match last_modified_at {
            Some(modified) => if modified > sealed {
                SyncStatus::Modified
            } else {
                SyncStatus::InSync
            },
            None => SyncStatus::InSync,
        },
    }
}

/// Derives the sync state of one environment: `NeverSealed` without a seal
/// marker, `Modified` when a secret changed after the seal, else `InSync`
/// (an empty environment with a marker is in sync).
pub fn derive_sync_status(last_modified_at: Option<i64>, sealed_at: Option<i64>) -> (s: SyncStatus)
    ensures
        s == sync_status_of(last_modified_at, sealed_at),
{
    match sealed_at {
        None => SyncStatus::NeverSealed,
        Some(sealed) => match last_modified_at {
            Some(modified) => if modified > sealed {
                SyncStatus::Modified
            } else {
                SyncStatus::InSync
            },
            None => SyncStatus::InSync,
        },
    }
}

/// Seconds in a day.
pub const SECONDS_PER_DAY: i64 = 86400i64;

/// `now - updated_at` saturated to the `i64` range.
pub open spec fn saturating_age(now: i64, updated_at: i64) -> int {
    let d = now - updated_at;
    if d > i64::MAX {
        i64::MAX as int
    } else if d < i64::MIN {
        i64::MIN as int
    } else {
        d
    }
}

/// Whether a secret updated at `updated_at` is older than `threshold_days`
/// days at time `now`.
pub open spec fn is_stale(now: i64, updated_at: i64, threshold_days: u32) -> bool {
    saturating_age(now, updated_at) > threshold_days * 86400
}

/// The keys of the records that are stale at `now`, in order.
pub open spec fn stale_keys_spec(records: Seq<SecretRecord>, threshold_days: u32, now: i64) -> Seq<Seq<char>>
    decreases records.len(),
{
    if threshold_days == 0 || records.len() == 0 {
        seq![]
    } else {
        let prev = stale_keys_spec(records.drop_last(), threshold_days, now);
        if is_stale(now, records.last().updated_at, threshold_days) {
            prev.push(records.last().key@)
        } else {
            prev
        }
    }
}

/// The key names of the secrets whose `updated_at` is more than
/// `threshold_days` days before `now`, in record order. A threshold of 0
/// disables the reminder (no key is stale).
pub fn stale_secret_keys(records: &Vec<SecretRecord>, threshold_days: u32, now: i64) -> (r: Vec<String>)
    ensures
        r@.map_values(|k: String| k@) == stale_keys_spec(records@, threshold_days, now),
{
    let mut out: Vec<String> = Vec::new();
    if threshold_days == 0 {
        proof {
            assert(out@.map_values(|k: String| k@) =~= Seq::<Seq<char>>::empty());
        }
        return out;
    }
    let threshold_secs: i64 = threshold_days as i64 * SECONDS_PER_DAY;
    let mut i: usize = 0;
    while i < records.len()
        invariant
            threshold_days > 0,
            threshold_secs == threshold_days * 86400,
            0 <= i <= records@.len(),
            out@.map_values(|k: String| k@) == stale_keys_spec(records@.take(i as int), threshold_days, now),
        decreases records@.len() - i,
    {
        let r = &records[i];
        let age: i128 = now as i128 - r.updated_at as i128;
        proof {
            assert(records@.take(i + 1).drop_last() =~= records@.take(i as int));
            assert(records@.take(i + 1).last() == records@[i as int]);
        }
        if age > threshold_secs as i128 {
            out.push(r.key.clone());
            proof {
                assert(out@.map_values(|k: String| k@) =~= stale_keys_spec(records@.take(i as int), threshold_days, now).push(r.key@));
            }
        }
        i = i + 1;
    }
    proof {
        assert(records@.take(records@.len() as int) =~= records@);
    }
    out
}

/// Builds the status row of one environment from its store aggregate and
/// its stale keys.
pub fn status_row(es: &EnvironmentStatus, stale_secrets: Vec<String>) -> (r: StatusRow)
    ensures
        r.name@ == es.name@,
        r.secret_count == es.secret_count,
        r.last_modified_at == es.last_modified_at,
        r.sealed_at == es.sealed_at,
        r.sync_status == sync_status_of(es.last_modified_at, es.sealed_at),
        r.stale_secrets@ == stale_secrets@,
{
    StatusRow {
        name: es.name.clone(),
        secret_count: es.secret_count,
        last_modified_at: es.last_modified_at,
        sealed_at: es.sealed_at,
        sync_status: derive_sync_status(es.last_modified_at, es.sealed_at),
        stale_secrets,
    }
}

/// The rotation reminder is per secret: with a threshold of `threshold_days`
/// days (0 turns it off), the stale keys are exactly the keys of the records,
/// in order, whose age `now - updated_at` exceeds `threshold_days * 86400`
/// seconds, each judged on its own record alone.
pub proof fn lemma_stale_keys_per_record(records: Seq<SecretRecord>, threshold_days: u32, now: i64)
    ensures
        threshold_days == 0 ==> stale_keys_spec(records, threshold_days, now).len() == 0,
        threshold_days > 0 ==> stale_keys_spec(records, threshold_days, now) == records.filter(
            |r: SecretRecord| now - r.updated_at > threshold_days * 86400,
        ).map_values(|r: SecretRecord| r.key@),
    decreases records.len(),
{
    let old_enough = |r: SecretRecord| now - r.updated_at > threshold_days * 86400;
    let key = |r: SecretRecord| r.key@;
    if threshold_days > 0 {
        if records.len() == 0 {
            assert(records.filter(old_enough) =~= records) by {
                reveal(Seq::filter);
            }
            assert(records.filter(old_enough).map_values(key) =~= Seq::<Seq<char>>::empty());
        } else {
            lemma_stale_keys_per_record(records.drop_last(), threshold_days, now);
            assert(records.filter(old_enough) == if old_enough(records.last()) {
                records.drop_last().filter(old_enough).push(records.last())
            } else {
                records.drop_last().filter(old_enough)
            }) by {
                reveal(Seq::filter);
            }
            assert(is_stale(now, records.last().updated_at, threshold_days) == old_enough(records.last()));
            if old_enough(records.last()) {
                assert(records.filter(old_enough).map_values(key) =~= records.drop_last().filter(old_enough).map_values(
                    key,
                ).push(key(records.last())));
            }
        }
    }
}

} // verus!
