//! Rendering of Unix timestamps: ISO 8601 dates, and relative ages for the
//! status table and the interactive session.
use vstd::prelude::*;
use crate::text::{decimal, push_str, push_zero_padded, u64_to_decimal, zero_padded};

verus! {

/// Rust's `/` on integers: division truncating toward zero (`b > 0`).
pub open spec fn tdiv(a: int, b: int) -> int {
    if a >= 0 {
        a / b
    } else {
        -((-a) / b)
    }
}

/// Rust's `%` on integers: the remainder of [`tdiv`], with the sign of `a`.
pub open spec fn trem(a: int, b: int) -> int {
    a - b * tdiv(a, b)
}

/// The civil (proleptic Gregorian) date `(year, month, day)` of a day count
/// relative to 1970-01-01, by Howard Hinnant's `civil_from_days`.
pub open spec fn civil_from_days(days: int) -> (int, int, int) {
    let z = days + 719468;
    let era = tdiv(if z >= 0 { z } else { z - 146096 }, 146097);
    let doe = z - era * 146097;
    let yoe = (doe - doe / 1460 + doe / 36524 - doe / 146096) / 365;
    let y = yoe + era * 400;
    let doy = doe - (365 * yoe + yoe / 4 - yoe / 100);
    let mp = (5 * doy + 2) / 153;
    let d = doy - (153 * mp + 2) / 5 + 1;
    let m = if mp < 10 { mp + 3 } else { mp - 9 };
    (if m <= 2 { y + 1 } else { y }, m, d)
}

/// The text `YYYY-MM-DDTHH:MM:SSZ` for `secs`, computed with Rust's
/// truncating `/` and `%` as the conversion does.
pub open spec fn iso8601_text(secs: int) -> Seq<char> {
    let sod = trem(secs, 86400);
    let (y, m, d) = civil_from_days(tdiv(secs, 86400));
    zero_padded(y, 4) + "-"@ + zero_padded(m, 2) + "-"@ + zero_padded(d, 2) + "T"@ + zero_padded(tdiv(sod, 3600), 2)
        + ":"@ + zero_padded(tdiv(trem(sod, 3600), 60), 2) + ":"@ + zero_padded(trem(sod, 60), 2) + "Z"@
}

/// The civil date of a day count (see [`civil_from_days`]).
#[verifier::rlimit(50)]
fn civil_date(days: i64) -> (r: (i64, i64, i64))
    requires
        -106751991167301 <= days <= 106751991167300,
    ensures
        (r.0 as int, r.1 as int, r.2 as int) == civil_from_days(days as int),
{
    let z = days + 719468;
    let shifted = if z >= 0 { z } else { z - 146096 };
    let era = shifted / 146097;
    proof {
        assert(era == tdiv(shifted as int, 146097));
    }
    let doe = z - era * 146097;
    let yoe = (doe - doe / 1460 + doe / 36524 - doe / 146096) / 365;
    let y = yoe + era * 400;
    let doy = doe - (365 * yoe + yoe / 4 - yoe / 100);
    let mp = (5 * doy + 2) / 153;
    let d = doy - (153 * mp + 2) / 5 + 1;
    let m = if mp < 10 { mp + 3 } else { mp - 9 };
    let y = if m <= 2 { y + 1 } else { y };
    (y, m, d)
}

/// Converts a Unix epoch (UTC seconds) to `YYYY-MM-DDTHH:MM:SSZ`.
pub fn epoch_to_iso8601(secs: i64) -> (s: String)
    ensures
        s@ == iso8601_text(secs as int),
{
    let sec_of_day = secs % 86400;
    let h = sec_of_day / 3600;
    let mi = (sec_of_day % 3600) / 60;
    let sec = sec_of_day % 60;
    proof {
        assert(sec_of_day == trem(secs as int, 86400));
        assert(h == tdiv(sec_of_day as int, 3600));
        assert(mi == tdiv(trem(sec_of_day as int, 3600), 60));
        assert(sec == trem(sec_of_day as int, 60));
    }
    let days = secs / 86400;
    proof {
        assert(days == tdiv(secs as int, 86400));
    }
    let (y, m, d) = civil_date(days);
    let mut s = String::new();
    push_zero_padded(&mut s, y, 4);
    push_str(&mut s, "-");
    push_zero_padded(&mut s, m, 2);
    push_str(&mut s, "-");
    push_zero_padded(&mut s, d, 2);
    push_str(&mut s, "T");
    push_zero_padded(&mut s, h, 2);
    push_str(&mut s, ":");
    push_zero_padded(&mut s, mi, 2);
    push_str(&mut s, ":");
    push_zero_padded(&mut s, sec, 2);
    push_str(&mut s, "Z");
    s
}

/// The current Unix time in seconds.
///
/// Trusted: reads `SystemTime::now()`; a clock before 1970 counts as 0.
/// Nothing is promised of the value.
#[verifier::external_body]
pub(crate) fn unix_now() -> (t: i64) {
    std::time::SystemTime::now().duration_since(std::time::UNIX_EPOCH).unwrap_or_default().as_secs() as i64
}

/// `"<n> <unit> ago"`.
pub open spec fn ago_text(n: int, unit: Seq<char>) -> Seq<char> {
    decimal(n as nat) + " "@ + unit + " ago"@
}

/// What [`humanize_timestamp`] shows for `epoch` at time `now`.
pub open spec fn humanized(epoch: int, now: int) -> Seq<char> {
    let delta = now - epoch;
    if delta <= 0 {
        "unknown"@
    } else if delta < 60 {
        ago_text(delta, "seconds"@)
    } else if delta < 3600 {
        ago_text(delta / 60, "minutes"@)
    } else if delta < 86400 {
        ago_text(delta / 3600, "hours"@)
    } else if delta < 30 * 86400 {
        ago_text(delta / 86400, "days"@)
    } else {
        iso8601_text(epoch).take(10)
    }
}

fn push_ago(out: &mut String, n: i64, unit: &str)
    requires
        n >= 0,
    ensures
        final(out)@ == old(out)@ + ago_text(n as int, unit@),
{
    let d = u64_to_decimal(n as u64);
    push_str(out, d.as_str());
    push_str(out, " ");
    push_str(out, unit);
    push_str(out, " ago");
    proof {
        assert(final(out)@ =~= old(out)@ + ago_text(n as int, unit@)) by {
            assert(final(out)@ =~= old(out)@ + d@ + " "@ + unit@ + " ago"@);
        }
    }
}

/// The relative age of `epoch` at time `now`: seconds, minutes, hours or
/// days ago below 30 days, the ISO date (`YYYY-MM-DD`) beyond, "unknown"
/// for a time not in the past.
pub fn humanize_at(epoch: i64, now: i64) -> (s: String)
    requires
        i64::MIN <= now - epoch <= i64::MAX,
    ensures
        s@ == humanized(epoch as int, now as int),
{
    let delta = now - epoch;
    let mut s = String::new();
    if delta <= 0 {
        return "unknown".to_string();
    }
    if delta < 60 {
        push_ago(&mut s, delta, "seconds");
    } else if delta < 3600 {
        push_ago(&mut s, delta / 60, "minutes");
    } else if delta < 86400 {
        push_ago(&mut s, delta / 3600, "hours");
    } else if delta < 30 * 86400 {
        push_ago(&mut s, delta / 86400, "days");
    } else {
        let iso = epoch_to_iso8601(epoch);
        let cs = crate::text::chars_of(iso.as_str());
        proof {
            lemma_iso_len(epoch as int);
        }
        let date = crate::text::string_of(&cs, 0, 10);
        proof {
            assert(date@ =~= iso8601_text(epoch as int).take(10));
        }
        return date;
    }
    proof {
        assert(s@ =~= Seq::<char>::empty() + s@);
    }
    s
}

proof fn lemma_zero_padded_len(n: int, w: int)
    ensures
        zero_padded(n, w).len() >= w,
{
    let digits = decimal(if n < 0 { (-n) as nat } else { n as nat });
    lemma_zeros_len(w - 1 - digits.len());
    lemma_zeros_len(w - digits.len());
}

proof fn lemma_zeros_len(n: int)
    ensures
        crate::text::zeros(n).len() == if n <= 0 { 0 } else { n },
    decreases n,
{
    if n > 0 {
        lemma_zeros_len(n - 1);
    }
}

proof fn lemma_iso_len(secs: int)
    ensures
        iso8601_text(secs).len() >= 10,
{
    let sod = trem(secs, 86400);
    let (y, m, d) = civil_from_days(tdiv(secs, 86400));
    lemma_zero_padded_len(y, 4);
    lemma_zero_padded_len(m, 2);
    lemma_zero_padded_len(d, 2);
}

/// Relative age of `epoch` as shown in the status table, measured against
/// the system clock.
///
/// Where `now - epoch` does not fit in an `i64` (an epoch near `i64::MIN`)
/// the age cannot be computed and the result is "unknown".
pub fn humanize_timestamp(epoch: i64) -> (s: String)
    ensures
        s@ == "unknown"@ || exists|now: i64| s@ == #[trigger] humanized(epoch as int, now as int),
{
    let now = unix_now();
    if epoch < 0 && now > i64::MAX + epoch {
        return "unknown".to_string();
    }
    if epoch > 0 && now < i64::MIN + epoch {
        return "unknown".to_string();
    }
    humanize_at(epoch, now)
}

/// `"<n><unit> ago"` as the session writes it (no space).
pub open spec fn short_ago(n: int, unit: Seq<char>) -> Seq<char> {
    decimal(n as nat) + unit + " ago"@
}

/// `now - epoch` saturated to the `i64` range.
pub open spec fn saturating_diff(now: int, epoch: int) -> int {
    let d = now - epoch;
    if d > i64::MAX {
        i64::MAX as int
    } else if d < i64::MIN {
        i64::MIN as int
    } else {
        d
    }
}

/// What [`format_timestamp`] shows for `epoch` at time `now`.
pub open spec fn session_age(epoch: int, now: int) -> Seq<char> {
    let diff = saturating_diff(now, epoch);
    if epoch == 0 {
        "never"@
    } else if diff < 0 {
        "future"@
    } else if diff < 60 {
        "just now"@
    } else if diff < 3600 {
        short_ago(diff / 60, "m"@)
    } else if diff < 86400 {
        short_ago(diff / 3600, "h"@)
    } else if diff < 86400 * 30 {
        short_ago(diff / 86400, "d"@)
    } else if diff < 86400 * 365 {
        short_ago(diff / 2592000int, "mo"@)
    } else {
        short_ago(diff / 31536000int, "y"@)
    }
}

fn push_short_ago(out: &mut String, n: i64, unit: &str)
    requires
        n >= 0,
    ensures
        final(out)@ == old(out)@ + short_ago(n as int, unit@),
{
    let d = u64_to_decimal(n as u64);
    push_str(out, d.as_str());
    push_str(out, unit);
    push_str(out, " ago");
    proof {
        assert(final(out)@ =~= old(out)@ + short_ago(n as int, unit@));
    }
}

/// The age of `epoch` at time `now` as the session shows it: "never" for
/// 0, "future", "just now", then minutes, hours, days, months (30 days) or
/// years (365 days) ago.
pub fn format_timestamp_at(epoch: i64, now: i64) -> (s: String)
    ensures
        s@ == session_age(epoch as int, now as int),
{
    if epoch == 0 {
        return "never".to_string();
    }
    let wide: i128 = now as i128 - epoch as i128;
    let diff: i64 = if wide > i64::MAX as i128 {
        i64::MAX
    } else if wide < i64::MIN as i128 {
        i64::MIN
    } else {
        wide as i64
    };
    if diff < 0 {
        return "future".to_string();
    }
    if diff < 60 {
        return "just now".to_string();
    }
    let mut s = String::new();
    if diff < 3600 {
        push_short_ago(&mut s, diff / 60, "m");
    } else if diff < 86400 {
        push_short_ago(&mut s, diff / 3600, "h");
    } else if diff < 86400 * 30 {
        push_short_ago(&mut s, diff / 86400, "d");
    } else if diff < 86400 * 365 {
        push_short_ago(&mut s, diff / (86400 * 30), "mo");
    } else {
        push_short_ago(&mut s, diff / (86400 * 365), "y");
    }
    proof {
        assert(s@ =~= Seq::<char>::empty() + s@);
    }
    s
}

/// The age of `epoch` as the session shows it, against the system clock.
pub fn format_timestamp(epoch: i64) -> (s: String)
    ensures
        exists|now: i64| #![auto] s@ == session_age(epoch as int, now as int),
{
    let now = unix_now();
    format_timestamp_at(epoch, now)
}

} // verus!
