use vstd::prelude::*;
use vstd::arithmetic::div_mod::{lemma_div_multiples_vanish_fancy, lemma_fundamental_div_mod, lemma_mod_multiples_vanish};
use crate::error::ApiError;
use crate::models::ActivityTime;
use chrono::{Datelike, Offset, TimeZone};

verus! {

pub const SECONDS_PER_DAY: i64 = 86400;

/// Days are counted from 1970-01-01 after shifting by this many, so that
/// every instant that an `ActivityTime` can hold gives a non-negative
/// count. It is a multiple of seven, so weekdays are kept.
const DAY_SHIFT: i128 = 700_000_000_000_000;

/// The UTC offset, in seconds, of the Pacific reference timezone at local
/// wall-clock time `local_seconds` (seconds since 1970-01-01 00:00 local),
/// when that local time names exactly one instant; `None` when it names
/// none or two (a daylight-saving transition) or lies outside the
/// calendar's range.
pub uninterp spec fn pacific_offset_at_local(local_seconds: int) -> Option<int>;

/// Relies on `chrono::DateTime::from_timestamp` (the wall-clock reading of
/// `local_seconds`), `chrono_tz::America::Los_Angeles` through
/// `TimeZone::from_local_datetime(..).single()`, and
/// `FixedOffset::local_minus_utc`, which chrono keeps within one day.
#[verifier::external_body]
fn pacific_offset(local_seconds: i64) -> (r: Option<i32>)
    ensures
        r is Some <==> pacific_offset_at_local(local_seconds as int) is Some,
        r matches Some(o) ==> pacific_offset_at_local(local_seconds as int) == Some(o as int),
        r matches Some(o) ==> -86400 < o < 86400,
{
    let naive = chrono::DateTime::from_timestamp(local_seconds, 0)?.naive_utc();
    match chrono_tz::America::Los_Angeles.from_local_datetime(&naive).single() {
        Some(dt) => Some(dt.offset().fix().local_minus_utc()),
        None => None,
    }
}

/// The local calendar day (days since 1970-01-01) of instant `t`.
pub open spec fn local_day(t: ActivityTime) -> int {
    (t.utc_seconds + t.offset_seconds) / (SECONDS_PER_DAY as int)
}

/// The Monday on or before day `day` (1970-01-01 was a Thursday).
pub open spec fn monday_of(day: int) -> int {
    day - (day + 3) % 7
}

/// The instant at which the week starting on local day `day` begins:
/// midnight of that day in the Pacific reference timezone, with its offset.
/// `None` when that midnight is not a single well-defined instant.
pub open spec fn week_start_time(day: int) -> Option<ActivityTime> {
    let local = day * SECONDS_PER_DAY;
    let off = pacific_offset_at_local(local);
    if i64::MIN <= local <= i64::MAX && off is Some && i64::MIN <= local - off->0 <= i64::MAX
        && i32::MIN <= off->0 <= i32::MAX {
        Some(ActivityTime { utc_seconds: (local - off->0) as i64, offset_seconds: off->0 as i32 })
    } else {
        None
    }
}

/// The Monday (local day number) that starts the week of instant `t`.
pub fn week_day_of(t: ActivityTime) -> (r: i64)
    ensures
        r as int == monday_of(local_day(t)),
{
    let local: i128 = t.utc_seconds as i128 + t.offset_seconds as i128;
    let shifted: i128 = local + DAY_SHIFT * 86400;
    let u: i128 = shifted / 86400;
    let w: i128 = (u + 3) % 7;
    proof {
        let q: int = local as int / 86400;
        let rem: int = local as int % 86400;
        lemma_fundamental_div_mod(local as int, 86400);
        assert(shifted == 86400 * (q + DAY_SHIFT) + rem);
        lemma_div_multiples_vanish_fancy(q + DAY_SHIFT, rem, 86400);
        assert(u == q + DAY_SHIFT);
        lemma_mod_multiples_vanish(100_000_000_000_000int, q + 3, 7);
        assert(u + 3 == 7 * 100_000_000_000_000 + (q + 3));
    }
    (u - DAY_SHIFT - w) as i64
}

/// The start of the week beginning on local day `day`, or `None` when
/// that instant is ill-defined.
pub fn week_start_for(day: i64) -> (r: Option<ActivityTime>)
    ensures
        r == week_start_time(day as int),
{
    let local: i128 = day as i128 * 86400;
    if local < i64::MIN as i128 || local > i64::MAX as i128 {
        return None;
    }
    match pacific_offset(local as i64) {
        Some(off) => {
            let utc: i128 = local - off as i128;
            if utc < i64::MIN as i128 || utc > i64::MAX as i128 {
                None
            } else {
                Some(ActivityTime { utc_seconds: utc as i64, offset_seconds: off })
            }
        },
        None => None,
    }
}

/// The UTC offset, in seconds, of the Pacific reference timezone at instant
/// `utc_seconds`; `None` outside the calendar's range.
pub uninterp spec fn pacific_offset_at_utc(utc_seconds: int) -> Option<int>;

/// Relies on `chrono::DateTime::from_timestamp`, on
/// `TimeZone::offset_from_utc_datetime` of `chrono_tz::America::Los_Angeles`
/// and on `FixedOffset::local_minus_utc`, which chrono keeps within one day.
#[verifier::external_body]
fn pacific_offset_utc(utc_seconds: i64) -> (r: Option<i32>)
    ensures
        r is Some <==> pacific_offset_at_utc(utc_seconds as int) is Some,
        r matches Some(o) ==> pacific_offset_at_utc(utc_seconds as int) == Some(o as int),
        r matches Some(o) ==> -86400 < o < 86400,
{
    let utc = chrono::DateTime::from_timestamp(utc_seconds, 0)?.naive_utc();
    Some(chrono_tz::America::Los_Angeles.offset_from_utc_datetime(&utc).fix().local_minus_utc())
}

/// Midnight of the first day of the month that contains wall-clock time
/// `local_seconds`, as wall-clock seconds; `None` outside the calendar's
/// range.
pub uninterp spec fn month_start_at(local_seconds: int) -> Option<int>;

/// Relies on `chrono::DateTime::from_timestamp`, `Datelike::with_day` and
/// `NaiveDate::and_hms_opt`: the first of the month at 00:00.
#[verifier::external_body]
fn month_start(local_seconds: i64) -> (r: Option<i64>)
    ensures
        r is Some <==> month_start_at(local_seconds as int) is Some,
        r matches Some(m) ==> month_start_at(local_seconds as int) == Some(m as int),
{
    let first = chrono::DateTime::from_timestamp(local_seconds, 0)?.date_naive().with_day(1)?;
    Some(first.and_hms_opt(0, 0, 0)?.and_utc().timestamp())
}

/// Wall-clock time `local_seconds` moved on by one calendar month; `None`
/// outside the calendar's range.
pub uninterp spec fn one_month_after(local_seconds: int) -> Option<int>;

/// Relies on `chrono::DateTime::from_timestamp` and
/// `NaiveDateTime::checked_add_months` with `Months::new(1)`.
#[verifier::external_body]
fn add_one_month(local_seconds: i64) -> (r: Option<i64>)
    ensures
        r is Some <==> one_month_after(local_seconds as int) is Some,
        r matches Some(m) ==> one_month_after(local_seconds as int) == Some(m as int),
{
    let naive = chrono::DateTime::from_timestamp(local_seconds, 0)?.naive_utc();
    Some(naive.checked_add_months(chrono::Months::new(1))?.and_utc().timestamp())
}

/// The instant at which the Pacific wall clock reads `local` seconds, when
/// it reads that exactly once.
pub open spec fn local_instant(local: int) -> Option<int> {
    let off = pacific_offset_at_local(local);
    if i64::MIN <= local <= i64::MAX && off is Some && i64::MIN <= local - off->0 <= i64::MAX {
        Some(local - off->0)
    } else {
        None
    }
}

/// The Pacific wall-clock reading of instant `utc`.
pub open spec fn local_reading(utc: int) -> Option<int> {
    match pacific_offset_at_utc(utc) {
        Some(off) => if i64::MIN <= utc + off <= i64::MAX {
            Some(utc + off)
        } else {
            None
        },
        None => None,
    }
}

/// The week that contains instant `now`: from Monday 00:00:00 to Sunday
/// 23:59:59 on the Pacific wall clock, as instants.
pub open spec fn week_window(now: int) -> Option<(int, int)> {
    match local_reading(now) {
        None => None,
        Some(local) => {
            let monday = monday_of(local / (SECONDS_PER_DAY as int));
            match (local_instant(monday * SECONDS_PER_DAY), local_instant((monday + 7) * SECONDS_PER_DAY - 1)) {
                (Some(s), Some(e)) => Some((s, e)),
                _ => None,
            }
        },
    }
}

/// The month that contains instant `now`: from the first at 00:00:00 on
/// the Pacific wall clock to one second before the first of the next month.
pub open spec fn month_window(now: int) -> Option<(int, int)> {
    match local_reading(now) {
        None => None,
        Some(local) => match month_start_at(local) {
            None => None,
            Some(first) => match one_month_after(first) {
                None => None,
                Some(next) => match (local_instant(first), local_instant(next)) {
                    (Some(s), Some(e)) => if i64::MIN < e {
                        Some((s, e - 1))
                    } else {
                        None
                    },
                    _ => None,
                },
            },
        },
    }
}

/// The instant of Pacific wall-clock time `local`, if there is exactly one.
pub fn utc_of_local(local: i128) -> (r: Option<i64>)
    ensures
        r is Some <==> local_instant(local as int) is Some,
        r matches Some(u) ==> local_instant(local as int) == Some(u as int),
{
    if local < i64::MIN as i128 || local > i64::MAX as i128 {
        return None;
    }
    match pacific_offset(local as i64) {
        Some(off) => {
            let utc: i128 = local - off as i128;
            if utc < i64::MIN as i128 || utc > i64::MAX as i128 {
                None
            } else {
                Some(utc as i64)
            }
        },
        None => None,
    }
}

fn local_reading_of(now: i64) -> (r: Option<i64>)
    ensures
        r is Some <==> local_reading(now as int) is Some,
        r matches Some(l) ==> local_reading(now as int) == Some(l as int),
{
    match pacific_offset_utc(now) {
        Some(off) => {
            let local: i128 = now as i128 + off as i128;
            if local < i64::MIN as i128 || local > i64::MAX as i128 {
                None
            } else {
                Some(local as i64)
            }
        },
        None => None,
    }
}

/// The current week's window for instant `now` (seconds since the Unix
/// epoch), as instants.
pub fn this_week_window(now: i64) -> (r: Result<(i64, i64), ApiError>)
    ensures
        r is Ok <==> week_window(now as int) is Some,
        r matches Ok(w) ==> week_window(now as int) == Some((w.0 as int, w.1 as int)),
        r matches Err(e) ==> e is InternalConversionError,
{
    let local = match local_reading_of(now) {
        Some(l) => l,
        None => return Err(ApiError::InternalConversionError("Invalid current time".to_string())),
    };
    let monday = week_day_of(ActivityTime { utc_seconds: local, offset_seconds: 0 });
    let start = utc_of_local(monday as i128 * 86400);
    let end = utc_of_local((monday as i128 + 7) * 86400 - 1);
    match (start, end) {
        (Some(s), Some(e)) => Ok((s, e)),
        _ => Err(ApiError::InternalConversionError("Invalid start or end of week time".to_string())),
    }
}

/// The current month's window for instant `now` (seconds since the Unix
/// epoch), as instants.
pub fn this_month_window(now: i64) -> (r: Result<(i64, i64), ApiError>)
    ensures
        r is Ok <==> month_window(now as int) is Some,
        r matches Ok(w) ==> month_window(now as int) == Some((w.0 as int, w.1 as int)),
        r matches Err(e) ==> e is InternalConversionError,
{
    let local = match local_reading_of(now) {
        Some(l) => l,
        None => return Err(ApiError::InternalConversionError("Invalid current time".to_string())),
    };
    let first = match month_start(local) {
        Some(f) => f,
        None => return Err(ApiError::InternalConversionError("Invalid start of month date".to_string())),
    };
    let next = match add_one_month(first) {
        Some(n) => n,
        None => return Err(ApiError::InternalConversionError("Invalid next month date".to_string())),
    };
    match (utc_of_local(first as i128), utc_of_local(next as i128)) {
        (Some(s), Some(e)) => if e > i64::MIN {
            Ok((s, e - 1))
        } else {
            Err(ApiError::InternalConversionError("Invalid end of month time".to_string()))
        },
        _ => Err(ApiError::InternalConversionError("Invalid start or end of month time".to_string())),
    }
}

/// Instant `utc_seconds` read in the Pacific reference timezone, or `None`
/// outside the calendar's range.
pub fn pacific_time(utc_seconds: i64) -> (r: Option<ActivityTime>)
    ensures
        r is Some <==> pacific_offset_at_utc(utc_seconds as int) is Some,
        r matches Some(t) ==> t.utc_seconds == utc_seconds && pacific_offset_at_utc(utc_seconds as int) == Some(
            t.offset_seconds as int,
        ),
{
    match pacific_offset_utc(utc_seconds) {
        Some(off) => Some(ActivityTime { utc_seconds, offset_seconds: off }),
        None => None,
    }
}

} // verus!
