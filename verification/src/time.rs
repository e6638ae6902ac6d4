use std::fmt::Write;

use chrono::{
    DateTime, Datelike, LocalResult, NaiveDate, NaiveDateTime, Offset, TimeZone, Timelike, Utc,
};
use chrono_tz::Tz;
use rust_decimal::Decimal;
use std::cmp::Ordering;
use std::ops::{Add, Sub};
use vstd::arithmetic::div_mod::{lemma_fundamental_div_mod, lemma_fundamental_div_mod_converse};
use vstd::prelude::*;
use vstd::std_specs::cmp::{PartialEqSpecImpl, PartialOrdSpecImpl};
use vstd::std_specs::ops::{AddSpecImpl, SubSpecImpl};
use vstd::string::StrSliceExecFns;

use crate::duration::{
    dec_add, dec_mul, dec_ok, dec_sub, dec_trunc, dec_truncate, decimal_difference, decimal_of,
    decimal_from_parts, decimal_parts, decimal_parts_of, decimal_product, decimal_sum, duration_of, lemma_duration_is_of_view, normal_form,
    Duration,
};
use crate::error::{Error, Result};
use crate::span::endpoint::{EndpointConversion, EndpointSide};
use crate::op::{dop_holds, dop_ok, lemma_dop_holds_unique, DateOp, TOp, TimeOp, TimeStep};
use crate::parse::{find_word, push_text, word_from};
use crate::date::{
    date_parse, tz_from_name, tz_name, zone_name, zone_named,
    add_months_ok, add_months_spec, add_years_ok, with_day_spec, with_month_spec, with_year_spec,
    MAX_YEAR, MIN_YEAR, lemma_day_number_injective, day_index, day_number, first_date, last_date, month_name_of, utc, valid_date, valid_ymd, ymd,
    Date, Day,
};

verus! {

/// `chrono::NaiveDateTime`, a date and time without a time zone.
#[verifier::external_type_specification]
#[verifier::external_body]
pub struct ExNaiveDateTime(NaiveDateTime);

/// The format of a local date and time: `2018-01-30T06:04:57`, with a
/// fraction of a second where there is one.
pub const LOCAL_FMT: &'static str = "%Y-%m-%dT%H:%M:%S%.f";

/// Nanoseconds in a second.
pub const NANOS_PER_SEC: u32 = 1000000000u32;

/// Seconds in a day.
pub const SECS_PER_DAY: i64 = 86400i64;

/// The number of the first of January 1970, where Unix time starts, in the
/// count of days that begins at the first of January of year 1.
pub const UNIX_EPOCH_DAY: i64 = 719162i64;

/// The first instant a time can take: midnight UTC at the start of the second
/// date there is, so that its local date in any zone is a date there is.
pub const MIN_INSTANT: i64 = -8334601142400i64;

/// Just past the last instant a time can take: midnight UTC at the start of
/// the last date there is.
pub const MAX_INSTANT: i64 = 8210266790400i64;

/// The first day, counted from the first of January of year 1 as day 1,
/// whose wall-clock times all stand for instants a time can take.
pub const MIN_DAY_FROM_CE: i32 = -95746127i32;

/// The last day, counted from the first of January of year 1 as day 1, whose
/// wall-clock times all stand for instants a time can take.
pub const MAX_DAY_FROM_CE: i32 = 95745397i32;

/// An instant, in seconds since the start of Unix time, that a time can take.
pub open spec fn instant_ok(s: int) -> bool {
    MIN_INSTANT <= s < MAX_INSTANT
}

/// The local seconds since the start of Unix time of the wall-clock time
/// `h:mi:sec` on the date `t`.
pub open spec fn local_instant(t: (i32, u32, u32), tod: int) -> int {
    (day_number(t) - UNIX_EPOCH_DAY) * SECS_PER_DAY + tod
}

/// The seconds after midnight of the time of day `h:mi:sec`.
pub open spec fn tod_of(h: int, mi: int, sec: int) -> int {
    h * 3600 + mi * 60 + sec
}

/// The offset from UTC, in seconds, that chrono-tz gives the zone `tz` at the
/// UTC instant `s` (seconds since the start of Unix time).
pub uninterp spec fn zone_offset(s: int, tz: Tz) -> int;

/// What chrono-tz makes of the local time `l` (local seconds since the start
/// of Unix time) in the zone `tz`: `None` where the local time falls in a gap,
/// else the earlier and the later instant it stands for, each with its offset
/// (the same instant twice where it stands for one).
pub uninterp spec fn local_fit(l: int, tz: Tz) -> Option<(i64, i32, i64, i32)>;


/// A date far enough from the ends of the calendar that every wall-clock time
/// on it stands for instants a time can take.
pub open spec fn date_holds_times(t: (i32, u32, u32)) -> bool {
    day_holds_times(day_number(t))
}

/// A day number far enough from the ends of the calendar that every
/// wall-clock time on its day stands for instants a time can take.
pub open spec fn day_holds_times(k: int) -> bool {
    day_number(first_date()) + 2 <= k <= day_number(last_date()) - 2
}

/// The date with the number `k`.
pub open spec fn date_of_day(k: int) -> (i32, u32, u32) {
    choose|t: (i32, u32, u32)| valid_date(t) && day_number(t) == k
}

/// The instant the local time `l` stands for in `tz`, where it stands for
/// exactly one.
pub open spec fn unique_instant(l: int, tz: Tz) -> Option<i64> {
    match local_fit(l, tz) {
        Some(q) => if q.0 == q.2 {
            Some(q.0)
        } else {
            None
        },
        None => None,
    }
}

/// The value `v` brought down to at most `hi`.
pub open spec fn at_most(v: int, hi: int) -> int {
    if v > hi {
        hi
    } else {
        v
    }
}

/// The instant `dn` nanoseconds after the instant `t`, as seconds and
/// nanoseconds.
pub open spec fn shift_instant(t: (i64, u32), dn: int) -> (int, int) {
    let total = t.0 * NANOS_PER_SEC + t.1 + dn;
    (total / (NANOS_PER_SEC as int), total % (NANOS_PER_SEC as int))
}

/// The time of day `tod` moved forward by `k` whole hours, wrapping at
/// midnight.
pub open spec fn shifted_tod(tod: int, k: int) -> int {
    (tod + 3600 * k) % (SECS_PER_DAY as int)
}

/// The first of the hourly shifts `k`, `k + 1`, ... `23` of the time of day
/// `tod` at which that wall-clock time exists on date `t` in `tz`; 24 where
/// none does.
pub open spec fn first_fit(t: (i32, u32, u32), tod: int, tz: Tz, k: int) -> int
    decreases 24 - k,
{
    if k >= 24 {
        24
    } else if local_fit(local_instant(t, shifted_tod(tod, k)), tz) is Some {
        k
    } else {
        first_fit(t, tod, tz, k + 1)
    }
}

/// Of the instants a local time stands for, the earlier where its offset is
/// `off`, else the later.
pub open spec fn keep_offset(q: (i64, i32, i64, i32), off: int) -> i64 {
    if q.1 == off {
        q.0
    } else {
        q.2
    }
}

/// The instant of the time of day `tod` on date `t` in `tz`, moved forward by
/// whole hours past a gap, and keeping the offset `off` where the local time
/// comes twice; `None` where every hour of the day falls in a gap.
pub open spec fn moved_instant(t: (i32, u32, u32), tod: int, tz: Tz, off: int) -> Option<i64> {
    let k = first_fit(t, tod, tz, 0);
    if k < 24 {
        Some(keep_offset(local_fit(local_instant(t, shifted_tod(tod, k)), tz).unwrap(), off))
    } else {
        None
    }
}

/// The first instant of the date `t` in `tz`: local midnight, moved forward
/// by whole hours past a gap, the earlier instant where it comes twice;
/// `None` where every hour of the day falls in a gap.
pub open spec fn day_start(t: (i32, u32, u32), tz: Tz) -> Option<i64> {
    let k = first_fit(t, 0, tz, 0);
    if k < 24 {
        Some(local_fit(local_instant(t, shifted_tod(0, k)), tz).unwrap().0)
    } else {
        None
    }
}

/// An instant as a decimal number of seconds, at scale 9.
pub open spec fn utc_dec_of(t: (i64, u32)) -> (i128, u32) {
    ((t.0 * NANOS_PER_SEC + t.1) as i128, 9u32)
}

/// The instant a decimal number of seconds stands for: the whole seconds
/// toward zero, and the nanoseconds of the rest toward zero, where the
/// decimal operations succeed and these make a time.
pub open spec fn dec_instant(v: (i128, u32)) -> Option<(i64, u32)> {
    let t = dec_trunc(v);
    match decimal_difference(v, t) {
        Some(f) => match decimal_product(f, (1000000000i128, 0u32)) {
            Some(p) => {
                let n = dec_trunc(p).0;
                if instant_ok(t.0 as int) && 0 <= n < NANOS_PER_SEC {
                    Some((t.0 as i64, n as u32))
                } else {
                    None
                }
            },
            None => None,
        },
        None => None,
    }
}

/// What chrono's `NaiveDateTime::parse_from_str` reads from `s` with the
/// format string `f`: the date, hour, minute, second and nanosecond, if it
/// reads one.
pub uninterp spec fn datetime_parse(s: Seq<char>, f: Seq<char>) -> Option<
    (i32, u32, u32, u32, u32, u32, u32),
>;

/// What chrono's `DateTime::parse_from_rfc3339` reads from `s`: the instant,
/// in seconds since the start of Unix time and nanoseconds, if it reads one.
pub uninterp spec fn rfc3339_parse(s: Seq<char>) -> Option<(i64, u32)>;

/// What chrono's `format` writes for the instant `(s, ns)` seen in `tz` with
/// the format string `f`, or `None` where it cannot write it.
pub uninterp spec fn time_format(s: int, ns: int, tz: Tz, f: Seq<char>) -> Option<Seq<char>>;

/// What chrono's `DateTime::to_rfc3339` writes for the instant `(s, ns)` seen
/// in `tz`.
pub uninterp spec fn rfc3339_text(s: int, ns: int, tz: Tz) -> Seq<char>;

/// `NaiveDateTime::parse_from_str`: the fields read from `s` with the format
/// string `f`, or chrono's message where it reads none. A second of 60 is
/// read as second 59 with a second's more nanoseconds.
#[verifier::external_body]
fn chrono_parse_datetime(s: &str, f: &str) -> (r: std::result::Result<
    (i32, u32, u32, u32, u32, u32, u32),
    String,
>)
    ensures
        match r {
            Ok(p) => datetime_parse(s@, f@) == Some(p) && valid_ymd(p.0 as int, p.1 as int, p.2 as int)
                && p.3 < 24 && p.4 < 60 && p.5 < 60 && p.6 < 2 * NANOS_PER_SEC,
            Err(_) => datetime_parse(s@, f@) is None,
        },
{
    match NaiveDateTime::parse_from_str(s, f) {
        Ok(dt) => Ok(
            (dt.year(), dt.month(), dt.day(), dt.hour(), dt.minute(), dt.second(), dt.nanosecond()),
        ),
        Err(e) => Err(e.to_string()),
    }
}

/// The fields chrono gives a `NaiveDateTime`: year, month, day, hour,
/// minute, second and nanosecond.
pub uninterp spec fn naive_datetime_fields(dt: NaiveDateTime) -> (i32, u32, u32, u32, u32, u32, u32);

/// The fields of a `NaiveDateTime`: date, hour, minute, second and
/// nanosecond, a leap second being second 59 with a second's more
/// nanoseconds.
#[verifier::external_body]
fn chrono_datetime_fields(dt: &NaiveDateTime) -> (r: (i32, u32, u32, u32, u32, u32, u32))
    ensures
        r == naive_datetime_fields(*dt),
        valid_ymd(r.0 as int, r.1 as int, r.2 as int) && r.3 < 24 && r.4 < 60 && r.5 < 60 && r.6
            < 2 * NANOS_PER_SEC,
{
    (dt.year(), dt.month(), dt.day(), dt.hour(), dt.minute(), dt.second(), dt.nanosecond())
}

/// `DateTime::parse_from_rfc3339` with `timestamp` and
/// `timestamp_subsec_nanos`: the instant read from `s`, or chrono's message
/// where it reads none.
#[verifier::external_body]
fn chrono_parse_rfc3339(s: &str) -> (r: std::result::Result<(i64, u32), String>)
    ensures
        match r {
            Ok(p) => rfc3339_parse(s@) == Some(p),
            Err(_) => rfc3339_parse(s@) is None,
        },
{
    match DateTime::parse_from_rfc3339(s) {
        Ok(t) => Ok((t.timestamp(), t.timestamp_subsec_nanos())),
        Err(e) => Err(e.to_string()),
    }
}

/// `DateTime::format` written out, for the instant `(s, ns)` seen in `tz`;
/// `None` where chrono reports that it cannot write the format string. The
/// local format string, whose items a date and time always have, is always
/// written.
#[verifier::external_body]
fn chrono_format_time(s: i64, ns: u32, tz: Tz, f: &str) -> (r: Option<String>)
    requires
        instant_ok(s as int),
        ns < NANOS_PER_SEC,
    ensures
        match r {
            Some(t) => time_format(s as int, ns as int, tz, f@) == Some(t@),
            None => time_format(s as int, ns as int, tz, f@) is None && f@ != LOCAL_FMT@,
        },
{
    let dt = tz.from_utc_datetime(&DateTime::from_timestamp(s, ns).unwrap().naive_utc());
    let mut out = String::new();
    match write!(out, "{}", dt.format(f)) {
        Ok(()) => Some(out),
        Err(_) => None,
    }
}

/// `DateTime::to_rfc3339` for the instant `(s, ns)` seen in `tz`.
#[verifier::external_body]
fn chrono_to_rfc3339(s: i64, ns: u32, tz: Tz) -> (r: String)
    requires
        instant_ok(s as int),
        ns < NANOS_PER_SEC,
    ensures
        r@ == rfc3339_text(s as int, ns as int, tz),
{
    tz.from_utc_datetime(&DateTime::from_timestamp(s, ns).unwrap().naive_utc()).to_rfc3339()
}

/// The first instant of the date read from `s` with the format string `f`,
/// in `tz`, where there is one.
pub open spec fn day_start_of_text(s: Seq<char>, f: Seq<char>, tz: Tz) -> Option<i64> {
    match date_parse(s, f) {
        Some(t) => if date_holds_times(t) {
            day_start(t, tz)
        } else {
            None
        },
        None => None,
    }
}

/// The instant the local time read from `s` in the local format stands for
/// in `tz`, where it stands for exactly one that a time can take.
pub open spec fn local_text_instant(s: Seq<char>, tz: Tz) -> Option<(i64, u32)> {
    match datetime_parse(s, LOCAL_FMT@) {
        Some(p) => if date_holds_times((p.0, p.1, p.2)) && p.6 < NANOS_PER_SEC {
            match unique_instant(
                local_instant((p.0, p.1, p.2), tod_of(p.3 as int, p.4 as int, p.5 as int)),
                tz,
            ) {
                Some(x) => Some((x, p.6)),
                None => None,
            }
        } else {
            None
        },
        None => None,
    }
}

/// The local time text and the zone named by the first two words of `s`.
pub open spec fn serialized_time(s: Seq<char>) -> Option<(Seq<char>, Tz)> {
    match word_from(s, 0) {
        Some(w1) => match word_from(s, w1.1) {
            Some(w2) => match zone_named(s.subrange(w2.0, w2.1)) {
                Some(tz) => Some((s.subrange(w1.0, w1.1), tz)),
                None => None,
            },
            None => None,
        },
        None => None,
    }
}

/// What the step `st` does to the time `t` can be done: the instant it moves
/// to is in range; the local time it sets stands for exactly one instant; the
/// date operation can be done, and the time moved to its result.
pub open spec fn step_ok(t: Time, st: TimeStep) -> bool {
    match st {
        TimeStep::AddHours(n) => instant_ok(shift_instant(t@, n * 3600 * NANOS_PER_SEC).0),
        TimeStep::AddMins(n) => instant_ok(shift_instant(t@, n * 60 * NANOS_PER_SEC).0),
        TimeStep::AddSecs(n) => instant_ok(shift_instant(t@, n * NANOS_PER_SEC).0),
        TimeStep::AddMillis(n) => instant_ok(shift_instant(t@, n * 1000000).0),
        TimeStep::AddMicros(n) => instant_ok(shift_instant(t@, n * 1000).0),
        TimeStep::AddNanos(n) => instant_ok(shift_instant(t@, n as int).0),
        TimeStep::SetHour(h) => day_holds_times(t.local_day()) && t.at_tod(
            tod_of(at_most(h as int, 23), t.local_minute(), t.local_second()),
        ) is Some,
        TimeStep::SetMin(m) => day_holds_times(t.local_day()) && t.at_tod(
            tod_of(t.local_hour(), at_most(m as int, 59), t.local_second()),
        ) is Some,
        TimeStep::SetSec(sec) => day_holds_times(t.local_day()) && t.at_tod(
            tod_of(t.local_hour(), t.local_minute(), at_most(sec as int, 59)),
        ) is Some,
        TimeStep::SetMillis(ms) => ms < 1000 && day_holds_times(t.local_day()) && t.at_tod(
            t.local_tod(),
        ) is Some,
        TimeStep::SetMicros(us) => us < 1000000 && day_holds_times(t.local_day()) && t.at_tod(
            t.local_tod(),
        ) is Some,
        TimeStep::SetNanos(ns) => ns < NANOS_PER_SEC && day_holds_times(t.local_day()) && t.at_tod(
            t.local_tod(),
        ) is Some,
        TimeStep::OnDate(d) => dop_ok(t.local_date(), d@.0, d@.1) && forall|rd: (i32, u32, u32)|
            #[trigger] dop_holds(t.local_date(), d@.0, d@.1, rd) ==> t.movable_to(rd),
    }
}

/// `r` is what the step `st` makes of the time `t`: the instant moved by a
/// length of time, the local time with a field set, or the time's wall-clock
/// time on the date the date operation gives.
pub open spec fn step_holds(t: Time, st: TimeStep, r: Time) -> bool {
    &&& r.zone() == t.zone()
    &&& match st {
        TimeStep::AddHours(n) => r@.0 == shift_instant(t@, n * 3600 * NANOS_PER_SEC).0 && r@.1
            == shift_instant(t@, n * 3600 * NANOS_PER_SEC).1,
        TimeStep::AddMins(n) => r@.0 == shift_instant(t@, n * 60 * NANOS_PER_SEC).0 && r@.1
            == shift_instant(t@, n * 60 * NANOS_PER_SEC).1,
        TimeStep::AddSecs(n) => r@.0 == shift_instant(t@, n * NANOS_PER_SEC).0 && r@.1
            == shift_instant(t@, n * NANOS_PER_SEC).1,
        TimeStep::AddMillis(n) => r@.0 == shift_instant(t@, n * 1000000).0 && r@.1
            == shift_instant(t@, n * 1000000).1,
        TimeStep::AddMicros(n) => r@.0 == shift_instant(t@, n * 1000).0 && r@.1 == shift_instant(
            t@,
            n * 1000,
        ).1,
        TimeStep::AddNanos(n) => r@.0 == shift_instant(t@, n as int).0 && r@.1 == shift_instant(
            t@,
            n as int,
        ).1,
        TimeStep::SetHour(h) => r@ == (
            t.at_tod(tod_of(at_most(h as int, 23), t.local_minute(), t.local_second())).unwrap(),
            t@.1,
        ),
        TimeStep::SetMin(m) => r@ == (
            t.at_tod(tod_of(t.local_hour(), at_most(m as int, 59), t.local_second())).unwrap(),
            t@.1,
        ),
        TimeStep::SetSec(sec) => r@ == (
            t.at_tod(tod_of(t.local_hour(), t.local_minute(), at_most(sec as int, 59))).unwrap(),
            t@.1,
        ),
        TimeStep::SetMillis(ms) => r@ == (
            t.at_tod(t.local_tod()).unwrap(),
            (ms * 1000000) as u32,
        ),
        TimeStep::SetMicros(us) => r@ == (t.at_tod(t.local_tod()).unwrap(), (us * 1000) as u32),
        TimeStep::SetNanos(ns) => r@ == (t.at_tod(t.local_tod()).unwrap(), ns),
        TimeStep::OnDate(d) => exists|rd: (i32, u32, u32)|
            #[trigger] dop_holds(t.local_date(), d@.0, d@.1, rd) && r@ == (
                t.on_date(rd).unwrap(),
                t@.1,
            ),
    }
}

/// The instant the step `st` makes of the time `t`, where it can be taken.
pub open spec fn step_view(t: Time, st: TimeStep) -> Option<(i64, u32)> {
    if !step_ok(t, st) {
        None
    } else {
        Some(
            match st {
                TimeStep::AddHours(n) => (
                    shift_instant(t@, n * 3600 * NANOS_PER_SEC).0 as i64,
                    shift_instant(t@, n * 3600 * NANOS_PER_SEC).1 as u32,
                ),
                TimeStep::AddMins(n) => (
                    shift_instant(t@, n * 60 * NANOS_PER_SEC).0 as i64,
                    shift_instant(t@, n * 60 * NANOS_PER_SEC).1 as u32,
                ),
                TimeStep::AddSecs(n) => (
                    shift_instant(t@, n * NANOS_PER_SEC).0 as i64,
                    shift_instant(t@, n * NANOS_PER_SEC).1 as u32,
                ),
                TimeStep::AddMillis(n) => (
                    shift_instant(t@, n * 1000000).0 as i64,
                    shift_instant(t@, n * 1000000).1 as u32,
                ),
                TimeStep::AddMicros(n) => (
                    shift_instant(t@, n * 1000).0 as i64,
                    shift_instant(t@, n * 1000).1 as u32,
                ),
                TimeStep::AddNanos(n) => (
                    shift_instant(t@, n as int).0 as i64,
                    shift_instant(t@, n as int).1 as u32,
                ),
                TimeStep::SetHour(h) => (
                    t.at_tod(tod_of(at_most(h as int, 23), t.local_minute(), t.local_second())).unwrap(),
                    t@.1,
                ),
                TimeStep::SetMin(m) => (
                    t.at_tod(tod_of(t.local_hour(), at_most(m as int, 59), t.local_second())).unwrap(),
                    t@.1,
                ),
                TimeStep::SetSec(sec) => (
                    t.at_tod(tod_of(t.local_hour(), t.local_minute(), at_most(sec as int, 59))).unwrap(),
                    t@.1,
                ),
                TimeStep::SetMillis(ms) => (t.at_tod(t.local_tod()).unwrap(), (ms * 1000000) as u32),
                TimeStep::SetMicros(us) => (t.at_tod(t.local_tod()).unwrap(), (us * 1000) as u32),
                TimeStep::SetNanos(ns) => (t.at_tod(t.local_tod()).unwrap(), ns),
                TimeStep::OnDate(d) => {
                    let rd = choose|rd: (i32, u32, u32)|
                        #[trigger] dop_holds(t.local_date(), d@.0, d@.1, rd);
                    (t.on_date(rd).unwrap(), t@.1)
                },
            },
        )
    }
}

/// `TimeZone::from_utc_datetime` and the date and time fields of the result:
/// the local date, hour, minute and second of the instant `s` in `tz`, with
/// the zone's offset there.
#[verifier::external_body]
fn chrono_local(s: i64, ns: u32, tz: Tz) -> (r: (i32, u32, u32, u32, u32, u32, i32))
    requires
        instant_ok(s as int),
        ns < NANOS_PER_SEC,
    ensures
        valid_ymd(r.0 as int, r.1 as int, r.2 as int) && r.3 < 24 && r.4 < 60 && r.5 < 60,
        local_instant((r.0, r.1, r.2), tod_of(r.3 as int, r.4 as int, r.5 as int)) == s + r.6,
        r.6 == zone_offset(s as int, tz) && -SECS_PER_DAY < r.6 < SECS_PER_DAY,
{
    let dt = tz.from_utc_datetime(&DateTime::from_timestamp(s, ns).unwrap().naive_utc());
    let off = dt.offset().fix().local_minus_utc();
    (dt.year(), dt.month(), dt.day(), dt.hour(), dt.minute(), dt.second(), off)
}

/// `TimeZone::from_local_datetime`: the instants the local time `l` stands
/// for in `tz`, each with the offset chrono-tz gives it, the instant being the
/// local time less that offset.
#[verifier::external_body]
fn chrono_from_local(l: i64, tz: Tz) -> (r: Option<(i64, i32, i64, i32)>)
    requires
        instant_ok(l as int),
    ensures
        r == local_fit(l as int, tz),
        r matches Some(q) ==> q.0 + q.1 == l && q.2 + q.3 == l && -SECS_PER_DAY < q.1
            < SECS_PER_DAY && -SECS_PER_DAY < q.3 < SECS_PER_DAY,
{
    let naive = DateTime::from_timestamp(l, 0).unwrap().naive_utc();
    match tz.from_local_datetime(&naive) {
        LocalResult::None => None,
        LocalResult::Single(a) => {
            let oa = a.offset().fix().local_minus_utc();
            Some((a.timestamp(), oa, a.timestamp(), oa))
        },
        LocalResult::Ambiguous(a, b) => {
            let (oa, ob) = (a.offset().fix().local_minus_utc(), b.offset().fix().local_minus_utc());
            Some((a.timestamp(), oa, b.timestamp(), ob))
        },
    }
}

/// `NaiveDate::num_days_from_ce`: the number of the date counted from the
/// first of January of year 1, which is day 1.
#[verifier::external_body]
pub(crate) fn chrono_days_from_ce(y: i32, m: u32, d: u32) -> (r: i32)
    requires
        valid_ymd(y as int, m as int, d as int),
    ensures
        r == day_number((y, m, d)) + 1,
{
    NaiveDate::from_ymd_opt(y, m, d).unwrap().num_days_from_ce()
}

/// `Utc::now`: the current instant, which depends on the clock of the
/// machine; the contract claims only that it is a time in range.
#[verifier::external_body]
fn chrono_now() -> (r: (i64, u32))
    ensures
        instant_ok(r.0 as int) && r.1 < NANOS_PER_SEC,
{
    let now = Utc::now();
    (now.timestamp(), now.timestamp_subsec_nanos())
}

/// An instant, held as whole seconds since the start of Unix time (UTC) and
/// nanoseconds, seen in a time zone.
#[derive(Debug, Copy, Clone, Eq)]
pub struct Time {
    s: i64,
    ns: u32,
    tz: Tz,
}

impl View for Time {
    type V = (i64, u32);

    /// The instant: seconds since the start of Unix time and nanoseconds.
    closed spec fn view(&self) -> (i64, u32) {
        (self.s, self.ns)
    }
}

impl Time {
    /// Every time is an instant in range with fewer than a second of
    /// nanoseconds.
    #[verifier::type_invariant]
    pub open spec fn inv(self) -> bool {
        instant_ok(self@.0 as int) && self@.1 < NANOS_PER_SEC
    }

    /// The time zone the time is seen in.
    pub closed spec fn zone(&self) -> Tz {
        self.tz
    }

    /// The zone's offset from UTC at this instant, in seconds.
    pub open spec fn offset(&self) -> int {
        zone_offset(self@.0 as int, self.zone())
    }

    /// The local seconds since the start of Unix time of this instant.
    pub open spec fn local(&self) -> int {
        self@.0 + self.offset()
    }

    /// The seconds after local midnight of this instant.
    pub open spec fn local_tod(&self) -> int {
        self.local() % (SECS_PER_DAY as int)
    }

    /// The number of the local date of this instant.
    pub open spec fn local_day(&self) -> int {
        self.local() / (SECS_PER_DAY as int) + UNIX_EPOCH_DAY
    }

    /// The instant `(s, ns)` in the zone of `base`.
    pub closed spec fn at_instant(s: i64, ns: u32, base: Time) -> Time {
        Time { s, ns, tz: base.tz }
    }

    /// The instant `(s, ns)` seen in the zone `tz`.
    pub closed spec fn instant_in(s: i64, ns: u32, tz: Tz) -> Time {
        Time { s, ns, tz }
    }

    /// A time is its instant seen in its zone.
    pub proof fn lemma_instant_in(t: Time)
        ensures
            t == Time::instant_in(t@.0, t@.1, t.zone()),
            Time::instant_in(t@.0, t@.1, t.zone())@ == t@,
            Time::instant_in(t@.0, t@.1, t.zone()).zone() == t.zone(),
    {
    }

    /// The instant `utc_secs` seconds and `utc_nanos` nanoseconds after the
    /// start of Unix time, seen in `tz`.
    pub fn from_utc_timestamp(utc_secs: i64, utc_nanos: u32, tz: Tz) -> (r: Self)
        requires
            instant_ok(utc_secs as int),
            utc_nanos < NANOS_PER_SEC,
        ensures
            r@ == (utc_secs, utc_nanos),
            r.zone() == tz,
    {
        Time { s: utc_secs, ns: utc_nanos, tz }
    }

    /// The start of Unix time, seen in `tz`.
    pub fn zero(tz: Tz) -> (r: Self)
        ensures
            r@ == (0i64, 0u32),
            r.zone() == tz,
    {
        Time::from_utc_timestamp(0, 0, tz)
    }

    /// The current instant, in UTC. Which instant it is depends on the
    /// machine's clock.
    pub fn now_utc() -> (r: Self)
        ensures
            zone_named("UTC"@) == Some(r.zone()),
    {
        let (s, ns) = chrono_now();
        Time { s, ns, tz: utc() }
    }

    /// The time zone.
    pub fn tz(&self) -> (r: Tz)
        ensures
            r == self.zone(),
    {
        self.tz
    }

    /// Seconds and nanoseconds since the start of Unix time.
    pub fn utc_timestamp(&self) -> (r: (i64, u32))
        ensures
            r == self@,
    {
        (self.s, self.ns)
    }

    /// The same instant seen in `tz`.
    pub fn with_tz(&self, tz: Tz) -> (r: Self)
        ensures
            r@ == self@,
            r.zone() == tz,
    {
        proof {
            use_type_invariant(self);
        }
        Time { s: self.s, ns: self.ns, tz }
    }

    /// The local date and time fields of this instant.
    fn fields(&self) -> (r: (i32, u32, u32, u32, u32, u32, i32))
        ensures
            valid_ymd(r.0 as int, r.1 as int, r.2 as int) && r.3 < 24 && r.4 < 60 && r.5 < 60,
            local_instant((r.0, r.1, r.2), tod_of(r.3 as int, r.4 as int, r.5 as int))
                == self.local(),
            r.6 == self.offset(),
            -SECS_PER_DAY < self.offset() < SECS_PER_DAY,
    {
        proof {
            use_type_invariant(self);
        }
        chrono_local(self.s, self.ns, self.tz)
    }

    /// `t` is the local date of this instant.
    pub open spec fn is_local_date(&self, t: (i32, u32, u32)) -> bool {
        valid_date(t) && day_number(t) == self.local_day()
    }

    /// The local date of this instant.
    pub open spec fn local_date(&self) -> (i32, u32, u32) {
        choose|t: (i32, u32, u32)| self.is_local_date(t)
    }

    /// The local date, in the time's zone.
    pub fn date(&self) -> (r: Date)
        ensures
            r@ == self.local_date(),
            self.is_local_date(r@),
            r.zone() == self.zone(),
    {
        let (y, m, d, h, mi, sec, _) = self.fields();
        proof {
            lemma_local_split((y, m, d), tod_of(h as int, mi as int, sec as int), self.local());
            assert(self.is_local_date((y, m, d)));
            lemma_day_number_injective((y, m, d), self.local_date());
        }
        ymd(y, m, d, self.tz)
    }

    /// The local year.
    pub fn year(&self) -> (r: i32)
        ensures
            r == self.local_date().0,
    {
        let d = self.date();
        d.year()
    }

    /// The local month, from 1.
    pub fn month(&self) -> (r: u32)
        ensures
            r == self.local_date().1,
    {
        let d = self.date();
        d.month()
    }

    /// The local month, from 0.
    pub fn month0(&self) -> (r: u32)
        ensures
            r == self.local_date().1 - 1,
    {
        let d = self.date();
        d.month0()
    }

    /// The local day of the month.
    pub fn day(&self) -> (r: u32)
        ensures
            r == self.local_date().2,
    {
        let d = self.date();
        d.day()
    }

    /// The local day of the week.
    pub fn weekday(&self) -> (r: Day)
        ensures
            day_index(r) == self.local_day() % 7,
    {
        let d = self.date();
        d.weekday()
    }

    /// The English name of the local month.
    pub fn month_name(&self) -> (r: String)
        ensures
            r@ == month_name_of(self.local_date().1 as int),
    {
        let d = self.date();
        d.month_name()
    }

    /// The local hour.
    pub fn hour(&self) -> (r: u32)
        ensures
            r == self.local_tod() / 3600,
    {
        let (y, m, d, h, mi, sec, _) = self.fields();
        proof {
            lemma_local_split((y, m, d), tod_of(h as int, mi as int, sec as int), self.local());
        }
        h
    }

    /// The local minute.
    pub fn minute(&self) -> (r: u32)
        ensures
            r == self.local_tod() % 3600 / 60,
    {
        let (y, m, d, h, mi, sec, _) = self.fields();
        proof {
            lemma_local_split((y, m, d), tod_of(h as int, mi as int, sec as int), self.local());
            lemma_tod_parts(h as int, mi as int, sec as int);
        }
        mi
    }

    /// The local second.
    pub fn second(&self) -> (r: u32)
        ensures
            r == self.local_tod() % 60,
    {
        let (y, m, d, h, mi, sec, _) = self.fields();
        proof {
            lemma_local_split((y, m, d), tod_of(h as int, mi as int, sec as int), self.local());
            lemma_tod_parts(h as int, mi as int, sec as int);
        }
        sec
    }

    /// The nanoseconds within the second.
    pub fn nanos(&self) -> (r: u32)
        ensures
            r == self@.1,
    {
        self.ns
    }

    /// This time's wall-clock time of day on the date `d`: where that time
    /// falls in a gap, it moves forward an hour at a time until it exists;
    /// where it comes twice, the instant keeps this time's offset if the
    /// earlier one has it and is the later one otherwise. `None` where every
    /// hour of the day falls in a gap.
    pub fn try_with_date(&self, d: Date) -> (r: Option<Time>)
        requires
            date_holds_times(d@),
        ensures
            match moved_instant(d@, self.local_tod(), self.zone(), self.offset()) {
                Some(s) => r is Some && r.unwrap()@ == (s, self@.1) && r.unwrap().zone()
                    == self.zone(),
                None => r is None,
            },
    {
        proof {
            use_type_invariant(self);
            use_type_invariant(&d);
        }
        let (y, m, dd, h, mi, sec, off) = self.fields();
        proof {
            lemma_local_split((y, m, dd), tod_of(h as int, mi as int, sec as int), self.local());
        }
        let tod: i64 = (h as i64) * 3600 + (mi as i64) * 60 + (sec as i64);
        let (dy, dm, ddd) = (d.year(), d.month(), d.day());
        let dn: i32 = chrono_days_from_ce(dy, dm, ddd);
        proof {
            assert(d@ == (dy, dm, ddd));
            lemma_bounds();
        }
        let base: i64 = ((dn as i64) - 1 - UNIX_EPOCH_DAY) * SECS_PER_DAY;
        let mut k: i64 = 0;
        while k < 24
            invariant
                0 <= k <= 24,
                0 <= tod < SECS_PER_DAY,
                tod == self.local_tod(),
                off == self.offset(),
                base == (day_number(d@) - UNIX_EPOCH_DAY) * SECS_PER_DAY,
                date_holds_times(d@),
                MIN_INSTANT + SECS_PER_DAY <= base,
                base <= MAX_INSTANT - 2 * SECS_PER_DAY,
                first_fit(d@, tod as int, self.zone(), 0) == first_fit(
                    d@,
                    tod as int,
                    self.zone(),
                    k as int,
                ),
                self.ns < NANOS_PER_SEC,
            decreases 24 - k,
        {
            let l: i64 = base + (tod + 3600 * k) % SECS_PER_DAY;
            assert(l == local_instant(d@, shifted_tod(tod as int, k as int)));
            match chrono_from_local(l, self.tz) {
                Some(q) => {
                    let s: i64 = if q.1 == off {
                        q.0
                    } else {
                        q.2
                    };
                    return Some(Time { s, ns: self.ns, tz: self.tz });
                },
                None => {},
            }
            k += 1;
        }
        None
    }

    /// This time's wall-clock time of day on the date `d`, as `try_with_date`
    /// finds it.
    pub fn with_date(&self, d: Date) -> (r: Time)
        requires
            date_holds_times(d@),
            moved_instant(d@, self.local_tod(), self.zone(), self.offset()) is Some,
        ensures
            r@ == (moved_instant(d@, self.local_tod(), self.zone(), self.offset()).unwrap(), self@.1),
            r.zone() == self.zone(),
    {
        self.try_with_date(d).unwrap()
    }

    /// The local hour of this instant.
    pub open spec fn local_hour(&self) -> int {
        self.local_tod() / 3600
    }

    /// The local minute of this instant.
    pub open spec fn local_minute(&self) -> int {
        self.local_tod() % 3600 / 60
    }

    /// The local second of this instant.
    pub open spec fn local_second(&self) -> int {
        self.local_tod() % 60
    }

    /// The local seconds since the start of Unix time of the time of day `tod`
    /// on this time's local date.
    pub open spec fn on_local_day(&self, tod: int) -> int {
        (self.local_day() - UNIX_EPOCH_DAY) * SECS_PER_DAY + tod
    }

    /// The instant of the time of day `tod` on this time's local date, where
    /// that local time stands for exactly one instant.
    pub open spec fn at_tod(&self, tod: int) -> Option<i64> {
        unique_instant(self.on_local_day(tod), self.zone())
    }

    /// This time's wall-clock time on the date `t`, as `with_date` finds it.
    pub open spec fn on_date(&self, t: (i32, u32, u32)) -> Option<i64> {
        moved_instant(t, self.local_tod(), self.zone(), self.offset())
    }

    /// This time can be moved to the date `t`.
    pub open spec fn movable_to(&self, t: (i32, u32, u32)) -> bool {
        date_holds_times(t) && self.on_date(t) is Some
    }

    /// This time with the local time of day `tod` seconds after midnight and
    /// `ns` nanoseconds on its local date; `None` where that local time does
    /// not stand for exactly one instant.
    pub fn try_with_time_of_day(&self, tod: i64, ns: u32) -> (r: Option<Time>)
        requires
            0 <= tod < SECS_PER_DAY,
            ns < NANOS_PER_SEC,
            day_holds_times(self.local_day()),
        ensures
            match self.at_tod(tod as int) {
                Some(s) => r is Some && r.unwrap()@ == (s, ns) && r.unwrap().zone() == self.zone(),
                None => r is None,
            },
    {
        proof {
            use_type_invariant(self);
            lemma_bounds();
        }
        let (y, m, d, h, mi, sec, off) = self.fields();
        proof {
            lemma_local_split((y, m, d), tod_of(h as int, mi as int, sec as int), self.local());
        }
        let cur: i64 = (h as i64) * 3600 + (mi as i64) * 60 + (sec as i64);
        let l: i64 = self.s + (off as i64) - cur + tod;
        match chrono_from_local(l, self.tz) {
            Some(q) => if q.0 == q.2 {
                Some(Time { s: q.0, ns, tz: self.tz })
            } else {
                None
            },
            None => None,
        }
    }

    /// This time on its local date at the time of day `tod`, which stands for
    /// exactly one instant.
    fn at_time_of_day(&self, tod: i64, ns: u32) -> (r: Time)
        requires
            0 <= tod < SECS_PER_DAY,
            ns < NANOS_PER_SEC,
            day_holds_times(self.local_day()),
            self.at_tod(tod as int) is Some,
        ensures
            r@ == (self.at_tod(tod as int).unwrap(), ns),
            r.zone() == self.zone(),
    {
        self.try_with_time_of_day(tod, ns).unwrap()
    }

    /// The local hour, minute and second, and the seconds after midnight.
    fn clock(&self) -> (r: (i64, i64, i64))
        ensures
            r.0 == self.local_hour() && r.1 == self.local_minute() && r.2 == self.local_second(),
            0 <= r.0 < 24 && 0 <= r.1 < 60 && 0 <= r.2 < 60,
            tod_of(r.0 as int, r.1 as int, r.2 as int) == self.local_tod(),
    {
        let (y, m, d, h, mi, sec, _) = self.fields();
        proof {
            lemma_local_split((y, m, d), tod_of(h as int, mi as int, sec as int), self.local());
            lemma_tod_parts(h as int, mi as int, sec as int);
        }
        (h as i64, mi as i64, sec as i64)
    }

    /// The same local minute, second and nanosecond at the hour `h`, at most 23.
    pub fn with_hour(self, h: u32) -> (r: Time)
        requires
            day_holds_times(self.local_day()),
            self.at_tod(
                tod_of(at_most(h as int, 23), self.local_minute(), self.local_second()),
            ) is Some,
        ensures
            r@ == (
                self.at_tod(
                    tod_of(at_most(h as int, 23), self.local_minute(), self.local_second()),
                ).unwrap(),
                self@.1,
            ),
            r.zone() == self.zone(),
    {
        proof {
            use_type_invariant(&self);
        }
        let (_, mi, sec) = self.clock();
        let hh: i64 = if h > 23 {
            23
        } else {
            h as i64
        };
        self.at_time_of_day(hh * 3600 + mi * 60 + sec, self.ns)
    }

    /// The same local hour, second and nanosecond at the minute `m`, at most
    /// 59.
    pub fn with_min(self, m: u32) -> (r: Time)
        requires
            day_holds_times(self.local_day()),
            self.at_tod(tod_of(self.local_hour(), at_most(m as int, 59), self.local_second()))
                is Some,
        ensures
            r@ == (
                self.at_tod(
                    tod_of(self.local_hour(), at_most(m as int, 59), self.local_second()),
                ).unwrap(),
                self@.1,
            ),
            r.zone() == self.zone(),
    {
        proof {
            use_type_invariant(&self);
        }
        let (h, _, sec) = self.clock();
        let mm: i64 = if m > 59 {
            59
        } else {
            m as i64
        };
        self.at_time_of_day(h * 3600 + mm * 60 + sec, self.ns)
    }

    /// The same local hour, minute and nanosecond at the second `s`, at most
    /// 59.
    pub fn with_sec(self, s: u32) -> (r: Time)
        requires
            day_holds_times(self.local_day()),
            self.at_tod(tod_of(self.local_hour(), self.local_minute(), at_most(s as int, 59)))
                is Some,
        ensures
            r@ == (
                self.at_tod(
                    tod_of(self.local_hour(), self.local_minute(), at_most(s as int, 59)),
                ).unwrap(),
                self@.1,
            ),
            r.zone() == self.zone(),
    {
        proof {
            use_type_invariant(&self);
        }
        let (h, mi, _) = self.clock();
        let ss: i64 = if s > 59 {
            59
        } else {
            s as i64
        };
        self.at_time_of_day(h * 3600 + mi * 60 + ss, self.ns)
    }

    /// The same local time with `ns` nanoseconds.
    pub fn with_nanos(self, ns: u32) -> (r: Time)
        requires
            ns < NANOS_PER_SEC,
            day_holds_times(self.local_day()),
            self.at_tod(self.local_tod()) is Some,
        ensures
            r@ == (self.at_tod(self.local_tod()).unwrap(), ns),
            r.zone() == self.zone(),
    {
        let (h, mi, sec) = self.clock();
        self.at_time_of_day(h * 3600 + mi * 60 + sec, ns)
    }

    /// The same local time with `us` microseconds as its fraction of a second.
    pub fn with_micros(self, us: u32) -> (r: Time)
        requires
            us < 1000000,
            day_holds_times(self.local_day()),
            self.at_tod(self.local_tod()) is Some,
        ensures
            r@ == (self.at_tod(self.local_tod()).unwrap(), (us * 1000) as u32),
            r.zone() == self.zone(),
    {
        self.with_nanos(us * 1000)
    }

    /// The same local time with `ms` milliseconds as its fraction of a second.
    pub fn with_millis(self, ms: u32) -> (r: Time)
        requires
            ms < 1000,
            day_holds_times(self.local_day()),
            self.at_tod(self.local_tod()) is Some,
        ensures
            r@ == (self.at_tod(self.local_tod()).unwrap(), (ms * 1000000) as u32),
            r.zone() == self.zone(),
    {
        self.with_nanos(ms * 1000000)
    }

    /// The instant `dn` nanoseconds later.
    fn shifted(self, dn: i128) -> (r: Time)
        requires
            -0x1_0000_0000_0000_0000_0000_0000_0000 < dn < 0x1_0000_0000_0000_0000_0000_0000_0000,
            instant_ok(shift_instant(self@, dn as int).0),
        ensures
            r@.0 == shift_instant(self@, dn as int).0,
            r@.1 == shift_instant(self@, dn as int).1,
            r.zone() == self.zone(),
    {
        proof {
            use_type_invariant(&self);
        }
        let total: i128 = (self.s as i128) * 1000000000 + (self.ns as i128) + dn;
        let s: i128 = total.checked_div_euclid(1000000000).unwrap();
        let ns: i128 = total.checked_rem_euclid(1000000000).unwrap();
        Time { s: s as i64, ns: ns as u32, tz: self.tz }
    }

    /// The instant `ns` nanoseconds later.
    pub fn add_nanos(self, ns: i64) -> (r: Time)
        requires
            instant_ok(shift_instant(self@, ns as int).0),
        ensures
            r@.0 == shift_instant(self@, ns as int).0,
            r@.1 == shift_instant(self@, ns as int).1,
            r.zone() == self.zone(),
    {
        self.shifted(ns as i128)
    }

    /// The instant `us` microseconds later.
    pub fn add_micros(self, us: i64) -> (r: Time)
        requires
            instant_ok(shift_instant(self@, us * 1000).0),
        ensures
            r@.0 == shift_instant(self@, us * 1000).0,
            r@.1 == shift_instant(self@, us * 1000).1,
            r.zone() == self.zone(),
    {
        self.shifted((us as i128) * 1000)
    }

    /// The instant `ms` milliseconds later.
    pub fn add_millis(self, ms: i64) -> (r: Time)
        requires
            instant_ok(shift_instant(self@, ms * 1000000).0),
        ensures
            r@.0 == shift_instant(self@, ms * 1000000).0,
            r@.1 == shift_instant(self@, ms * 1000000).1,
            r.zone() == self.zone(),
    {
        self.shifted((ms as i128) * 1000000)
    }

    /// The instant `secs` seconds later.
    pub fn add_secs(self, secs: i64) -> (r: Time)
        requires
            instant_ok(shift_instant(self@, secs * NANOS_PER_SEC).0),
        ensures
            r@.0 == shift_instant(self@, secs * NANOS_PER_SEC).0,
            r@.1 == shift_instant(self@, secs * NANOS_PER_SEC).1,
            r.zone() == self.zone(),
    {
        self.shifted((secs as i128) * 1000000000)
    }

    /// The instant `mins` minutes later.
    pub fn add_mins(self, mins: i64) -> (r: Time)
        requires
            instant_ok(shift_instant(self@, mins * 60 * NANOS_PER_SEC).0),
        ensures
            r@.0 == shift_instant(self@, mins * 60 * NANOS_PER_SEC).0,
            r@.1 == shift_instant(self@, mins * 60 * NANOS_PER_SEC).1,
            r.zone() == self.zone(),
    {
        self.shifted((mins as i128) * 60000000000)
    }

    /// The instant `h` hours later.
    pub fn add_hours(self, h: i64) -> (r: Time)
        requires
            instant_ok(shift_instant(self@, h * 3600 * NANOS_PER_SEC).0),
        ensures
            r@.0 == shift_instant(self@, h * 3600 * NANOS_PER_SEC).0,
            r@.1 == shift_instant(self@, h * 3600 * NANOS_PER_SEC).1,
            r.zone() == self.zone(),
    {
        self.shifted((h as i128) * 3600000000000)
    }

    /// This time's wall-clock time on the day `d` of its local month, the day
    /// moved into the month.
    pub fn with_day(self, d: u32) -> (r: Time)
        requires
            self.movable_to(with_day_spec(self.local_date(), d)),
        ensures
            r@ == (self.on_date(with_day_spec(self.local_date(), d)).unwrap(), self@.1),
            r.zone() == self.zone(),
    {
        let nd = self.date().with_day(d);
        self.with_date(nd)
    }

    /// This time's wall-clock time `n` local days later.
    pub fn add_days(self, n: i32) -> (r: Time)
        requires
            day_holds_times(self.local_day() + n),
            self.movable_to(date_of_day(self.local_day() + n)),
        ensures
            r@ == (self.on_date(date_of_day(self.local_day() + n)).unwrap(), self@.1),
            r.zone() == self.zone(),
    {
        let d = self.date();
        proof {
            lemma_bounds();
        }
        let nd = d.add_days(n);
        proof {
            assert(valid_date(nd@) && day_number(nd@) == self.local_day() + n);
            lemma_day_number_injective(nd@, date_of_day(self.local_day() + n));
        }
        self.with_date(nd)
    }

    /// This time's wall-clock time in the month `m` of its local year, the
    /// day moved into the month.
    pub fn with_month(self, m: u32) -> (r: Time)
        requires
            1 <= m <= 12,
            self.movable_to(with_month_spec(self.local_date(), m)),
        ensures
            r@ == (self.on_date(with_month_spec(self.local_date(), m)).unwrap(), self@.1),
            r.zone() == self.zone(),
    {
        let nd = self.date().with_month(m);
        self.with_date(nd)
    }

    /// This time's wall-clock time `m` months later, the day moved into the
    /// month.
    pub fn add_months(self, m: i32) -> (r: Time)
        requires
            add_months_ok(self.local_date(), m as int),
            self.movable_to(add_months_spec(self.local_date(), m as int)),
        ensures
            r@ == (self.on_date(add_months_spec(self.local_date(), m as int)).unwrap(), self@.1),
            r.zone() == self.zone(),
    {
        let nd = self.date().add_months(m);
        self.with_date(nd)
    }

    /// This time's wall-clock time in the year `y`, the day moved into its
    /// month.
    pub fn with_year(self, y: i32) -> (r: Time)
        requires
            MIN_YEAR <= y <= MAX_YEAR,
            self.movable_to(with_year_spec(self.local_date(), y)),
        ensures
            r@ == (self.on_date(with_year_spec(self.local_date(), y)).unwrap(), self@.1),
            r.zone() == self.zone(),
    {
        let nd = self.date().with_year(y);
        self.with_date(nd)
    }

    /// This time's wall-clock time `y` years later, the day moved into its
    /// month.
    pub fn add_years(self, y: i32) -> (r: Time)
        requires
            add_years_ok(self.local_date(), y as int),
            self.movable_to(with_year_spec(self.local_date(), (self.local_date().0 + y) as i32)),
        ensures
            r@ == (
                self.on_date(
                    with_year_spec(self.local_date(), (self.local_date().0 + y) as i32),
                ).unwrap(),
                self@.1,
            ),
            r.zone() == self.zone(),
    {
        let nd = self.date().add_years(y);
        self.with_date(nd)
    }

    /// The first instant of the date `d` in its zone (see `day_start`);
    /// `None` where every hour of the day falls in a gap.
    pub fn try_from_date(d: Date) -> (r: Option<Time>)
        requires
            date_holds_times(d@),
        ensures
            match day_start(d@, d.zone()) {
                Some(s) => r is Some && r.unwrap()@ == (s, 0u32) && r.unwrap().zone() == d.zone(),
                None => r is None,
            },
    {
        proof {
            use_type_invariant(&d);
        }
        let (dy, dm, ddd) = (d.year(), d.month(), d.day());
        let dn: i32 = chrono_days_from_ce(dy, dm, ddd);
        proof {
            assert(d@ == (dy, dm, ddd));
            lemma_bounds();
        }
        let tz = d.tz();
        let base: i64 = ((dn as i64) - 1 - UNIX_EPOCH_DAY) * SECS_PER_DAY;
        let mut k: i64 = 0;
        while k < 24
            invariant
                0 <= k <= 24,
                tz == d.zone(),
                base == (day_number(d@) - UNIX_EPOCH_DAY) * SECS_PER_DAY,
                MIN_INSTANT + SECS_PER_DAY <= base,
                base <= MAX_INSTANT - 2 * SECS_PER_DAY,
                first_fit(d@, 0, tz, 0) == first_fit(d@, 0, tz, k as int),
            decreases 24 - k,
        {
            let l: i64 = base + (3600 * k) % SECS_PER_DAY;
            assert(l == local_instant(d@, shifted_tod(0, k as int)));
            match chrono_from_local(l, tz) {
                Some(q) => {
                    return Some(Time { s: q.0, ns: 0, tz });
                },
                None => {},
            }
            k += 1;
        }
        None
    }

    /// The first instant of the date `d` in its zone (see `day_start`).
    pub fn from_date(d: Date) -> (r: Time)
        requires
            date_holds_times(d@),
            day_start(d@, d.zone()) is Some,
        ensures
            r@ == (day_start(d@, d.zone()).unwrap(), 0u32),
            r.zone() == d.zone(),
    {
        Time::try_from_date(d).unwrap()
    }

    /// The first instant of this time's local date.
    pub fn ymd(&self) -> (r: Time)
        requires
            date_holds_times(self.local_date()),
            day_start(self.local_date(), self.zone()) is Some,
        ensures
            r@ == (day_start(self.local_date(), self.zone()).unwrap(), 0u32),
            r.zone() == self.zone(),
    {
        Time::from_date(self.date())
    }

    /// The parts of this instant as a decimal number of seconds, at scale 9.
    pub fn utc_dec_parts(&self) -> (r: (i128, u32))
        ensures
            r == utc_dec_of(self@),
            dec_ok(r),
    {
        proof {
            use_type_invariant(self);
        }
        ((self.s as i128) * 1000000000 + (self.ns as i128), 9)
    }

    /// This instant as a decimal number of seconds.
    pub fn utc_dec(&self) -> (r: Decimal)
        ensures
            r == decimal_from_parts(utc_dec_of(self@)),
    {
        decimal_of(self.utc_dec_parts())
    }

    /// The instant the decimal number of seconds with parts `v` stands for,
    /// seen in `tz` (see `dec_instant`); `None` where there is none.
    pub fn checked_from_utc_dec(v: (i128, u32), tz: Tz) -> (r: Option<Time>)
        requires
            dec_ok(v),
        ensures
            match dec_instant(v) {
                Some(p) => r is Some && r.unwrap()@ == p && r.unwrap().zone() == tz,
                None => r is None,
            },
    {
        let t = dec_truncate(v);
        let f = match dec_sub(v, t) {
            Some(f) => f,
            None => {
                return None;
            },
        };
        let p = match dec_mul(f, (1000000000, 0)) {
            Some(p) => p,
            None => {
                return None;
            },
        };
        let n = dec_truncate(p).0;
        if t.0 < MIN_INSTANT as i128 || t.0 >= MAX_INSTANT as i128 || n < 0 || n >= 1000000000 {
            return None;
        }
        Some(Time { s: t.0 as i64, ns: n as u32, tz })
    }

    /// The instant the decimal number of seconds `v` stands for, seen in
    /// `tz`; `None` where there is none.
    pub fn from_utc_dec(v: Decimal, tz: Tz) -> (r: Option<Time>)
        ensures
            match dec_instant(decimal_parts_of(v)) {
                Some(p) => r is Some && r.unwrap()@ == p && r.unwrap().zone() == tz,
                None => r is None,
            },
    {
        Time::checked_from_utc_dec(decimal_parts(&v), tz)
    }
    /// The time operation `op` with count `n`.
    pub fn op(op: TOp, n: i64) -> (r: TimeOp)
        ensures
            r@ == (op, n),
    {
        TimeOp::new(op, n)
    }

    /// The instant of the local date, time and nanosecond given by the fields
    /// `p` (year, month, day, hour, minute, second, nanosecond) in `tz`, where
    /// that local time stands for exactly one instant.
    pub fn from_local_fields(p: (i32, u32, u32, u32, u32, u32, u32), tz: Tz) -> (r: Result<Time>)
        requires
            valid_ymd(p.0 as int, p.1 as int, p.2 as int),
            p.3 < 24 && p.4 < 60 && p.5 < 60,
        ensures
            r is Ok <==> date_holds_times((p.0, p.1, p.2)) && p.6 < NANOS_PER_SEC && unique_instant(
                local_instant((p.0, p.1, p.2), tod_of(p.3 as int, p.4 as int, p.5 as int)),
                tz,
            ) is Some,
            r matches Ok(t) ==> t@ == (
                unique_instant(
                    local_instant((p.0, p.1, p.2), tod_of(p.3 as int, p.4 as int, p.5 as int)),
                    tz,
                ).unwrap(),
                p.6,
            ) && t.zone() == tz,
    {
        let dn: i32 = chrono_days_from_ce(p.0, p.1, p.2);
        if dn < MIN_DAY_FROM_CE || dn > MAX_DAY_FROM_CE || p.6 >= NANOS_PER_SEC {
            return Err(Error::OutOfRange("local time out of range".to_owned()));
        }
        proof {
            lemma_bounds();
        }
        let tod: i64 = (p.3 as i64) * 3600 + (p.4 as i64) * 60 + (p.5 as i64);
        let l: i64 = ((dn as i64) - 1 - UNIX_EPOCH_DAY) * SECS_PER_DAY + tod;
        match chrono_from_local(l, tz) {
            Some(q) => if q.0 == q.2 {
                Ok(Time { s: q.0, ns: p.6, tz })
            } else {
                Err(Error::InvalidLocalDateTime("no single representation".to_owned()))
            },
            None => Err(Error::InvalidLocalDateTime("no single representation".to_owned())),
        }
    }

    /// The instant of the local date and time `d` in `tz`, where it stands
    /// for exactly one instant.
    pub fn from_local_datetime(d: NaiveDateTime, tz: Tz) -> (r: Result<Time>)
        ensures
            ({
                let p = naive_datetime_fields(d);
                &&& r is Ok <==> date_holds_times((p.0, p.1, p.2)) && p.6 < NANOS_PER_SEC
                    && unique_instant(
                    local_instant((p.0, p.1, p.2), tod_of(p.3 as int, p.4 as int, p.5 as int)),
                    tz,
                ) is Some
                &&& r matches Ok(t) ==> t@ == (
                    unique_instant(
                        local_instant((p.0, p.1, p.2), tod_of(p.3 as int, p.4 as int, p.5 as int)),
                        tz,
                    ).unwrap(),
                    p.6,
                ) && t.zone() == tz
            }),
    {
        Time::from_local_fields(chrono_datetime_fields(&d), tz)
    }

    /// The instant of the local date and time read from `s` with the format
    /// string `fmt`, in `tz`.
    pub fn from_local_datetime_fmt(s: &str, fmt: &str, tz: Tz) -> (r: Result<Time>)
        ensures
            datetime_parse(s@, fmt@) is None ==> r matches Err(Error::ChronoParse(_)),
            datetime_parse(s@, fmt@) matches Some(p) ==> (r is Ok <==> date_holds_times(
                (p.0, p.1, p.2),
            ) && p.6 < NANOS_PER_SEC && unique_instant(
                local_instant((p.0, p.1, p.2), tod_of(p.3 as int, p.4 as int, p.5 as int)),
                tz,
            ) is Some),
            datetime_parse(s@, fmt@) matches Some(p) ==> (r matches Ok(t) ==> t@ == (
                unique_instant(
                    local_instant((p.0, p.1, p.2), tod_of(p.3 as int, p.4 as int, p.5 as int)),
                    tz,
                ).unwrap(),
                p.6,
            ) && t.zone() == tz),
    {
        match chrono_parse_datetime(s, fmt) {
            Ok(p) => Time::from_local_fields(p, tz),
            Err(e) => Err(Error::ChronoParse(e)),
        }
    }

    /// The instant of the local date and time read from `s` in the local
    /// format (`LOCAL_FMT`), in `tz`.
    pub fn from_local(s: &str, tz: Tz) -> (r: Result<Time>)
        ensures
            datetime_parse(s@, LOCAL_FMT@) is None ==> r matches Err(Error::ChronoParse(_)),
            datetime_parse(s@, LOCAL_FMT@) matches Some(p) ==> (r is Ok <==> date_holds_times(
                (p.0, p.1, p.2),
            ) && p.6 < NANOS_PER_SEC && unique_instant(
                local_instant((p.0, p.1, p.2), tod_of(p.3 as int, p.4 as int, p.5 as int)),
                tz,
            ) is Some),
            datetime_parse(s@, LOCAL_FMT@) matches Some(p) ==> (r matches Ok(t) ==> t@ == (
                unique_instant(
                    local_instant((p.0, p.1, p.2), tod_of(p.3 as int, p.4 as int, p.5 as int)),
                    tz,
                ).unwrap(),
                p.6,
            ) && t.zone() == tz),
    {
        Time::from_local_datetime_fmt(s, LOCAL_FMT, tz)
    }

    /// The instant written in RFC 3339 in `s`, seen in `tz`.
    pub fn from_local_iso(s: &str, tz: Tz) -> (r: Result<Time>)
        ensures
            match rfc3339_parse(s@) {
                Some(p) => if instant_ok(p.0 as int) && p.1 < NANOS_PER_SEC {
                    r is Ok && r.unwrap()@ == p && r.unwrap().zone() == tz
                } else {
                    r matches Err(Error::OutOfRange(_))
                },
                None => r matches Err(Error::ChronoParse(_)),
            },
    {
        match chrono_parse_rfc3339(s) {
            Ok((secs, ns)) => if secs < MIN_INSTANT || secs >= MAX_INSTANT || ns >= NANOS_PER_SEC {
                Err(Error::OutOfRange("instant out of range".to_owned()))
            } else {
                Ok(Time::from_utc_timestamp(secs, ns, tz))
            },
            Err(e) => Err(Error::ChronoParse(e)),
        }
    }

    /// The first instant of the date read from `s` with the format string
    /// `fmt`, in `tz` (see `day_start`).
    pub fn from_local_date_fmt(s: &str, fmt: &str, tz: Tz) -> (r: Result<Time>)
        ensures
            date_parse(s@, fmt@) is None ==> r matches Err(Error::ChronoParse(_)),
            date_parse(s@, fmt@) matches Some(t) ==> (r is Ok <==> date_holds_times(t) && day_start(
                t,
                tz,
            ) is Some),
            date_parse(s@, fmt@) matches Some(t) ==> (r matches Ok(x) ==> x@ == (
                day_start(t, tz).unwrap(),
                0u32,
            ) && x.zone() == tz),
    {
        let d = match Date::from_fmt(s, fmt, tz) {
            Ok(d) => d,
            Err(e) => {
                return Err(e);
            },
        };
        proof {
            use_type_invariant(&d);
        }
        let dn: i32 = chrono_days_from_ce(d.year(), d.month(), d.day());
        if dn < MIN_DAY_FROM_CE || dn > MAX_DAY_FROM_CE {
            return Err(Error::OutOfRange("date too close to the ends of the calendar".to_owned()));
        }
        proof {
            lemma_bounds();
        }
        match Time::try_from_date(d) {
            Some(t) => Ok(t),
            None => Err(Error::InvalidLocalDateTime("no time on this date".to_owned())),
        }
    }

    /// The first instant of the date read from `s` with the format string
    /// `fmt`, in `tz`.
    pub fn from_ymd_fmt(s: &str, fmt: &str, tz: Tz) -> (r: Result<Time>)
        ensures
            date_parse(s@, fmt@) is None ==> r matches Err(Error::ChronoParse(_)),
            date_parse(s@, fmt@) matches Some(t) ==> (r is Ok <==> date_holds_times(t) && day_start(
                t,
                tz,
            ) is Some),
            date_parse(s@, fmt@) matches Some(t) ==> (r matches Ok(x) ==> x@ == (
                day_start(t, tz).unwrap(),
                0u32,
            ) && x.zone() == tz),
    {
        Time::from_local_date_fmt(s, fmt, tz)
    }

    /// The first instant of the date read from `s` as `%Y-%m-%d`, or else as
    /// `%Y/%m/%d`, in `tz`.
    pub fn from_ymd(s: &str, tz: Tz) -> (r: Result<Time>)
        ensures
            match day_start_of_text(s@, "%Y-%m-%d"@, tz) {
                Some(x) => r is Ok && r.unwrap()@ == (x, 0u32) && r.unwrap().zone() == tz,
                None => match day_start_of_text(s@, "%Y/%m/%d"@, tz) {
                    Some(x) => r is Ok && r.unwrap()@ == (x, 0u32) && r.unwrap().zone() == tz,
                    None => r is Err,
                },
            },
    {
        match Time::from_local_date_fmt(s, "%Y-%m-%d", tz) {
            Ok(t) => Ok(t),
            Err(_) => Time::from_local_date_fmt(s, "%Y/%m/%d", tz),
        }
    }

    /// This instant in RFC 3339, with the zone's offset.
    pub fn to_iso(&self) -> (r: String)
        ensures
            r@ == rfc3339_text(self@.0 as int, self@.1 as int, self.zone()),
    {
        proof {
            use_type_invariant(self);
        }
        chrono_to_rfc3339(self.s, self.ns, self.tz)
    }

    /// This instant's local date and time in the local format (`LOCAL_FMT`).
    pub fn to_local(&self) -> (r: String)
        ensures
            time_format(self@.0 as int, self@.1 as int, self.zone(), LOCAL_FMT@) == Some(r@),
    {
        proof {
            use_type_invariant(self);
        }
        chrono_format_time(self.s, self.ns, self.tz, LOCAL_FMT).unwrap()
    }

    /// This instant written with the chrono format string `f`; `None` where
    /// chrono cannot write it.
    pub fn format(&self, f: &str) -> (r: Option<String>)
        ensures
            match r {
                Some(t) => time_format(self@.0 as int, self@.1 as int, self.zone(), f@) == Some(t@),
                None => time_format(self@.0 as int, self@.1 as int, self.zone(), f@) is None,
            },
    {
        proof {
            use_type_invariant(self);
        }
        chrono_format_time(self.s, self.ns, self.tz, f)
    }

    /// Reads a time written as its local date and time in the local format,
    /// white space and the name of its time zone, as in
    /// `2018-01-30T06:04:57 Australia/Sydney`.
    pub fn from_serialized(s: &str) -> (r: Result<Time>)
        ensures
            match serialized_time(s@) {
                Some(p) => match local_text_instant(p.0, p.1) {
                    Some(x) => r is Ok && r.unwrap()@ == x && r.unwrap().zone() == p.1,
                    None => r is Err,
                },
                None => r is Err,
            },
    {
        let (a, b) = match find_word(s, 0) {
            Some(w) => w,
            None => {
                return Err(Error::Custom("missing timestamp".to_owned()));
            },
        };
        let (c, d) = match find_word(s, b) {
            Some(w) => w,
            None => {
                return Err(Error::Custom("missing timezone".to_owned()));
            },
        };
        let tz = match tz_from_name(s.substring_char(c, d)) {
            Some(tz) => tz,
            None => {
                return Err(Error::TimeZoneParse("unknown time zone".to_owned()));
            },
        };
        Time::from_local(s.substring_char(a, b), tz)
    }

    /// The time written as its local date and time in the local format, a
    /// space and the name of its time zone.
    pub fn to_serialized(&self) -> (r: String)
        ensures
            r@ == time_format(self@.0 as int, self@.1 as int, self.zone(), LOCAL_FMT@).unwrap()
                + " "@ + zone_name(self.zone()),
    {
        let mut out = self.to_local();
        push_text(&mut out, " ");
        push_text(&mut out, tz_name(self.tz));
        out
    }

    /// The time the step `st` makes of this one.
    pub fn apply_step(self, st: TimeStep) -> (r: Time)
        requires
            step_ok(self, st),
        ensures
            step_holds(self, st, r),
    {
        match st {
            TimeStep::AddHours(n) => self.add_hours(n),
            TimeStep::AddMins(n) => self.add_mins(n),
            TimeStep::AddSecs(n) => self.add_secs(n),
            TimeStep::AddMillis(n) => self.add_millis(n),
            TimeStep::AddMicros(n) => self.add_micros(n),
            TimeStep::AddNanos(n) => self.add_nanos(n),
            TimeStep::SetHour(h) => self.with_hour(h),
            TimeStep::SetMin(m) => self.with_min(m),
            TimeStep::SetSec(sec) => self.with_sec(sec),
            TimeStep::SetMillis(ms) => self.with_millis(ms),
            TimeStep::SetMicros(us) => self.with_micros(us),
            TimeStep::SetNanos(ns) => self.with_nanos(ns),
            TimeStep::OnDate(op) => {
                let d = self.date();
                let nd = d.apply(op);
                assert(dop_holds(self.local_date(), op@.0, op@.1, nd@));
                self.with_date(nd)
            },
        }
    }
}

impl Time {
    /// The local date of this time holds wall-clock times.
    fn day_holds_local_times(&self) -> (r: bool)
        ensures
            r == day_holds_times(self.local_day()),
    {
        let d = self.date();
        match d.time() {
            Err(Error::OutOfRange(_)) => false,
            _ => true,
        }
    }

    /// This time's wall-clock time on the date the operation `op` makes of
    /// its local date, where the operation can be applied and the time moved
    /// there.
    fn try_on_date(self, op: DateOp) -> (r: Option<Time>)
        ensures
            match step_view(self, TimeStep::OnDate(op)) {
                Some(v) => r matches Some(x) && x@ == v && x.zone() == self.zone() && step_holds(
                    self,
                    TimeStep::OnDate(op),
                    x,
                ),
                None => r is None,
            },
    {
        let d = self.date();
        let st = TimeStep::OnDate(op);
        match op.try_apply(d) {
            None => None,
            Some(nd) => {
                proof {
                    use_type_invariant(&nd);
                    assert forall|rd: (i32, u32, u32)|
                        #[trigger] dop_holds(self.local_date(), op@.0, op@.1, rd) implies rd
                        == nd@ by {
                        lemma_dop_holds_unique(self.local_date(), op@.0, op@.1, rd, nd@);
                    }
                }
                let holds = match nd.time() {
                    Err(Error::OutOfRange(_)) => false,
                    _ => true,
                };
                if !holds {
                    assert(!self.movable_to(nd@));
                    return None;
                }
                let r = self.try_with_date(nd);
                proof {
                    if r is Some {
                        assert(step_ok(self, st));
                        assert(dop_holds(self.local_date(), op@.0, op@.1, nd@));
                    } else {
                        assert(!self.movable_to(nd@));
                    }
                }
                r
            },
        }
    }

    /// The instant `dn` nanoseconds later, where it is in range.
    fn try_shifted(self, dn: i128) -> (r: Option<Time>)
        requires
            -1000000000000000000000000000000000 <= dn <= 1000000000000000000000000000000000,
        ensures
            instant_ok(shift_instant(self@, dn as int).0) ==> (r matches Some(x) && x@.0
                == shift_instant(self@, dn as int).0 && x@.1 == shift_instant(self@, dn as int).1
                && x.zone() == self.zone()),
            !instant_ok(shift_instant(self@, dn as int).0) ==> r is None,
    {
        proof {
            use_type_invariant(&self);
        }
        let total: i128 = (self.s as i128) * 1000000000 + (self.ns as i128) + dn;
        let sec: i128 = total.checked_div_euclid(1000000000).unwrap();
        if (MIN_INSTANT as i128) <= sec && sec < (MAX_INSTANT as i128) {
            Some(self.shifted(dn))
        } else {
            None
        }
    }

    /// The time the step `st` makes of this one, where it can be taken.
    pub fn try_apply_step(self, st: TimeStep) -> (r: Option<Time>)
        ensures
            match step_view(self, st) {
                Some(v) => r matches Some(x) && x@ == v && x.zone() == self.zone() && step_holds(
                    self,
                    st,
                    x,
                ),
                None => r is None,
            },
    {
        proof {
            use_type_invariant(&self);
        }
        match st {
            TimeStep::AddHours(n) => self.try_shifted((n as i128) * 3600000000000),
            TimeStep::AddMins(n) => self.try_shifted((n as i128) * 60000000000),
            TimeStep::AddSecs(n) => self.try_shifted((n as i128) * 1000000000),
            TimeStep::AddMillis(n) => self.try_shifted((n as i128) * 1000000),
            TimeStep::AddMicros(n) => self.try_shifted((n as i128) * 1000),
            TimeStep::AddNanos(n) => self.try_shifted(n as i128),
            TimeStep::OnDate(op) => self.try_on_date(op),
            _ => {
                if !self.day_holds_local_times() {
                    return None;
                }
                let (h, mi, sec) = self.clock();
                let (tod, ns): (i64, u32) = match st {
                    TimeStep::SetHour(nh) => {
                        let hh: i64 = if nh > 23 {
                            23
                        } else {
                            nh as i64
                        };
                        (hh * 3600 + mi * 60 + sec, self.ns)
                    },
                    TimeStep::SetMin(nm) => {
                        let mm: i64 = if nm > 59 {
                            59
                        } else {
                            nm as i64
                        };
                        (h * 3600 + mm * 60 + sec, self.ns)
                    },
                    TimeStep::SetSec(ns2) => {
                        let ss: i64 = if ns2 > 59 {
                            59
                        } else {
                            ns2 as i64
                        };
                        (h * 3600 + mi * 60 + ss, self.ns)
                    },
                    TimeStep::SetMillis(ms) => {
                        if ms >= 1000 {
                            return None;
                        }
                        (h * 3600 + mi * 60 + sec, ms * 1000000)
                    },
                    TimeStep::SetMicros(us) => {
                        if us >= 1000000 {
                            return None;
                        }
                        (h * 3600 + mi * 60 + sec, us * 1000)
                    },
                    TimeStep::SetNanos(n) => {
                        if n >= 1000000000 {
                            return None;
                        }
                        (h * 3600 + mi * 60 + sec, n)
                    },
                    _ => (0, 0),
                };
                let r = self.try_with_time_of_day(tod, ns);
                proof {
                    if r is Some {
                        assert(step_ok(self, st));
                    }
                }
                r
            },
        }
    }
}

impl Date {
    /// The instant of the local time `hour:min:sec` on this date, where that
    /// local time stands for exactly one instant.
    pub fn and_hms(&self, hour: u32, min: u32, sec: u32) -> (r: Result<Time>)
        ensures
            !(hour < 24 && min < 60 && sec < 60) ==> r == Err::<Time, Error>(
                Error::InvalidTimeComponents,
            ),
            hour < 24 && min < 60 && sec < 60 && !date_holds_times(self@) ==> r matches Err(
                Error::OutOfRange(_),
            ),
            hour < 24 && min < 60 && sec < 60 && date_holds_times(self@) ==> match unique_instant(
                local_instant(self@, tod_of(hour as int, min as int, sec as int)),
                self.zone(),
            ) {
                Some(s) => r is Ok && r.unwrap()@ == (s, 0u32) && r.unwrap().zone() == self.zone(),
                None => r matches Err(Error::InvalidLocalDateTime(_)),
            },
    {
        if !(hour < 24 && min < 60 && sec < 60) {
            return Err(Error::InvalidTimeComponents);
        }
        proof {
            use_type_invariant(self);
            lemma_bounds();
        }
        let (dy, dm, ddd) = (self.year(), self.month(), self.day());
        let dn: i32 = chrono_days_from_ce(dy, dm, ddd);
        proof {
            assert(self@ == (dy, dm, ddd));
        }
        if dn < MIN_DAY_FROM_CE || dn > MAX_DAY_FROM_CE {
            return Err(Error::OutOfRange("date too close to the ends of the calendar".to_owned()));
        }
        let tod: i64 = (hour as i64) * 3600 + (min as i64) * 60 + (sec as i64);
        let l: i64 = ((dn as i64) - 1 - UNIX_EPOCH_DAY) * SECS_PER_DAY + tod;
        let tz = self.tz();
        match chrono_from_local(l, tz) {
            Some(q) => if q.0 == q.2 {
                Ok(Time { s: q.0, ns: 0, tz })
            } else {
                Err(Error::InvalidLocalDateTime("no single representation".to_owned()))
            },
            None => Err(Error::InvalidLocalDateTime("no single representation".to_owned())),
        }
    }

    /// The instant of local midnight on this date, where it stands for
    /// exactly one instant.
    pub fn time(&self) -> (r: Result<Time>)
        ensures
            !date_holds_times(self@) ==> r matches Err(Error::OutOfRange(_)),
            date_holds_times(self@) ==> match unique_instant(local_instant(self@, 0), self.zone()) {
                Some(s) => r is Ok && r.unwrap()@ == (s, 0u32) && r.unwrap().zone() == self.zone(),
                None => r matches Err(Error::InvalidLocalDateTime(_)),
            },
    {
        self.and_hms(0, 0, 0)
    }

}

impl AddSpecImpl<Duration> for Time {
    open spec fn obeys_add_spec() -> bool {
        true
    }

    open spec fn add_req(self, rhs: Duration) -> bool {
        decimal_sum(utc_dec_of(self@), rhs@) matches Some(v) && dec_instant(v) is Some
    }

    open spec fn add_spec(self, rhs: Duration) -> Time {
        let p = dec_instant(decimal_sum(utc_dec_of(self@), rhs@).unwrap()).unwrap();
        Time::at_instant(p.0, p.1, self)
    }
}

impl Add<Duration> for Time {
    type Output = Time;

    /// The instant `rhs` later, by way of decimal numbers of seconds.
    fn add(self, rhs: Duration) -> (r: Time) {
        let v = dec_add(self.utc_dec_parts(), rhs.parts()).unwrap();
        let t = Time::checked_from_utc_dec(v, self.tz).unwrap();
        proof {
            lemma_at_instant(t, self);
        }
        t
    }
}

impl SubSpecImpl<Duration> for Time {
    open spec fn obeys_sub_spec() -> bool {
        true
    }

    open spec fn sub_req(self, rhs: Duration) -> bool {
        decimal_difference(utc_dec_of(self@), rhs@) matches Some(v) && dec_instant(v) is Some
    }

    open spec fn sub_spec(self, rhs: Duration) -> Time {
        let p = dec_instant(decimal_difference(utc_dec_of(self@), rhs@).unwrap()).unwrap();
        Time::at_instant(p.0, p.1, self)
    }
}

impl Sub<Duration> for Time {
    type Output = Time;

    /// The instant `rhs` earlier, by way of decimal numbers of seconds.
    fn sub(self, rhs: Duration) -> (r: Time) {
        let v = dec_sub(self.utc_dec_parts(), rhs.parts()).unwrap();
        let t = Time::checked_from_utc_dec(v, self.tz).unwrap();
        proof {
            lemma_at_instant(t, self);
        }
        t
    }
}

impl SubSpecImpl<Time> for Time {
    open spec fn obeys_sub_spec() -> bool {
        true
    }

    open spec fn sub_req(self, rhs: Time) -> bool {
        decimal_difference(utc_dec_of(self@), utc_dec_of(rhs@)) matches Some(v)
            && decimal_product(v, (1i128, 0u32)) is Some
    }

    open spec fn sub_spec(self, rhs: Time) -> Duration {
        duration_of(
            normal_form(
                decimal_product(
                    decimal_difference(utc_dec_of(self@), utc_dec_of(rhs@)).unwrap(),
                    (1i128, 0u32),
                ).unwrap(),
            ),
        )
    }
}

impl Sub<Time> for Time {
    type Output = Duration;

    /// The length of time from `rhs` to this instant: the difference of the
    /// decimal numbers of seconds, times one second.
    fn sub(self, rhs: Time) -> (r: Duration) {
        let v = dec_sub(self.utc_dec_parts(), rhs.utc_dec_parts()).unwrap();
        let p = dec_mul(v, Duration::sec().parts()).unwrap();
        let r = Duration::from_parts(p);
        proof {
            lemma_duration_is_of_view(r);
        }
        r
    }
}

/// A time is the instant it holds in the zone it has.
proof fn lemma_at_instant(t: Time, base: Time)
    requires
        t.zone() == base.zone(),
    ensures
        t == Time::at_instant(t@.0, t@.1, base),
{
}

impl PartialEqSpecImpl for Time {
    open spec fn obeys_eq_spec() -> bool {
        true
    }

    /// Times are equal when they are the same instant, whatever their zones.
    open spec fn eq_spec(&self, other: &Self) -> bool {
        self@ == other@
    }
}

impl PartialEq for Time {
    fn eq(&self, other: &Self) -> (r: bool) {
        self.s == other.s && self.ns == other.ns
    }
}

/// `a` is an earlier instant than `b`.
pub open spec fn instant_lt(a: (i64, u32), b: (i64, u32)) -> bool {
    a.0 < b.0 || (a.0 == b.0 && a.1 < b.1)
}

/// How instants compare.
pub open spec fn instant_order(a: (i64, u32), b: (i64, u32)) -> Ordering {
    if instant_lt(a, b) {
        Ordering::Less
    } else if a == b {
        Ordering::Equal
    } else {
        Ordering::Greater
    }
}

impl PartialOrdSpecImpl for Time {
    open spec fn obeys_partial_cmp_spec() -> bool {
        true
    }

    /// Times are ordered as the instants they are, whatever their zones.
    open spec fn partial_cmp_spec(&self, other: &Self) -> Option<Ordering> {
        Some(instant_order(self@, other@))
    }
}

impl PartialOrd for Time {
    fn partial_cmp(&self, other: &Self) -> (r: Option<Ordering>) {
        if self.s < other.s {
            Some(Ordering::Less)
        } else if self.s > other.s {
            Some(Ordering::Greater)
        } else if self.ns < other.ns {
            Some(Ordering::Less)
        } else if self.ns > other.ns {
            Some(Ordering::Greater)
        } else {
            Some(Ordering::Equal)
        }
    }
}

impl Default for Time {
    /// The start of Unix time, in UTC.
    fn default() -> (r: Self)
        ensures
            r@ == (0i64, 0u32),
    {
        Time::zero(utc())
    }
}

impl EndpointConversion for Time {
    /// An open endpoint a nanosecond before (on the left) or after (on the
    /// right) holds the same instants as a closed one here.
    open spec fn open_value(&self, side: EndpointSide) -> Option<Self> {
        let dn = match side {
            EndpointSide::Left => -1int,
            EndpointSide::Right => 1int,
        };
        let p = shift_instant(self@, dn);
        if instant_ok(p.0) {
            Some(Time::at_instant(p.0 as i64, p.1 as u32, *self))
        } else {
            None
        }
    }

    /// A closed endpoint a nanosecond after (on the left) or before (on the
    /// right) holds the same instants as an open one here.
    open spec fn closed_value(&self, side: EndpointSide) -> Option<Self> {
        let dn = match side {
            EndpointSide::Left => 1int,
            EndpointSide::Right => -1int,
        };
        let p = shift_instant(self@, dn);
        if instant_ok(p.0) {
            Some(Time::at_instant(p.0 as i64, p.1 as u32, *self))
        } else {
            None
        }
    }

    fn to_open(&self, side: EndpointSide) -> (r: Option<Self>) {
        let dn: i64 = match side {
            EndpointSide::Left => -1,
            EndpointSide::Right => 1,
        };
        self.nudged(dn)
    }

    fn to_closed(&self, side: EndpointSide) -> (r: Option<Self>) {
        let dn: i64 = match side {
            EndpointSide::Left => 1,
            EndpointSide::Right => -1,
        };
        self.nudged(dn)
    }
}

impl Time {
    /// The instant `dn` nanoseconds later, where it is in range.
    fn nudged(&self, dn: i64) -> (r: Option<Time>)
        requires
            dn == 1 || dn == -1,
        ensures
            r == (if instant_ok(shift_instant(self@, dn as int).0) {
                Some(
                    Time::at_instant(
                        shift_instant(self@, dn as int).0 as i64,
                        shift_instant(self@, dn as int).1 as u32,
                        *self,
                    ),
                )
            } else {
                None
            }),
    {
        proof {
            use_type_invariant(self);
        }
        let total: i128 = (self.s as i128) * 1000000000 + (self.ns as i128) + (dn as i128);
        let s: i128 = total.checked_div_euclid(1000000000).unwrap();
        let ns: i128 = total.checked_rem_euclid(1000000000).unwrap();
        if s < MIN_INSTANT as i128 || s >= MAX_INSTANT as i128 {
            None
        } else {
            Some(Time { s: s as i64, ns: ns as u32, tz: self.tz })
        }
    }
}

/// The earlier instant the local time `h:mi:sec` on the date `(y, m, d)`
/// stands for in `tz`; `None` where it falls in a gap.
pub fn try_ymdhms(y: i32, m: u32, d: u32, h: u32, mi: u32, sec: u32, tz: Tz) -> (r: Option<Time>)
    requires
        valid_ymd(y as int, m as int, d as int),
        date_holds_times((y, m, d)),
        h < 24 && mi < 60 && sec < 60,
    ensures
        match local_fit(local_instant((y, m, d), tod_of(h as int, mi as int, sec as int)), tz) {
            Some(q) => r is Some && r.unwrap()@ == (q.0, 0u32) && r.unwrap().zone() == tz,
            None => r is None,
        },
{
    proof {
        lemma_bounds();
    }
    let dn: i32 = chrono_days_from_ce(y, m, d);
    let tod: i64 = (h as i64) * 3600 + (mi as i64) * 60 + (sec as i64);
    let l: i64 = ((dn as i64) - 1 - UNIX_EPOCH_DAY) * SECS_PER_DAY + tod;
    match chrono_from_local(l, tz) {
        Some(q) => Some(Time { s: q.0, ns: 0, tz }),
        None => None,
    }
}

/// The earlier instant the local time `h:mi:sec` on the date `(y, m, d)`
/// stands for in `tz`.
pub fn ymdhms(y: i32, m: u32, d: u32, h: u32, mi: u32, sec: u32, tz: Tz) -> (r: Time)
    requires
        valid_ymd(y as int, m as int, d as int),
        date_holds_times((y, m, d)),
        h < 24 && mi < 60 && sec < 60,
        local_fit(local_instant((y, m, d), tod_of(h as int, mi as int, sec as int)), tz) is Some,
    ensures
        r@ == (
            local_fit(local_instant((y, m, d), tod_of(h as int, mi as int, sec as int)), tz).unwrap().0,
            0u32,
        ),
        r.zone() == tz,
{
    try_ymdhms(y, m, d, h, mi, sec, tz).unwrap()
}

/// Moving an instant by a number of nanoseconds and back by the same number
/// gives the instant again.
pub proof fn lemma_shift_back(t: (i64, u32), dn: int)
    requires
        t.1 < NANOS_PER_SEC,
        instant_ok(shift_instant(t, dn).0),
    ensures
        shift_instant(
            (shift_instant(t, dn).0 as i64, shift_instant(t, dn).1 as u32),
            -dn,
        ) == (t.0 as int, t.1 as int),
{
    let n = NANOS_PER_SEC as int;
    let total = t.0 * n + t.1 + dn;
    let q = total / n;
    let r = total % n;
    lemma_fundamental_div_mod(total, n);
    assert(q * n + r == total);
    lemma_fundamental_div_mod_converse(q * n + r - dn, n, t.0 as int, t.1 as int);
}

/// The nanoseconds since the start of Unix time of the instant `t`.
pub open spec fn nanos_of(t: (i64, u32)) -> int {
    t.0 * NANOS_PER_SEC + t.1
}

/// A step that moves a time by a length of time moves it by exactly that
/// many nanoseconds of real time, whatever the zone's offsets do, and keeps
/// its zone: an hour later is 3600 seconds later, across a change of
/// offset too.
pub proof fn lemma_step_elapsed(t: Time, st: TimeStep, r: Time)
    requires
        step_holds(t, st, r),
    ensures
        r.zone() == t.zone(),
        st matches TimeStep::AddHours(n) ==> nanos_of(r@) - nanos_of(t@) == n * 3600 * NANOS_PER_SEC,
        st matches TimeStep::AddMins(n) ==> nanos_of(r@) - nanos_of(t@) == n * 60 * NANOS_PER_SEC,
        st matches TimeStep::AddSecs(n) ==> nanos_of(r@) - nanos_of(t@) == n * NANOS_PER_SEC,
        st matches TimeStep::AddMillis(n) ==> nanos_of(r@) - nanos_of(t@) == n * 1000000,
        st matches TimeStep::AddMicros(n) ==> nanos_of(r@) - nanos_of(t@) == n * 1000,
        st matches TimeStep::AddNanos(n) ==> nanos_of(r@) - nanos_of(t@) == n,
{
    let n = NANOS_PER_SEC as int;
    let dn: int = match st {
        TimeStep::AddHours(k) => k * 3600 * NANOS_PER_SEC,
        TimeStep::AddMins(k) => k * 60 * NANOS_PER_SEC,
        TimeStep::AddSecs(k) => k * NANOS_PER_SEC,
        TimeStep::AddMillis(k) => k * 1000000,
        TimeStep::AddMicros(k) => k * 1000,
        TimeStep::AddNanos(k) => k as int,
        _ => 0,
    };
    let total = t@.0 * n + t@.1 + dn;
    lemma_fundamental_div_mod(total, n);
}

/// Turning a closed endpoint at a time into an open one and back gives the
/// time again.
pub proof fn lemma_time_endpoint_round_trip(t: Time, side: EndpointSide)
    requires
        instant_ok(t@.0 as int),
        t@.1 < NANOS_PER_SEC,
        t.open_value(side) is Some,
    ensures
        t.open_value(side).unwrap().closed_value(side) == Some(t),
{
    let dn = match side {
        EndpointSide::Left => -1int,
        EndpointSide::Right => 1int,
    };
    lemma_shift_back(t@, dn);
    let p = shift_instant(t@, dn);
    let u = Time::at_instant(p.0 as i64, p.1 as u32, t);
    assert(u@ == (p.0 as i64, p.1 as u32));
    assert(Time::at_instant(t@.0, t@.1, u) == t);
}

/// The instant bounds in terms of the ends of the calendar.
proof fn lemma_bounds()
    ensures
        MIN_INSTANT == (day_number(first_date()) - UNIX_EPOCH_DAY + 1) * SECS_PER_DAY,
        MAX_INSTANT == (day_number(last_date()) - UNIX_EPOCH_DAY) * SECS_PER_DAY,
{
    assert(day_number(first_date()) == -95746130);
    assert(day_number(last_date()) == 95745398);
}

/// A local time splits into its day and its seconds after midnight.
proof fn lemma_local_split(t: (i32, u32, u32), tod: int, local: int)
    requires
        local_instant(t, tod) == local,
        0 <= tod < SECS_PER_DAY,
    ensures
        day_number(t) == local / (SECS_PER_DAY as int) + UNIX_EPOCH_DAY,
        tod == local % (SECS_PER_DAY as int),
{
    lemma_fundamental_div_mod_converse(
        local,
        SECS_PER_DAY as int,
        day_number(t) - UNIX_EPOCH_DAY,
        tod,
    );
}

/// The hour, minute and second of a time of day are read back from its
/// seconds after midnight.
proof fn lemma_tod_parts(h: int, mi: int, sec: int)
    requires
        0 <= h < 24,
        0 <= mi < 60,
        0 <= sec < 60,
    ensures
        tod_of(h, mi, sec) / 3600 == h,
        tod_of(h, mi, sec) % 3600 / 60 == mi,
        tod_of(h, mi, sec) % 60 == sec,
{
    lemma_fundamental_div_mod_converse(tod_of(h, mi, sec), 3600, h, mi * 60 + sec);
    lemma_fundamental_div_mod_converse(mi * 60 + sec, 60, mi, sec);
    lemma_fundamental_div_mod_converse(tod_of(h, mi, sec), 60, h * 60 + mi, sec);
}

} // verus!
