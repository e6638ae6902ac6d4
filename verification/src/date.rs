use std::cmp::Ordering;
use std::fmt::Write;
use std::str::FromStr;

use chrono::{Datelike, Month, NaiveDate, TimeDelta};
use chrono_tz::Tz;
use num_traits::FromPrimitive;
use vstd::arithmetic::div_mod::{lemma_fundamental_div_mod, lemma_fundamental_div_mod_converse};
use vstd::prelude::*;
use vstd::string::StrSliceExecFns;
use vstd::std_specs::cmp::PartialOrdSpecImpl;

use crate::error::{Error, Result};
use crate::op::{dop_holds, dop_ok, DOp, DateOp};
use crate::parse::{find_word, push_text, word_from};
use crate::span::endpoint::{EndpointConversion, EndpointSide};

verus! {

/// `chrono_tz::Tz`, the time zone a date or time belongs to.
#[verifier::external_type_specification]
#[verifier::external_body]
pub struct ExTz(Tz);

/// `chrono::NaiveDate`, a calendar date without a time zone.
#[verifier::external_type_specification]
#[verifier::external_body]
pub struct ExNaiveDate(NaiveDate);

/// The first year a date can have.
pub const MIN_YEAR: i32 = -262143i32;

/// The last year a date can have.
pub const MAX_YEAR: i32 = 262142i32;

/// A year of the proleptic Gregorian calendar with a 29th of February.
pub open spec fn is_leap_year(y: int) -> bool {
    (y % 4 == 0 && y % 100 != 0) || y % 400 == 0
}

/// The number of days of month `m` of year `y`.
pub open spec fn days_in_month(y: int, m: int) -> int {
    if m == 2 {
        if is_leap_year(y) {
            29
        } else {
            28
        }
    } else if m == 4 || m == 6 || m == 9 || m == 11 {
        30
    } else {
        31
    }
}

/// `(y, m, d)` is a calendar date in the range dates can take.
pub open spec fn valid_ymd(y: int, m: int, d: int) -> bool {
    &&& MIN_YEAR <= y <= MAX_YEAR
    &&& 1 <= m <= 12
    &&& 1 <= d <= days_in_month(y, m)
}

/// The day `d` brought into month `m` of year `y`: at least the first and at
/// most the last day of the month.
pub open spec fn clamp_day(y: int, m: int, d: int) -> int {
    if d < 1 {
        1
    } else if d > days_in_month(y, m) {
        days_in_month(y, m)
    } else {
        d
    }
}

/// The number of days before the first of January of year `y`, counted from
/// the first of January of year 1.
pub open spec fn days_before_year(y: int) -> int {
    let p = y - 1;
    365 * p + p / 4 - p / 100 + p / 400
}

/// The number of days of year `y` before the first of month `m`.
pub open spec fn days_before_month(y: int, m: int) -> int {
    let base = if m <= 1 {
        0int
    } else if m == 2 {
        31
    } else if m == 3 {
        59
    } else if m == 4 {
        90
    } else if m == 5 {
        120
    } else if m == 6 {
        151
    } else if m == 7 {
        181
    } else if m == 8 {
        212
    } else if m == 9 {
        243
    } else if m == 10 {
        273
    } else if m == 11 {
        304
    } else {
        334
    };
    if m > 2 && is_leap_year(y) {
        base + 1
    } else {
        base
    }
}

/// The number of the day `(y, m, d)`: days since the first of January of
/// year 1, a Monday.
pub open spec fn day_number(t: (i32, u32, u32)) -> int {
    days_before_year(t.0 as int) + days_before_month(t.0 as int, t.1 as int) + t.2 - 1
}

/// The first date there is.
pub open spec fn first_date() -> (i32, u32, u32) {
    (MIN_YEAR, 1u32, 1u32)
}

/// The last date there is.
pub open spec fn last_date() -> (i32, u32, u32) {
    (MAX_YEAR, 12u32, 31u32)
}

/// A day number belongs to a date there is.
pub open spec fn day_in_range(k: int) -> bool {
    day_number(first_date()) <= k <= day_number(last_date())
}

/// The day of the week of a date, Monday being 0.
pub open spec fn weekday_of(t: (i32, u32, u32)) -> int {
    day_number(t) % 7
}

/// The calendar date after `t`.
pub open spec fn next_ymd(t: (i32, u32, u32)) -> (i32, u32, u32) {
    if t.2 < days_in_month(t.0 as int, t.1 as int) {
        (t.0, t.1, (t.2 + 1) as u32)
    } else if t.1 < 12 {
        (t.0, (t.1 + 1) as u32, 1u32)
    } else {
        ((t.0 + 1) as i32, 1u32, 1u32)
    }
}

/// The calendar date before `t`.
pub open spec fn prev_ymd(t: (i32, u32, u32)) -> (i32, u32, u32) {
    if t.2 > 1 {
        (t.0, t.1, (t.2 - 1) as u32)
    } else if t.1 > 1 {
        (t.0, (t.1 - 1) as u32, days_in_month(t.0 as int, t.1 - 1) as u32)
    } else {
        ((t.0 - 1) as i32, 12u32, 31u32)
    }
}

/// The English name of month `m`.
pub open spec fn month_name_of(m: int) -> Seq<char> {
    if m == 1 {
        "January"@
    } else if m == 2 {
        "February"@
    } else if m == 3 {
        "March"@
    } else if m == 4 {
        "April"@
    } else if m == 5 {
        "May"@
    } else if m == 6 {
        "June"@
    } else if m == 7 {
        "July"@
    } else if m == 8 {
        "August"@
    } else if m == 9 {
        "September"@
    } else if m == 10 {
        "October"@
    } else if m == 11 {
        "November"@
    } else {
        "December"@
    }
}

/// What chrono's `format` writes for the date `t` with the format string `f`,
/// or `None` where the format string holds an item it cannot write.
pub uninterp spec fn date_format(t: (i32, u32, u32), f: Seq<char>) -> Option<Seq<char>>;

/// The date chrono's `NaiveDate::parse_from_str` reads from `s` with the
/// format string `f`, if it reads one.
pub uninterp spec fn date_parse(s: Seq<char>, f: Seq<char>) -> Option<(i32, u32, u32)>;

/// `NaiveDate::from_ymd_opt`: `(y, m, d)` when it is a calendar date in range.
#[verifier::external_body]
fn chrono_from_ymd(y: i32, m: u32, d: u32) -> (r: Option<(i32, u32, u32)>)
    ensures
        r == (if valid_ymd(y as int, m as int, d as int) {
            Some((y, m, d))
        } else {
            None::<(i32, u32, u32)>
        }),
{
    match NaiveDate::from_ymd_opt(y, m, d) {
        Some(nd) => Some((nd.year(), nd.month(), nd.day())),
        None => None,
    }
}

/// `Datelike::with_day` on a `NaiveDate`: the date with its day changed, where
/// that date exists.
#[verifier::external_body]
fn chrono_with_day(y: i32, m: u32, d: u32, day: u32) -> (r: Option<(i32, u32, u32)>)
    requires
        valid_ymd(y as int, m as int, d as int),
    ensures
        r == (if valid_ymd(y as int, m as int, day as int) {
            Some((y, m, day))
        } else {
            None::<(i32, u32, u32)>
        }),
{
    match NaiveDate::from_ymd_opt(y, m, d).unwrap().with_day(day) {
        Some(nd) => Some((nd.year(), nd.month(), nd.day())),
        None => None,
    }
}

/// `Datelike::with_month` on a `NaiveDate`: the date with its month changed,
/// where that date exists.
#[verifier::external_body]
fn chrono_with_month(y: i32, m: u32, d: u32, month: u32) -> (r: Option<(i32, u32, u32)>)
    requires
        valid_ymd(y as int, m as int, d as int),
    ensures
        r == (if valid_ymd(y as int, month as int, d as int) {
            Some((y, month, d))
        } else {
            None::<(i32, u32, u32)>
        }),
{
    match NaiveDate::from_ymd_opt(y, m, d).unwrap().with_month(month) {
        Some(nd) => Some((nd.year(), nd.month(), nd.day())),
        None => None,
    }
}

/// `Datelike::with_year` on a `NaiveDate`: the date with its year changed,
/// where that date exists.
#[verifier::external_body]
fn chrono_with_year(y: i32, m: u32, d: u32, year: i32) -> (r: Option<(i32, u32, u32)>)
    requires
        valid_ymd(y as int, m as int, d as int),
    ensures
        r == (if valid_ymd(year as int, m as int, d as int) {
            Some((year, m, d))
        } else {
            None::<(i32, u32, u32)>
        }),
{
    match NaiveDate::from_ymd_opt(y, m, d).unwrap().with_year(year) {
        Some(nd) => Some((nd.year(), nd.month(), nd.day())),
        None => None,
    }
}

/// `NaiveDate::checked_add_signed` with a whole number of days: the date `n`
/// days after `(y, m, d)`, where it is in range.
#[verifier::external_body]
fn chrono_add_days(y: i32, m: u32, d: u32, n: i32) -> (r: Option<(i32, u32, u32)>)
    requires
        valid_ymd(y as int, m as int, d as int),
    ensures
        r is Some <==> day_in_range(day_number((y, m, d)) + n),
        r matches Some(t) ==> valid_date(t) && day_number(t) == day_number((y, m, d)) + n,
{
    let nd = NaiveDate::from_ymd_opt(y, m, d).unwrap();
    match nd.checked_add_signed(TimeDelta::days(n as i64)) {
        Some(nd) => Some((nd.year(), nd.month(), nd.day())),
        None => None,
    }
}

/// `NaiveDate::succ_opt`: the next calendar date, unless `(y, m, d)` is the
/// last date there is.
#[verifier::external_body]
fn chrono_succ(y: i32, m: u32, d: u32) -> (r: Option<(i32, u32, u32)>)
    requires
        valid_ymd(y as int, m as int, d as int),
    ensures
        r == (if (y, m, d) == last_date() {
            None::<(i32, u32, u32)>
        } else {
            Some(next_ymd((y, m, d)))
        }),
{
    match NaiveDate::from_ymd_opt(y, m, d).unwrap().succ_opt() {
        Some(nd) => Some((nd.year(), nd.month(), nd.day())),
        None => None,
    }
}

/// `NaiveDate::pred_opt`: the previous calendar date, unless `(y, m, d)` is
/// the first date there is.
#[verifier::external_body]
fn chrono_pred(y: i32, m: u32, d: u32) -> (r: Option<(i32, u32, u32)>)
    requires
        valid_ymd(y as int, m as int, d as int),
    ensures
        r == (if (y, m, d) == first_date() {
            None::<(i32, u32, u32)>
        } else {
            Some(prev_ymd((y, m, d)))
        }),
{
    match NaiveDate::from_ymd_opt(y, m, d).unwrap().pred_opt() {
        Some(nd) => Some((nd.year(), nd.month(), nd.day())),
        None => None,
    }
}

/// `Datelike::weekday` and `Weekday::num_days_from_monday`: the day of the
/// week, Monday being 0.
#[verifier::external_body]
fn chrono_weekday(y: i32, m: u32, d: u32) -> (r: u32)
    requires
        valid_ymd(y as int, m as int, d as int),
    ensures
        r == weekday_of((y, m, d)),
{
    NaiveDate::from_ymd_opt(y, m, d).unwrap().weekday().num_days_from_monday()
}

/// `Month::from_u32` and `Month::name`: the English name of month `m`.
#[verifier::external_body]
fn chrono_month_name(m: u32) -> (r: String)
    requires
        1 <= m <= 12,
    ensures
        r@ == month_name_of(m as int),
{
    Month::from_u32(m).unwrap().name().to_owned()
}

/// `NaiveDate::format` written out: what chrono writes for the format string
/// `f`, or `None` where chrono reports that it cannot write it.
#[verifier::external_body]
fn chrono_format(y: i32, m: u32, d: u32, f: &str) -> (r: Option<String>)
    requires
        valid_ymd(y as int, m as int, d as int),
    ensures
        match r {
            Some(s) => date_format((y, m, d), f@) == Some(s@),
            None => date_format((y, m, d), f@) is None && f@ != "%Y-%m-%d"@,
        },
{
    let mut s = String::new();
    match write!(s, "{}", NaiveDate::from_ymd_opt(y, m, d).unwrap().format(f)) {
        Ok(()) => Some(s),
        Err(_) => None,
    }
}

/// `NaiveDate::parse_from_str`: the date read from `s` with the format string
/// `f`, or chrono's message where it reads none.
#[verifier::external_body]
fn chrono_parse(s: &str, f: &str) -> (r: std::result::Result<(i32, u32, u32), String>)
    ensures
        match r {
            Ok(t) => date_parse(s@, f@) == Some(t) && valid_ymd(t.0 as int, t.1 as int, t.2 as int),
            Err(_) => date_parse(s@, f@) is None,
        },
{
    match NaiveDate::parse_from_str(s, f) {
        Ok(nd) => Ok((nd.year(), nd.month(), nd.day())),
        Err(e) => Err(e.to_string()),
    }
}

/// The zone that chrono-tz's `Tz::from_str` reads from the name `s`, if it
/// knows the name.
pub uninterp spec fn zone_named(s: Seq<char>) -> Option<Tz>;

/// The name chrono-tz's `Tz::name` gives the zone `tz`.
pub uninterp spec fn zone_name(tz: Tz) -> Seq<char>;

/// `Tz::from_str`: the zone of the IANA name `s`, if chrono-tz knows it.
#[verifier::external_body]
pub(crate) fn tz_from_name(s: &str) -> (r: Option<Tz>)
    ensures
        r == zone_named(s@),
{
    match Tz::from_str(s) {
        Ok(tz) => Some(tz),
        Err(_) => None,
    }
}

/// `Tz::name`: the IANA name of the zone, which `Tz::from_str` reads back as
/// the same zone.
#[verifier::external_body]
pub(crate) fn tz_name(tz: Tz) -> (r: &'static str)
    ensures
        r@ == zone_name(tz),
        zone_named(r@) == Some(tz),
{
    tz.name()
}

/// The year, month and day that `Datelike::year`, `month` and `day` give
/// for a `NaiveDate`.
pub uninterp spec fn naive_ymd(nd: NaiveDate) -> (i32, u32, u32);

/// The year, month and day of a `NaiveDate`, which is always a calendar date.
#[verifier::external_body]
fn chrono_parts(nd: &NaiveDate) -> (r: (i32, u32, u32))
    ensures
        r == naive_ymd(*nd),
        valid_ymd(r.0 as int, r.1 as int, r.2 as int),
{
    (nd.year(), nd.month(), nd.day())
}

/// The `NaiveDate` for a calendar date.
#[verifier::external_body]
fn chrono_naive(y: i32, m: u32, d: u32) -> (r: NaiveDate)
    requires
        valid_ymd(y as int, m as int, d as int),
    ensures
        naive_ymd(r) == (y, m, d),
{
    NaiveDate::from_ymd_opt(y, m, d).unwrap()
}

/// `chrono_tz::US::Eastern`: the zone chrono-tz reads from the name
/// "US/Eastern".
#[verifier::external_body]
pub(crate) fn us_eastern() -> (r: Tz)
    ensures
        zone_named("US/Eastern"@) == Some(r),
{
    chrono_tz::US::Eastern
}

/// `chrono_tz::UTC`: the zone chrono-tz reads from the name "UTC".
#[verifier::external_body]
pub(crate) fn utc() -> (r: Tz)
    ensures
        zone_named("UTC"@) == Some(r),
{
    chrono_tz::UTC
}

/// A day of the week, numbered from Monday as python's `datetime.weekday()`
/// and pandas number them.
#[derive(Debug, Eq, PartialEq, Structural, Hash, Copy, Clone, Ord, PartialOrd)]
pub enum Day {
    Mon,
    Tue,
    Wed,
    Thu,
    Fri,
    Sat,
    Sun,
}

/// The number of a day of the week, Monday being 0.
pub open spec fn day_index(d: Day) -> int {
    match d {
        Day::Mon => 0,
        Day::Tue => 1,
        Day::Wed => 2,
        Day::Thu => 3,
        Day::Fri => 4,
        Day::Sat => 5,
        Day::Sun => 6,
    }
}

/// A calendar date in a time zone.
#[derive(Debug, Eq, PartialEq, Hash, Copy, Clone)]
pub struct Date {
    y: i32,
    m: u32,
    d: u32,
    tz: Tz,
}

impl View for Date {
    type V = (i32, u32, u32);

    /// The year, month and day.
    closed spec fn view(&self) -> (i32, u32, u32) {
        (self.y, self.m, self.d)
    }
}

/// A valid date: a calendar date in range.
pub open spec fn valid_date(t: (i32, u32, u32)) -> bool {
    valid_ymd(t.0 as int, t.1 as int, t.2 as int)
}

/// `a` is on or before `b`.
pub open spec fn ymd_le(a: (i32, u32, u32), b: (i32, u32, u32)) -> bool {
    a.0 < b.0 || (a.0 == b.0 && (a.1 < b.1 || (a.1 == b.1 && a.2 <= b.2)))
}

/// `a` is before `b`.
pub open spec fn ymd_lt(a: (i32, u32, u32), b: (i32, u32, u32)) -> bool {
    ymd_le(a, b) && a != b
}

/// The date with its day moved into its month.
pub open spec fn with_day_spec(t: (i32, u32, u32), day: u32) -> (i32, u32, u32) {
    (t.0, t.1, clamp_day(t.0 as int, t.1 as int, day as int) as u32)
}

/// The date moved to month `m`, its day moved into that month.
pub open spec fn with_month_spec(t: (i32, u32, u32), m: u32) -> (i32, u32, u32) {
    (t.0, m, clamp_day(t.0 as int, m as int, t.2 as int) as u32)
}

/// The date moved to year `y`, its day moved into its month of that year.
pub open spec fn with_year_spec(t: (i32, u32, u32), y: i32) -> (i32, u32, u32) {
    (y, t.1, clamp_day(y as int, t.1 as int, t.2 as int) as u32)
}

/// The year and month (from 1) that lie `k` months after the month of `t`.
pub open spec fn month_shift(t: (i32, u32, u32), k: int) -> (int, int) {
    let total = t.1 - 1 + k;
    (total / 12 + t.0, total % 12 + 1)
}

/// The date `k` months after `t`, its day moved into that month.
pub open spec fn add_months_spec(t: (i32, u32, u32), k: int) -> (i32, u32, u32) {
    let (y, m) = month_shift(t, k);
    (y as i32, m as u32, clamp_day(y, m, t.2 as int) as u32)
}

/// Moving `t` by `k` months stays in the range of years, and its arithmetic
/// in `i32`.
pub open spec fn add_months_ok(t: (i32, u32, u32), k: int) -> bool {
    &&& i32::MIN <= t.1 - 1 + k <= i32::MAX
    &&& MIN_YEAR <= month_shift(t, k).0 <= MAX_YEAR
}

/// Moving `t` by `k` years stays in the range of years.
pub open spec fn add_years_ok(t: (i32, u32, u32), k: int) -> bool {
    MIN_YEAR <= t.0 + k <= MAX_YEAR
}

impl Date {
    /// Every date is a calendar date in range.
    #[verifier::type_invariant]
    pub open spec fn inv(self) -> bool {
        valid_date(self@)
    }

    /// The time zone of the date.
    pub closed spec fn zone(&self) -> Tz {
        self.tz
    }

    /// The date of a `NaiveDate` in the time zone `tz`.
    pub fn new(d: NaiveDate, tz: Tz) -> (r: Self)
        ensures
            r@ == naive_ymd(d),
            r.zone() == tz,
    {
        let (y, m, dd) = chrono_parts(&d);
        Self { y, m, d: dd, tz }
    }

    /// Formats the date with a chrono format string; `None` where chrono
    /// cannot write the format string.
    pub fn fmt(&self, f: &str) -> (r: Option<String>)
        ensures
            match r {
                Some(s) => date_format(self@, f@) == Some(s@),
                None => date_format(self@, f@) is None && f@ != "%Y-%m-%d"@,
            },
    {
        proof {
            use_type_invariant(self);
        }
        chrono_format(self.y, self.m, self.d, f)
    }

    /// Reads a date written as `%Y-%m-%d`.
    pub fn from_ymd(s: &str, tz: Tz) -> (r: Result<Self>)
        ensures
            match date_parse(s@, "%Y-%m-%d"@) {
                Some(t) => r is Ok && r.unwrap()@ == t && r.unwrap().zone() == tz,
                None => r matches Err(Error::ChronoParse(_)),
            },
    {
        Self::from_fmt(s, "%Y-%m-%d", tz)
    }

    /// Reads a date with a chrono format string.
    pub fn from_fmt(s: &str, fmt: &str, tz: Tz) -> (r: Result<Self>)
        ensures
            match date_parse(s@, fmt@) {
                Some(t) => r is Ok && r.unwrap()@ == t && r.unwrap().zone() == tz,
                None => r matches Err(Error::ChronoParse(_)),
            },
    {
        match chrono_parse(s, fmt) {
            Ok((y, m, d)) => Ok(Self { y, m, d, tz }),
            Err(e) => Err(Error::ChronoParse(e)),
        }
    }

    /// The `NaiveDate` of this date.
    pub fn inner(&self) -> (r: NaiveDate)
        ensures
            naive_ymd(r) == self@,
    {
        proof {
            use_type_invariant(self);
        }
        chrono_naive(self.y, self.m, self.d)
    }

    pub fn op(op: DOp, n: i64) -> (r: DateOp)
        ensures
            r@ == (op, n),
    {
        DateOp::new(op, n)
    }

    pub fn tz(&self) -> (r: Tz)
        ensures
            r == self.zone(),
    {
        self.tz
    }

    pub fn day(&self) -> (r: u32)
        ensures
            r == self@.2,
    {
        self.d
    }

    pub fn month0(&self) -> (r: u32)
        ensures
            r == self@.1 - 1,
    {
        proof {
            use_type_invariant(self);
        }
        self.m - 1
    }

    pub fn month(&self) -> (r: u32)
        ensures
            r == self@.1,
    {
        self.m
    }

    pub fn year(&self) -> (r: i32)
        ensures
            r == self@.0,
    {
        self.y
    }

    /// The date with the given day of its month, moved to the first or the last
    /// day of the month where the month has no such day.
    pub fn with_day(&self, d: u32) -> (r: Self)
        ensures
            r@ == with_day_spec(self@, d),
            r.zone() == self.zone(),
            valid_date(r@),
    {
        proof {
            use_type_invariant(self);
        }
        let ghost dim = days_in_month(self.y as int, self.m as int);
        let mut max: u32 = 31;
        loop
            invariant
                28 <= dim <= max <= 31,
                dim == days_in_month(self.y as int, self.m as int),
                valid_ymd(self.y as int, self.m as int, self.d as int),
            decreases max,
        {
            let c = if d < 1 {
                1
            } else if d > max {
                max
            } else {
                d
            };
            match chrono_with_day(self.y, self.m, self.d, c) {
                Some((y, m, dd)) => {
                    return Self { y, m, d: dd, tz: self.tz };
                },
                None => {},
            }
            max -= 1;
        }
    }

    /// The date `n` days later; `n` may be negative.
    pub fn add_days(&self, n: i32) -> (r: Self)
        requires
            day_in_range(day_number(self@) + n),
        ensures
            day_number(r@) == day_number(self@) + n,
            r.zone() == self.zone(),
            valid_date(r@),
    {
        proof {
            use_type_invariant(self);
        }
        let (y, m, d) = chrono_add_days(self.y, self.m, self.d, n).unwrap();
        Self { y, m, d, tz: self.tz }
    }

    pub fn weekday(&self) -> (r: Day)
        ensures
            day_index(r) == weekday_of(self@),
    {
        proof {
            use_type_invariant(self);
        }
        match chrono_weekday(self.y, self.m, self.d) {
            0 => Day::Mon,
            1 => Day::Tue,
            2 => Day::Wed,
            3 => Day::Thu,
            4 => Day::Fri,
            5 => Day::Sat,
            _ => Day::Sun,
        }
    }

    pub fn month_name(&self) -> (r: String)
        ensures
            r@ == month_name_of(self@.1 as int),
    {
        proof {
            use_type_invariant(self);
        }
        chrono_month_name(self.m)
    }

    /// The date in month `m` of its year, its day moved into that month.
    pub fn with_month(&self, m: u32) -> (r: Self)
        requires
            1 <= m <= 12,
        ensures
            r@ == with_month_spec(self@, m),
            r.zone() == self.zone(),
            valid_date(r@),
    {
        proof {
            use_type_invariant(self);
        }
        let d = self.day();
        let first = self.with_day(1);
        proof {
            use_type_invariant(&first);
        }
        let (y, mm, dd) = chrono_with_month(first.y, first.m, first.d, m).unwrap();
        let moved = Self { y, m: mm, d: dd, tz: self.tz };
        moved.with_day(d)
    }

    /// The date `add_m` months later, its day moved into that month.
    pub fn add_months(&self, add_m: i32) -> (r: Self)
        requires
            add_months_ok(self@, add_m as int),
        ensures
            r@ == add_months_spec(self@, add_m as int),
            r.zone() == self.zone(),
            valid_date(r@),
    {
        proof {
            use_type_invariant(self);
        }
        let d = self.day();
        let total_m = (self.month0() as i32) + add_m;
        let q = total_m.checked_div_euclid(12).unwrap();
        let y = q + self.year();
        let m = (total_m.checked_rem_euclid(12).unwrap() as u32) + 1;
        ymd(y, m, 1, self.tz()).with_day(d)
    }

    /// The date in year `y`, its day moved into its month of that year.
    pub fn with_year(&self, y: i32) -> (r: Self)
        requires
            MIN_YEAR <= y <= MAX_YEAR,
        ensures
            r@ == with_year_spec(self@, y),
            r.zone() == self.zone(),
            valid_date(r@),
    {
        proof {
            use_type_invariant(self);
        }
        let d = self.day();
        let first = self.with_day(1);
        proof {
            use_type_invariant(&first);
        }
        let (yy, m, dd) = chrono_with_year(first.y, first.m, first.d, y).unwrap();
        let moved = Self { y: yy, m, d: dd, tz: self.tz };
        moved.with_day(d)
    }

    /// The date `y` years later, its day moved into its month of that year.
    pub fn add_years(&self, y: i32) -> (r: Self)
        requires
            add_years_ok(self@, y as int),
        ensures
            r@ == with_year_spec(self@, (self@.0 + y) as i32),
            r.zone() == self.zone(),
            valid_date(r@),
    {
        self.with_year(self.year() + y)
    }

    pub fn apply(&self, op: DateOp) -> (r: Self)
        requires
            dop_ok(self@, op@.0, op@.1),
        ensures
            dop_holds(self@, op@.0, op@.1, r@),
            r.zone() == self.zone(),
            valid_date(r@),
    {
        op.apply(*self)
    }
}

/// The date `(y, m, d)` in the time zone `tz`.
pub fn ymd(y: i32, m: u32, d: u32, tz: Tz) -> (r: Date)
    requires
        valid_ymd(y as int, m as int, d as int),
    ensures
        r@ == (y, m, d),
        r.zone() == tz,
        valid_date(r@),
{
    let (yy, mm, dd) = chrono_from_ymd(y, m, d).unwrap();
    Date { y: yy, m: mm, d: dd, tz }
}

/// The date `(y, m, d)` in the time zone `tz`, where it is a calendar date in
/// range.
pub fn try_ymd(y: i32, m: u32, d: u32, tz: Tz) -> (r: Option<Date>)
    ensures
        valid_ymd(y as int, m as int, d as int) ==> r is Some && r.unwrap()@ == (y, m, d)
            && r.unwrap().zone() == tz,
        !valid_ymd(y as int, m as int, d as int) ==> r is None,
{
    match chrono_from_ymd(y, m, d) {
        Some((yy, mm, dd)) => Some(Date { y: yy, m: mm, d: dd, tz }),
        None => None,
    }
}

/// How dates compare: by year, then month, then day; the time zone plays no
/// part.
pub open spec fn ymd_order(a: (i32, u32, u32), b: (i32, u32, u32)) -> Ordering {
    if ymd_lt(a, b) {
        Ordering::Less
    } else if a == b {
        Ordering::Equal
    } else {
        Ordering::Greater
    }
}

impl PartialOrdSpecImpl for Date {
    open spec fn obeys_partial_cmp_spec() -> bool {
        true
    }

    open spec fn partial_cmp_spec(&self, other: &Self) -> Option<Ordering> {
        Some(ymd_order(self@, other@))
    }
}

impl PartialOrd for Date {
    fn partial_cmp(&self, other: &Self) -> (r: Option<Ordering>) {
        if self.y < other.y {
            Some(Ordering::Less)
        } else if self.y > other.y {
            Some(Ordering::Greater)
        } else if self.m < other.m {
            Some(Ordering::Less)
        } else if self.m > other.m {
            Some(Ordering::Greater)
        } else if self.d < other.d {
            Some(Ordering::Less)
        } else if self.d > other.d {
            Some(Ordering::Greater)
        } else {
            Some(Ordering::Equal)
        }
    }
}

/// The date `t` in the time zone of `base`.
pub closed spec fn date_in_zone(t: (i32, u32, u32), base: Date) -> Date {
    Date { y: t.0, m: t.1, d: t.2, tz: base.tz }
}

impl Date {
    /// The date at `t` in the time zone of this date.
    fn at(&self, t: (i32, u32, u32)) -> (r: Self)
        requires
            valid_date(t),
        ensures
            r == date_in_zone(t, *self),
            r@ == t,
    {
        Date { y: t.0, m: t.1, d: t.2, tz: self.tz }
    }
}

impl EndpointConversion for Date {
    /// An open endpoint at the day before (on the left) or after (on the
    /// right) holds the same days as a closed one at this day.
    open spec fn open_value(&self, side: EndpointSide) -> Option<Self> {
        match side {
            EndpointSide::Left => if self@ == first_date() {
                None
            } else {
                Some(date_in_zone(prev_ymd(self@), *self))
            },
            EndpointSide::Right => if self@ == last_date() {
                None
            } else {
                Some(date_in_zone(next_ymd(self@), *self))
            },
        }
    }

    /// A closed endpoint at the day after (on the left) or before (on the
    /// right) holds the same days as an open one at this day.
    open spec fn closed_value(&self, side: EndpointSide) -> Option<Self> {
        match side {
            EndpointSide::Left => if self@ == last_date() {
                None
            } else {
                Some(date_in_zone(next_ymd(self@), *self))
            },
            EndpointSide::Right => if self@ == first_date() {
                None
            } else {
                Some(date_in_zone(prev_ymd(self@), *self))
            },
        }
    }

    fn to_open(&self, side: EndpointSide) -> (r: Option<Self>) {
        proof {
            use_type_invariant(self);
        }
        let t = match side {
            EndpointSide::Left => chrono_pred(self.y, self.m, self.d),
            EndpointSide::Right => chrono_succ(self.y, self.m, self.d),
        };
        match t {
            Some(t) => {
                proof {
                    lemma_neighbours_valid(self@);
                }
                Some(self.at(t))
            },
            None => None,
        }
    }

    fn to_closed(&self, side: EndpointSide) -> (r: Option<Self>) {
        proof {
            use_type_invariant(self);
        }
        let t = match side {
            EndpointSide::Left => chrono_succ(self.y, self.m, self.d),
            EndpointSide::Right => chrono_pred(self.y, self.m, self.d),
        };
        match t {
            Some(t) => {
                proof {
                    lemma_neighbours_valid(self@);
                }
                Some(self.at(t))
            },
            None => None,
        }
    }
}


/// The days of year `y` all come before those of the next year, which is 365
/// or 366 days later.
pub proof fn lemma_year_length(y: int)
    ensures
        days_before_year(y + 1) - days_before_year(y) == (if is_leap_year(y) {
            366int
        } else {
            365int
        }),
{
    let p = y - 1;
    assert(y / 4 == p / 4 + (if y % 4 == 0 {
        1int
    } else {
        0int
    }));
    assert(y / 100 == p / 100 + (if y % 100 == 0 {
        1int
    } else {
        0int
    }));
    assert(y / 400 == p / 400 + (if y % 400 == 0 {
        1int
    } else {
        0int
    }));
    if y % 400 == 0 {
        lemma_fundamental_div_mod(y, 400);
        lemma_fundamental_div_mod_converse(y, 100, 4 * (y / 400), 0);
    }
    if y % 100 == 0 {
        lemma_fundamental_div_mod(y, 100);
        lemma_fundamental_div_mod_converse(y, 4, 25 * (y / 100), 0);
    }
}

/// Years start later the later they are.
pub proof fn lemma_years_ordered(y1: int, y2: int)
    requires
        y1 <= y2,
    ensures
        days_before_year(y1) <= days_before_year(y2),
    decreases y2 - y1,
{
    if y1 < y2 {
        lemma_year_length(y2 - 1);
        lemma_years_ordered(y1, y2 - 1);
    }
}

/// The number of a calendar date lies among the days of its year.
pub proof fn lemma_day_in_year(t: (i32, u32, u32))
    requires
        valid_date(t),
    ensures
        days_before_year(t.0 as int) <= day_number(t) < days_before_year(t.0 + 1),
{
    lemma_year_length(t.0 as int);
}

/// Dates are numbered in their order: the later of two dates has the larger
/// number.
pub proof fn lemma_day_number_ordered(a: (i32, u32, u32), b: (i32, u32, u32))
    requires
        valid_date(a),
        valid_date(b),
        ymd_lt(a, b),
    ensures
        day_number(a) < day_number(b),
{
    lemma_day_in_year(a);
    lemma_day_in_year(b);
    if a.0 < b.0 {
        lemma_years_ordered(a.0 + 1, b.0 as int);
    }
}

/// Two dates with the same number are the same date.
pub proof fn lemma_day_number_injective(a: (i32, u32, u32), b: (i32, u32, u32))
    requires
        valid_date(a),
        valid_date(b),
        day_number(a) == day_number(b),
    ensures
        a == b,
{
    if ymd_lt(a, b) {
        lemma_day_number_ordered(a, b);
    } else if ymd_lt(b, a) {
        lemma_day_number_ordered(b, a);
    }
}

/// The calendar dates next to a date are dates, except past the first and
/// the last date there is.
proof fn lemma_neighbours_valid(t: (i32, u32, u32))
    requires
        valid_date(t),
    ensures
        t != last_date() ==> valid_date(next_ymd(t)),
        t != first_date() ==> valid_date(prev_ymd(t)),
{
}

/// What reading a date from its serialized text gives: the date and the
/// zone named by the first two words of `s`.
pub open spec fn serialized_date(s: Seq<char>) -> Option<((i32, u32, u32), Tz)> {
    match word_from(s, 0) {
        Some(w1) => match word_from(s, w1.1) {
            Some(w2) => match zone_named(s.subrange(w2.0, w2.1)) {
                Some(tz) => match date_parse(s.subrange(w1.0, w1.1), "%Y-%m-%d"@) {
                    Some(t) => Some((t, tz)),
                    None => None,
                },
                None => None,
            },
            None => None,
        },
        None => None,
    }
}

impl Date {
    /// Reads a date written as `%Y-%m-%d`, white space and the name of its
    /// time zone, as in `2020-01-30 US/Eastern`.
    pub fn from_serialized(s: &str) -> (r: Result<Date>)
        ensures
            match serialized_date(s@) {
                Some(p) => r is Ok && r.unwrap()@ == p.0 && r.unwrap().zone() == p.1,
                None => r is Err,
            },
            word_from(s@, 0) is None ==> r matches Err(Error::Custom(_)),
    {
        let (a, b) = match find_word(s, 0) {
            Some(w) => w,
            None => {
                return Err(Error::Custom("missing date".to_owned()));
            },
        };
        let (c, d) = match find_word(s, b) {
            Some(w) => w,
            None => {
                return Err(Error::Custom("missing timezone".to_owned()));
            },
        };
        let tz = match tz_from_name(s.substring_char(c, d)) {
            Some(tz) => tz,
            None => {
                return Err(Error::TimeZoneParse("unknown time zone".to_owned()));
            },
        };
        Date::from_ymd(s.substring_char(a, b), tz)
    }

    /// The date written as `%Y-%m-%d`, a space and the name of its time zone.
    pub fn to_serialized(&self) -> (r: String)
        ensures
            r@ == date_format(self@, "%Y-%m-%d"@).unwrap() + " "@ + zone_name(self.zone()),
    {
        let mut out = self.fmt("%Y-%m-%d").unwrap();
        push_text(&mut out, " ");
        push_text(&mut out, tz_name(self.tz));
        out
    }
}

/// The date after the date before a date is that date, and the other way
/// round, away from the ends of the calendar.
pub proof fn lemma_next_prev_inverse(t: (i32, u32, u32))
    requires
        valid_date(t),
    ensures
        t != first_date() ==> next_ymd(prev_ymd(t)) == t,
        t != last_date() ==> prev_ymd(next_ymd(t)) == t,
{
}

/// Turning a closed endpoint at a date into an open one and back gives the
/// date again.
pub proof fn lemma_date_endpoint_round_trip(d: Date, side: EndpointSide)
    requires
        valid_date(d@),
        d.open_value(side) is Some,
    ensures
        d.open_value(side).unwrap().closed_value(side) == Some(d),
{
    lemma_next_prev_inverse(d@);
    lemma_neighbours_valid(d@);
}

impl Default for Date {
    /// The first of January 1970, in UTC.
    fn default() -> (r: Self)
        ensures
            r@ == (1970i32, 1u32, 1u32),
    {
        ymd(1970, 1, 1, utc())
    }
}

} // verus!
