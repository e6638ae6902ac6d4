use vstd::prelude::*;

use crate::span::exc::SpanExc;
use crate::time::{chrono_days_from_ce, step_holds, step_ok, Time};
use crate::date::{
    lemma_day_number_injective,
    add_months_ok, add_months_spec, add_years_ok, day_in_range, day_index, day_number, valid_date,
    weekday_of, with_day_spec, with_month_spec, with_year_spec, ymd_le, ymd_lt, Date, Day, MAX_YEAR,
    MIN_YEAR, first_date, last_date, month_shift,
};

verus! {

/// Operations on a time.
#[derive(Debug, Eq, PartialEq, Structural, Hash, Copy, Clone, Ord, PartialOrd)]
pub enum TOp {
    /// Advancing by |n| > 0 always moves to the next or previous such day, even
    /// when the current day is the one in question.
    AdvMon,
    AdvTue,
    AdvWed,
    AdvThu,
    AdvFri,
    AdvSat,
    AdvSun,
    AdvDay,
    AdvMonth,
    /// Finding is like advancing, but does not move when already on the given day.
    FindMon,
    FindTue,
    FindWed,
    FindThu,
    FindFri,
    FindSat,
    FindSun,
    FindDay,
    FindMonth,
    AddYears,
    AddMonths,
    AddDays,
    SetYear,
    SetMonth,
    SetDay,
    Nop,
    AddHours,
    AddMins,
    AddSecs,
    AddMillis,
    AddMicros,
    AddNanos,
    SetHour,
    SetMin,
    SetSec,
    SetMillis,
    SetMicros,
    SetNanos,
}

/// An operation on a time with its count: what to do, and how many times.
#[derive(Debug, Eq, PartialEq, Structural, Hash, Copy, Clone, Ord, PartialOrd)]
pub struct TimeOp {
    op: TOp,
    n: i64,
}

impl View for TimeOp {
    type V = (TOp, i64);

    /// The operation and its count.
    closed spec fn view(&self) -> (TOp, i64) {
        (self.op, self.n)
    }
}

impl TimeOp {
    pub fn new(op: TOp, n: i64) -> (r: Self)
        ensures
            r@ == (op, n),
    {
        Self { op, n }
    }

    pub fn advance_mon(n: i64) -> (r: Self)
        ensures
            r@ == (TOp::AdvMon, n),
    {
        Self::new(TOp::AdvMon, n)
    }

    pub fn advance_tue(n: i64) -> (r: Self)
        ensures
            r@ == (TOp::AdvTue, n),
    {
        Self::new(TOp::AdvTue, n)
    }

    pub fn advance_wed(n: i64) -> (r: Self)
        ensures
            r@ == (TOp::AdvWed, n),
    {
        Self::new(TOp::AdvWed, n)
    }

    pub fn advance_thu(n: i64) -> (r: Self)
        ensures
            r@ == (TOp::AdvThu, n),
    {
        Self::new(TOp::AdvThu, n)
    }

    pub fn advance_fri(n: i64) -> (r: Self)
        ensures
            r@ == (TOp::AdvFri, n),
    {
        Self::new(TOp::AdvFri, n)
    }

    pub fn advance_sat(n: i64) -> (r: Self)
        ensures
            r@ == (TOp::AdvSat, n),
    {
        Self::new(TOp::AdvSat, n)
    }

    pub fn advance_sun(n: i64) -> (r: Self)
        ensures
            r@ == (TOp::AdvSun, n),
    {
        Self::new(TOp::AdvSun, n)
    }

    pub fn advance_day(n: i64) -> (r: Self)
        ensures
            r@ == (TOp::AdvDay, n),
    {
        Self::new(TOp::AdvDay, n)
    }

    pub fn advance_month(n: i64) -> (r: Self)
        ensures
            r@ == (TOp::AdvMonth, n),
    {
        Self::new(TOp::AdvMonth, n)
    }

    pub fn find_mon(n: i64) -> (r: Self)
        ensures
            r@ == (TOp::FindMon, n),
    {
        Self::new(TOp::FindMon, n)
    }

    pub fn find_tue(n: i64) -> (r: Self)
        ensures
            r@ == (TOp::FindTue, n),
    {
        Self::new(TOp::FindTue, n)
    }

    pub fn find_wed(n: i64) -> (r: Self)
        ensures
            r@ == (TOp::FindWed, n),
    {
        Self::new(TOp::FindWed, n)
    }

    pub fn find_thu(n: i64) -> (r: Self)
        ensures
            r@ == (TOp::FindThu, n),
    {
        Self::new(TOp::FindThu, n)
    }

    pub fn find_fri(n: i64) -> (r: Self)
        ensures
            r@ == (TOp::FindFri, n),
    {
        Self::new(TOp::FindFri, n)
    }

    pub fn find_sat(n: i64) -> (r: Self)
        ensures
            r@ == (TOp::FindSat, n),
    {
        Self::new(TOp::FindSat, n)
    }

    pub fn find_sun(n: i64) -> (r: Self)
        ensures
            r@ == (TOp::FindSun, n),
    {
        Self::new(TOp::FindSun, n)
    }

    pub fn find_day(n: i64) -> (r: Self)
        ensures
            r@ == (TOp::FindDay, n),
    {
        Self::new(TOp::FindDay, n)
    }

    pub fn find_month(n: i64) -> (r: Self)
        ensures
            r@ == (TOp::FindMonth, n),
    {
        Self::new(TOp::FindMonth, n)
    }

    pub fn add_years(n: i64) -> (r: Self)
        ensures
            r@ == (TOp::AddYears, n),
    {
        Self::new(TOp::AddYears, n)
    }

    pub fn yearly() -> (r: Self)
        ensures
            r@ == (TOp::AddYears, 1i64),
    {
        Self::add_years(1)
    }

    pub fn add_months(n: i64) -> (r: Self)
        ensures
            r@ == (TOp::AddMonths, n),
    {
        Self::new(TOp::AddMonths, n)
    }

    pub fn monthly() -> (r: Self)
        ensures
            r@ == (TOp::AddMonths, 1i64),
    {
        Self::add_months(1)
    }

    pub fn add_days(n: i64) -> (r: Self)
        ensures
            r@ == (TOp::AddDays, n),
    {
        Self::new(TOp::AddDays, n)
    }

    pub fn daily() -> (r: Self)
        ensures
            r@ == (TOp::AddDays, 1i64),
    {
        Self::add_days(1)
    }

    pub fn set_year(n: i64) -> (r: Self)
        ensures
            r@ == (TOp::SetYear, n),
    {
        Self::new(TOp::SetYear, n)
    }

    pub fn set_month(n: i64) -> (r: Self)
        ensures
            r@ == (TOp::SetMonth, n),
    {
        Self::new(TOp::SetMonth, n)
    }

    pub fn set_day(n: i64) -> (r: Self)
        ensures
            r@ == (TOp::SetDay, n),
    {
        Self::new(TOp::SetDay, n)
    }

    pub fn nop() -> (r: Self)
        ensures
            r@ == (TOp::Nop, 0i64),
    {
        Self::new(TOp::Nop, 0)
    }

    pub fn add_hours(n: i64) -> (r: Self)
        ensures
            r@ == (TOp::AddHours, n),
    {
        Self::new(TOp::AddHours, n)
    }

    pub fn hourly() -> (r: Self)
        ensures
            r@ == (TOp::AddHours, 1i64),
    {
        Self::add_hours(1)
    }

    pub fn add_mins(n: i64) -> (r: Self)
        ensures
            r@ == (TOp::AddMins, n),
    {
        Self::new(TOp::AddMins, n)
    }

    pub fn minutely() -> (r: Self)
        ensures
            r@ == (TOp::AddMins, 1i64),
    {
        Self::add_mins(1)
    }

    pub fn add_secs(n: i64) -> (r: Self)
        ensures
            r@ == (TOp::AddSecs, n),
    {
        Self::new(TOp::AddSecs, n)
    }

    pub fn secondly() -> (r: Self)
        ensures
            r@ == (TOp::AddSecs, 1i64),
    {
        Self::add_secs(1)
    }

    pub fn add_millis(n: i64) -> (r: Self)
        ensures
            r@ == (TOp::AddMillis, n),
    {
        Self::new(TOp::AddMillis, n)
    }

    pub fn add_micros(n: i64) -> (r: Self)
        ensures
            r@ == (TOp::AddMicros, n),
    {
        Self::new(TOp::AddMicros, n)
    }

    pub fn add_nanos(n: i64) -> (r: Self)
        ensures
            r@ == (TOp::AddNanos, n),
    {
        Self::new(TOp::AddNanos, n)
    }

    pub fn set_hour(n: i64) -> (r: Self)
        ensures
            r@ == (TOp::SetHour, n),
    {
        Self::new(TOp::SetHour, n)
    }

    pub fn set_min(n: i64) -> (r: Self)
        ensures
            r@ == (TOp::SetMin, n),
    {
        Self::new(TOp::SetMin, n)
    }

    pub fn set_sec(n: i64) -> (r: Self)
        ensures
            r@ == (TOp::SetSec, n),
    {
        Self::new(TOp::SetSec, n)
    }

    pub fn set_millis(n: i64) -> (r: Self)
        ensures
            r@ == (TOp::SetMillis, n),
    {
        Self::new(TOp::SetMillis, n)
    }

    pub fn set_micros(n: i64) -> (r: Self)
        ensures
            r@ == (TOp::SetMicros, n),
    {
        Self::new(TOp::SetMicros, n)
    }

    pub fn set_nanos(n: i64) -> (r: Self)
        ensures
            r@ == (TOp::SetNanos, n),
    {
        Self::new(TOp::SetNanos, n)
    }
}

/// Operations on a date.
#[derive(Debug, Eq, PartialEq, Structural, Hash, Copy, Clone, Ord, PartialOrd)]
pub enum DOp {
    /// Advancing by |n| > 0 always moves to the next or previous such day, even
    /// when the current day is the one in question.
    AdvMon,
    AdvTue,
    AdvWed,
    AdvThu,
    AdvFri,
    AdvSat,
    AdvSun,
    AdvDay,
    AdvMonth,
    /// Finding is like advancing, but does not move when already on the given day.
    FindMon,
    FindTue,
    FindWed,
    FindThu,
    FindFri,
    FindSat,
    FindSun,
    FindDay,
    FindMonth,
    AddYears,
    AddMonths,
    AddDays,
    SetYear,
    SetMonth,
    SetDay,
    Nop,
}

/// An operation on a date with its count: what to do, and how many times.
#[derive(Debug, Eq, PartialEq, Structural, Hash, Copy, Clone, Ord, PartialOrd)]
pub struct DateOp {
    op: DOp,
    n: i64,
}

impl View for DateOp {
    type V = (DOp, i64);

    /// The operation and its count.
    closed spec fn view(&self) -> (DOp, i64) {
        (self.op, self.n)
    }
}

impl DateOp {
    pub fn new(op: DOp, n: i64) -> (r: Self)
        ensures
            r@ == (op, n),
    {
        Self { op, n }
    }

    pub fn advance_mon(n: i64) -> (r: Self)
        ensures
            r@ == (DOp::AdvMon, n),
    {
        Self::new(DOp::AdvMon, n)
    }

    pub fn advance_tue(n: i64) -> (r: Self)
        ensures
            r@ == (DOp::AdvTue, n),
    {
        Self::new(DOp::AdvTue, n)
    }

    pub fn advance_wed(n: i64) -> (r: Self)
        ensures
            r@ == (DOp::AdvWed, n),
    {
        Self::new(DOp::AdvWed, n)
    }

    pub fn advance_thu(n: i64) -> (r: Self)
        ensures
            r@ == (DOp::AdvThu, n),
    {
        Self::new(DOp::AdvThu, n)
    }

    pub fn advance_fri(n: i64) -> (r: Self)
        ensures
            r@ == (DOp::AdvFri, n),
    {
        Self::new(DOp::AdvFri, n)
    }

    pub fn advance_sat(n: i64) -> (r: Self)
        ensures
            r@ == (DOp::AdvSat, n),
    {
        Self::new(DOp::AdvSat, n)
    }

    pub fn advance_sun(n: i64) -> (r: Self)
        ensures
            r@ == (DOp::AdvSun, n),
    {
        Self::new(DOp::AdvSun, n)
    }

    pub fn advance_day(n: i64) -> (r: Self)
        ensures
            r@ == (DOp::AdvDay, n),
    {
        Self::new(DOp::AdvDay, n)
    }

    pub fn advance_month(n: i64) -> (r: Self)
        ensures
            r@ == (DOp::AdvMonth, n),
    {
        Self::new(DOp::AdvMonth, n)
    }

    pub fn find_mon(n: i64) -> (r: Self)
        ensures
            r@ == (DOp::FindMon, n),
    {
        Self::new(DOp::FindMon, n)
    }

    pub fn find_tue(n: i64) -> (r: Self)
        ensures
            r@ == (DOp::FindTue, n),
    {
        Self::new(DOp::FindTue, n)
    }

    pub fn find_wed(n: i64) -> (r: Self)
        ensures
            r@ == (DOp::FindWed, n),
    {
        Self::new(DOp::FindWed, n)
    }

    pub fn find_thu(n: i64) -> (r: Self)
        ensures
            r@ == (DOp::FindThu, n),
    {
        Self::new(DOp::FindThu, n)
    }

    pub fn find_fri(n: i64) -> (r: Self)
        ensures
            r@ == (DOp::FindFri, n),
    {
        Self::new(DOp::FindFri, n)
    }

    pub fn find_sat(n: i64) -> (r: Self)
        ensures
            r@ == (DOp::FindSat, n),
    {
        Self::new(DOp::FindSat, n)
    }

    pub fn find_sun(n: i64) -> (r: Self)
        ensures
            r@ == (DOp::FindSun, n),
    {
        Self::new(DOp::FindSun, n)
    }

    pub fn find_day(n: i64) -> (r: Self)
        ensures
            r@ == (DOp::FindDay, n),
    {
        Self::new(DOp::FindDay, n)
    }

    pub fn find_month(n: i64) -> (r: Self)
        ensures
            r@ == (DOp::FindMonth, n),
    {
        Self::new(DOp::FindMonth, n)
    }

    pub fn add_years(n: i64) -> (r: Self)
        ensures
            r@ == (DOp::AddYears, n),
    {
        Self::new(DOp::AddYears, n)
    }

    pub fn yearly() -> (r: Self)
        ensures
            r@ == (DOp::AddYears, 1i64),
    {
        Self::add_years(1)
    }

    pub fn add_months(n: i64) -> (r: Self)
        ensures
            r@ == (DOp::AddMonths, n),
    {
        Self::new(DOp::AddMonths, n)
    }

    pub fn monthly() -> (r: Self)
        ensures
            r@ == (DOp::AddMonths, 1i64),
    {
        Self::add_months(1)
    }

    pub fn add_days(n: i64) -> (r: Self)
        ensures
            r@ == (DOp::AddDays, n),
    {
        Self::new(DOp::AddDays, n)
    }

    pub fn daily() -> (r: Self)
        ensures
            r@ == (DOp::AddDays, 1i64),
    {
        Self::add_days(1)
    }

    pub fn set_year(n: i64) -> (r: Self)
        ensures
            r@ == (DOp::SetYear, n),
    {
        Self::new(DOp::SetYear, n)
    }

    pub fn set_month(n: i64) -> (r: Self)
        ensures
            r@ == (DOp::SetMonth, n),
    {
        Self::new(DOp::SetMonth, n)
    }

    pub fn set_day(n: i64) -> (r: Self)
        ensures
            r@ == (DOp::SetDay, n),
    {
        Self::new(DOp::SetDay, n)
    }

    pub fn nop() -> (r: Self)
        ensures
            r@ == (DOp::Nop, 0i64),
    {
        Self::new(DOp::Nop, 0)
    }

    /// Applies the operation to a date.
    pub fn apply(&self, d: Date) -> (r: Date)
        requires
            dop_ok(d@, self@.0, self@.1),
        ensures
            dop_holds(d@, self@.0, self@.1, r@),
            r.zone() == d.zone(),
    {
        apply_dop(d, self.op, self.n)
    }

    /// Applies the operation to a date, where it can be applied.
    pub fn try_apply(&self, d: Date) -> (r: Option<Date>)
        ensures
            dop_ok(d@, self@.0, self@.1) ==> (r matches Some(x) && dop_holds(
                d@,
                self@.0,
                self@.1,
                x@,
            ) && x.zone() == d.zone()),
            !dop_ok(d@, self@.0, self@.1) ==> r is None,
    {
        if dop_can_apply(&d, self.op, self.n) {
            Some(apply_dop(d, self.op, self.n))
        } else {
            None
        }
    }
}

/// Moving the date `t` by `k` months stays in range.
fn months_ok(t: &Date, k: i32) -> (r: bool)
    ensures
        r == add_months_ok(t@, k as int),
{
    proof {
        use_type_invariant(t);
    }
    let total: i64 = (t.month() as i64) - 1 + (k as i64);
    if total < i32::MIN as i64 || total > i32::MAX as i64 {
        return false;
    }
    let y: i64 = total.checked_div_euclid(12).unwrap() + (t.year() as i64);
    assert(y == month_shift(t@, k as int).0);
    MIN_YEAR as i64 <= y && y <= MAX_YEAR as i64
}

/// The day `k` is in the range of dates.
fn day_ok(k: i64) -> (r: bool)
    ensures
        r == day_in_range(k as int),
{
    assert(day_number(first_date()) == -95746130);
    assert(day_number(last_date()) == 95745398);
    -95746130 <= k && k <= 95745398
}

/// The operation `op` with count `n` can be applied to the date `d`.
fn dop_can_apply(d: &Date, op: DOp, n: i64) -> (r: bool)
    ensures
        r == dop_ok(d@, op, n),
{
    proof {
        use_type_invariant(d);
    }
    match op {
        DOp::AddYears => {
            let y: i64 = (d.year() as i64) + ((n as i32) as i64);
            MIN_YEAR as i64 <= y && y <= MAX_YEAR as i64
        },
        DOp::AddMonths => months_ok(d, n as i32),
        DOp::AddDays => {
            let dn: i64 = (chrono_days_from_ce(d.year(), d.month(), d.day()) as i64) - 1;
            day_ok(dn + ((n as i32) as i64))
        },
        DOp::AdvDay => {
            let m = d.with_day(n as u32);
            if m <= *d {
                months_ok(&m, 1)
            } else {
                true
            }
        },
        DOp::FindDay => {
            let m = d.with_day(n as u32);
            if m < *d {
                months_ok(&m, 1)
            } else {
                true
            }
        },
        DOp::AdvMonth | DOp::FindMonth => {
            let mm = n as u32;
            if mm < 1 || mm > 12 {
                return false;
            }
            let m = d.with_month(mm);
            let moves = match op {
                DOp::AdvMonth => m <= *d,
                _ => m < *d,
            };
            if moves {
                (m.year() as i64) + 1 <= MAX_YEAR as i64
            } else {
                true
            }
        },
        DOp::SetYear => {
            let y = n as i32;
            MIN_YEAR <= y && y <= MAX_YEAR
        },
        DOp::SetMonth => {
            let m = n as u32;
            1 <= m && m <= 12
        },
        DOp::SetDay | DOp::Nop => true,
        _ => {
            let idx = dop_number(op);
            let wd = day_number_of(d.weekday());
            let weeks: i64 = if idx <= 6 {
                let offset = (idx - wd).checked_rem_euclid(7).unwrap();
                if offset != 0 && n > 0 {
                    n - 1
                } else {
                    n
                }
            } else {
                let offset = (idx - 9 - wd).checked_rem_euclid(7).unwrap();
                let m: i64 = if n < 0 && offset != 0 {
                    if n == i64::MIN {
                        return false;
                    }
                    n - 1
                } else {
                    n
                };
                let sign: i64 = if m > 0 {
                    1
                } else if m < 0 {
                    -1
                } else {
                    0
                };
                m - sign
            };
            let offset: i64 = if idx <= 6 {
                (idx - wd).checked_rem_euclid(7).unwrap() as i64
            } else {
                (idx - 9 - wd).checked_rem_euclid(7).unwrap() as i64
            };
            let w7: i64 = 7 * ((weeks as i32) as i64);
            if w7 < i32::MIN as i64 || w7 > i32::MAX as i64 {
                return false;
            }
            if offset + w7 < i32::MIN as i64 || offset + w7 > i32::MAX as i64 {
                return false;
            }
            let dn: i64 = (chrono_days_from_ce(d.year(), d.month(), d.day()) as i64) - 1;
            day_ok(dn + offset + w7)
        },
    }
}

/// The number of a date operation, in the order they are declared.
pub open spec fn dop_index(op: DOp) -> int {
    match op {
        DOp::AdvMon => 0,
        DOp::AdvTue => 1,
        DOp::AdvWed => 2,
        DOp::AdvThu => 3,
        DOp::AdvFri => 4,
        DOp::AdvSat => 5,
        DOp::AdvSun => 6,
        DOp::AdvDay => 7,
        DOp::AdvMonth => 8,
        DOp::FindMon => 9,
        DOp::FindTue => 10,
        DOp::FindWed => 11,
        DOp::FindThu => 12,
        DOp::FindFri => 13,
        DOp::FindSat => 14,
        DOp::FindSun => 15,
        DOp::FindDay => 16,
        DOp::FindMonth => 17,
        DOp::AddYears => 18,
        DOp::AddMonths => 19,
        DOp::AddDays => 20,
        DOp::SetYear => 21,
        DOp::SetMonth => 22,
        DOp::SetDay => 23,
        DOp::Nop => 24,
    }
}

/// The operation advances to a day of the week.
pub open spec fn is_adv_weekday(op: DOp) -> bool {
    0 <= dop_index(op) <= 6
}

/// The operation finds a day of the week.
pub open spec fn is_find_weekday(op: DOp) -> bool {
    9 <= dop_index(op) <= 15
}

/// Days from a date on weekday `wd` to the next day (or the same day) that is
/// weekday `target`.
pub open spec fn weekday_offset(target: int, wd: int) -> int {
    (target - wd) % 7
}

/// The count of whole weeks an advance moves after reaching the weekday: an
/// advance by `n > 0` that first has to move to reach the weekday uses up one.
pub open spec fn adv_weeks(offset: int, n: i64) -> i64 {
    if offset != 0 && n > 0 {
        (n - 1) as i64
    } else {
        n
    }
}

/// The count of whole weeks a find moves after reaching the weekday: a find
/// by `n` moves `n - 1` further weeks forwards, or `-n - 1` backwards from the
/// weekday before.
pub open spec fn find_weeks(offset: int, n: i64) -> i64 {
    let m = if n < 0 && offset != 0 {
        n - 1
    } else {
        n as int
    };
    let sign = if m > 0 {
        1
    } else if m < 0 {
        -1int
    } else {
        0
    };
    (m - sign) as i64
}

/// The number of days a weekday operation moves the date `d`.
pub open spec fn weekday_shift(d: (i32, u32, u32), op: DOp, n: i64) -> int {
    if is_adv_weekday(op) {
        let offset = weekday_offset(dop_index(op), weekday_of(d));
        offset + 7 * (adv_weeks(offset, n) as i32)
    } else {
        let offset = weekday_offset(dop_index(op) - 9, weekday_of(d));
        offset + 7 * (find_weeks(offset, n) as i32)
    }
}

/// `op` with count `n` can be applied to the date `d`: its arithmetic does not
/// overflow and the date stays in range.
pub open spec fn dop_ok(d: (i32, u32, u32), op: DOp, n: i64) -> bool {
    match op {
        DOp::AddYears => add_years_ok(d, (n as i32) as int),
        DOp::AddMonths => add_months_ok(d, (n as i32) as int),
        DOp::AddDays => day_in_range(day_number(d) + (n as i32)),
        DOp::AdvDay => ymd_le(with_day_spec(d, n as u32), d) ==> add_months_ok(
            with_day_spec(d, n as u32),
            1,
        ),
        DOp::FindDay => ymd_lt(with_day_spec(d, n as u32), d) ==> add_months_ok(
            with_day_spec(d, n as u32),
            1,
        ),
        DOp::AdvMonth => 1 <= (n as u32) <= 12 && (ymd_le(with_month_spec(d, n as u32), d)
            ==> add_years_ok(with_month_spec(d, n as u32), 1)),
        DOp::FindMonth => 1 <= (n as u32) <= 12 && (ymd_lt(with_month_spec(d, n as u32), d)
            ==> add_years_ok(with_month_spec(d, n as u32), 1)),
        DOp::SetYear => MIN_YEAR <= (n as i32) <= MAX_YEAR,
        DOp::SetMonth => 1 <= (n as u32) <= 12,
        DOp::SetDay => true,
        DOp::Nop => true,
        _ => {
            let offset = if is_adv_weekday(op) {
                weekday_offset(dop_index(op), weekday_of(d))
            } else {
                weekday_offset(dop_index(op) - 9, weekday_of(d))
            };
            let weeks = if is_adv_weekday(op) {
                adv_weeks(offset, n)
            } else {
                find_weeks(offset, n)
            };
            &&& is_find_weekday(op) && n < 0 && offset != 0 ==> n > i64::MIN
            &&& i32::MIN <= 7 * (weeks as i32) <= i32::MAX
            &&& i32::MIN <= offset + 7 * (weeks as i32) <= i32::MAX
            &&& day_in_range(day_number(d) + weekday_shift(d, op, n))
        },
    }
}

/// What applying `op` with count `n` to the date `d` gives: the date `r`.
/// Operations by days fix the day number of the result; the others fix the
/// date itself.
pub open spec fn dop_holds(d: (i32, u32, u32), op: DOp, n: i64, r: (i32, u32, u32)) -> bool {
    &&& valid_date(r)
    &&& match op {
        DOp::AddYears => r == with_year_spec(d, (d.0 + (n as i32)) as i32),
        DOp::AddMonths => r == add_months_spec(d, (n as i32) as int),
        DOp::AddDays => day_number(r) == day_number(d) + (n as i32),
        DOp::AdvDay => r == (if ymd_le(with_day_spec(d, n as u32), d) {
            add_months_spec(with_day_spec(d, n as u32), 1)
        } else {
            with_day_spec(d, n as u32)
        }),
        DOp::FindDay => r == (if ymd_lt(with_day_spec(d, n as u32), d) {
            add_months_spec(with_day_spec(d, n as u32), 1)
        } else {
            with_day_spec(d, n as u32)
        }),
        DOp::AdvMonth => r == (if ymd_le(with_month_spec(d, n as u32), d) {
            with_year_spec(
                with_month_spec(d, n as u32),
                (with_month_spec(d, n as u32).0 + 1) as i32,
            )
        } else {
            with_month_spec(d, n as u32)
        }),
        DOp::FindMonth => r == (if ymd_lt(with_month_spec(d, n as u32), d) {
            with_year_spec(
                with_month_spec(d, n as u32),
                (with_month_spec(d, n as u32).0 + 1) as i32,
            )
        } else {
            with_month_spec(d, n as u32)
        }),
        DOp::SetYear => r == with_year_spec(d, n as i32),
        DOp::SetMonth => r == with_month_spec(d, n as u32),
        DOp::SetDay => r == with_day_spec(d, n as u32),
        DOp::Nop => r == d,
        _ => day_number(r) == day_number(d) + weekday_shift(d, op, n),
    }
}

/// A date operation gives one date: two results of it are the same date.
pub proof fn lemma_dop_holds_unique(
    d: (i32, u32, u32),
    op: DOp,
    n: i64,
    r1: (i32, u32, u32),
    r2: (i32, u32, u32),
)
    requires
        dop_holds(d, op, n, r1),
        dop_holds(d, op, n, r2),
    ensures
        r1 == r2,
{
    if day_number(r1) == day_number(r2) {
        lemma_day_number_injective(r1, r2);
    }
}

/// The number of a date operation.
fn dop_number(op: DOp) -> (r: i32)
    ensures
        r == dop_index(op),
{
    match op {
        DOp::AdvMon => 0,
        DOp::AdvTue => 1,
        DOp::AdvWed => 2,
        DOp::AdvThu => 3,
        DOp::AdvFri => 4,
        DOp::AdvSat => 5,
        DOp::AdvSun => 6,
        DOp::AdvDay => 7,
        DOp::AdvMonth => 8,
        DOp::FindMon => 9,
        DOp::FindTue => 10,
        DOp::FindWed => 11,
        DOp::FindThu => 12,
        DOp::FindFri => 13,
        DOp::FindSat => 14,
        DOp::FindSun => 15,
        DOp::FindDay => 16,
        DOp::FindMonth => 17,
        DOp::AddYears => 18,
        DOp::AddMonths => 19,
        DOp::AddDays => 20,
        DOp::SetYear => 21,
        DOp::SetMonth => 22,
        DOp::SetDay => 23,
        DOp::Nop => 24,
    }
}

/// The number of a day of the week, Monday being 0.
fn day_number_of(d: Day) -> (r: i32)
    ensures
        r == day_index(d),
{
    match d {
        Day::Mon => 0,
        Day::Tue => 1,
        Day::Wed => 2,
        Day::Thu => 3,
        Day::Fri => 4,
        Day::Sat => 5,
        Day::Sun => 6,
    }
}

/// Applies the date operation `op` with count `n` to the date `d`.
fn apply_dop(d: Date, op: DOp, n: i64) -> (r: Date)
    requires
        dop_ok(d@, op, n),
    ensures
        dop_holds(d@, op, n, r@),
        r.zone() == d.zone(),
{
    proof {
        use_type_invariant(&d);
    }
    let r = match op {
        DOp::AddYears => d.add_years(n as i32),
        DOp::AddMonths => d.add_months(n as i32),
        DOp::AddDays => d.add_days(n as i32),
        DOp::AdvDay => {
            let m = d.with_day(n as u32);
            if m <= d {
                m.add_months(1)
            } else {
                m
            }
        },
        DOp::AdvMonth => {
            let m = d.with_month(n as u32);
            if m <= d {
                m.add_years(1)
            } else {
                m
            }
        },
        DOp::FindDay => {
            let m = d.with_day(n as u32);
            if m < d {
                m.add_months(1)
            } else {
                m
            }
        },
        DOp::FindMonth => {
            let m = d.with_month(n as u32);
            if m < d {
                m.add_years(1)
            } else {
                m
            }
        },
        DOp::SetYear => d.with_year(n as i32),
        DOp::SetMonth => d.with_month(n as u32),
        DOp::SetDay => d.with_day(n as u32),
        DOp::Nop => d,
        _ => {
            let idx = dop_number(op);
            let wd = day_number_of(d.weekday());
            if idx <= 6 {
                let offset = (idx - 0 - wd).checked_rem_euclid(7).unwrap();
                let n = if offset != 0 && n > 0 {
                    n - 1
                } else {
                    n
                };
                d.add_days(offset + 7 * n as i32)
            } else {
                let offset = (idx - 9 - wd).checked_rem_euclid(7).unwrap();
                let n = if n < 0 && offset != 0 {
                    n - 1
                } else {
                    n
                };
                let sign: i64 = if n > 0 {
                    1
                } else if n < 0 {
                    -1
                } else {
                    0
                };
                let n = n - sign;
                d.add_days(offset + 7 * n as i32)
            }
        },
    };
    r
}

/// What a time operation does to a time: move it by a count of a unit of
/// time, set a field of its time of day, or apply a date operation to its
/// date while keeping its time of day.
#[derive(Debug, Eq, PartialEq, Structural, Hash, Copy, Clone)]
pub enum TimeStep {
    AddHours(i64),
    AddMins(i64),
    AddSecs(i64),
    AddMillis(i64),
    AddMicros(i64),
    AddNanos(i64),
    SetHour(u32),
    SetMin(u32),
    SetSec(u32),
    SetMillis(u32),
    SetMicros(u32),
    SetNanos(u32),
    OnDate(DateOp),
}

/// The date operation a time operation carries out on the date, if it is one.
pub open spec fn date_part(op: TOp) -> Option<DOp> {
    match op {
        TOp::AdvMon => Some(DOp::AdvMon),
        TOp::AdvTue => Some(DOp::AdvTue),
        TOp::AdvWed => Some(DOp::AdvWed),
        TOp::AdvThu => Some(DOp::AdvThu),
        TOp::AdvFri => Some(DOp::AdvFri),
        TOp::AdvSat => Some(DOp::AdvSat),
        TOp::AdvSun => Some(DOp::AdvSun),
        TOp::AdvDay => Some(DOp::AdvDay),
        TOp::AdvMonth => Some(DOp::AdvMonth),
        TOp::FindMon => Some(DOp::FindMon),
        TOp::FindTue => Some(DOp::FindTue),
        TOp::FindWed => Some(DOp::FindWed),
        TOp::FindThu => Some(DOp::FindThu),
        TOp::FindFri => Some(DOp::FindFri),
        TOp::FindSat => Some(DOp::FindSat),
        TOp::FindSun => Some(DOp::FindSun),
        TOp::FindDay => Some(DOp::FindDay),
        TOp::FindMonth => Some(DOp::FindMonth),
        TOp::AddYears => Some(DOp::AddYears),
        TOp::AddMonths => Some(DOp::AddMonths),
        TOp::AddDays => Some(DOp::AddDays),
        TOp::SetYear => Some(DOp::SetYear),
        TOp::SetMonth => Some(DOp::SetMonth),
        TOp::SetDay => Some(DOp::SetDay),
        TOp::Nop => Some(DOp::Nop),
        _ => None,
    }
}

/// `r` is what the time operation `op` with count `n` does to a time.
pub open spec fn is_step_of(op: TOp, n: i64, r: TimeStep) -> bool {
    match op {
        TOp::AddHours => r == TimeStep::AddHours(n),
        TOp::AddMins => r == TimeStep::AddMins(n),
        TOp::AddSecs => r == TimeStep::AddSecs(n),
        TOp::AddMillis => r == TimeStep::AddMillis(n),
        TOp::AddMicros => r == TimeStep::AddMicros(n),
        TOp::AddNanos => r == TimeStep::AddNanos(n),
        TOp::SetHour => r == TimeStep::SetHour(n as u32),
        TOp::SetMin => r == TimeStep::SetMin(n as u32),
        TOp::SetSec => r == TimeStep::SetSec(n as u32),
        TOp::SetMillis => r == TimeStep::SetMillis(n as u32),
        TOp::SetMicros => r == TimeStep::SetMicros(n as u32),
        TOp::SetNanos => r == TimeStep::SetNanos(n as u32),
        _ => r matches TimeStep::OnDate(d) && date_part(op) is Some && d@ == (
            date_part(op).unwrap(),
            n,
        ),
    }
}

impl TOp {
    /// The date operation this time operation carries out on the date, if it
    /// is one: the operation of the same name.
    pub fn to_dop(&self) -> (r: Option<DOp>)
        ensures
            r == date_part(*self),
    {
        match *self {
            TOp::AdvMon => Some(DOp::AdvMon),
            TOp::AdvTue => Some(DOp::AdvTue),
            TOp::AdvWed => Some(DOp::AdvWed),
            TOp::AdvThu => Some(DOp::AdvThu),
            TOp::AdvFri => Some(DOp::AdvFri),
            TOp::AdvSat => Some(DOp::AdvSat),
            TOp::AdvSun => Some(DOp::AdvSun),
            TOp::AdvDay => Some(DOp::AdvDay),
            TOp::AdvMonth => Some(DOp::AdvMonth),
            TOp::FindMon => Some(DOp::FindMon),
            TOp::FindTue => Some(DOp::FindTue),
            TOp::FindWed => Some(DOp::FindWed),
            TOp::FindThu => Some(DOp::FindThu),
            TOp::FindFri => Some(DOp::FindFri),
            TOp::FindSat => Some(DOp::FindSat),
            TOp::FindSun => Some(DOp::FindSun),
            TOp::FindDay => Some(DOp::FindDay),
            TOp::FindMonth => Some(DOp::FindMonth),
            TOp::AddYears => Some(DOp::AddYears),
            TOp::AddMonths => Some(DOp::AddMonths),
            TOp::AddDays => Some(DOp::AddDays),
            TOp::SetYear => Some(DOp::SetYear),
            TOp::SetMonth => Some(DOp::SetMonth),
            TOp::SetDay => Some(DOp::SetDay),
            TOp::Nop => Some(DOp::Nop),
            _ => None,
        }
    }
}

/// The date operation `op` with count `n`.
pub closed spec fn date_op_of(op: DOp, n: i64) -> DateOp {
    DateOp { op, n }
}

/// A date operation is the one of its view.
pub proof fn lemma_date_op_of(d: DateOp)
    ensures
        d == date_op_of(d@.0, d@.1),
        date_op_of(d@.0, d@.1)@ == d@,
{
}

/// The view of the date operation `op` with count `n` is `(op, n)`.
pub proof fn lemma_date_op_of_view(op: DOp, n: i64)
    ensures
        #[trigger] date_op_of(op, n)@ == (op, n),
{
}

/// What the time operation `op` with count `n` does to a time.
pub open spec fn top_step(op: TOp, n: i64) -> TimeStep {
    match op {
        TOp::AddHours => TimeStep::AddHours(n),
        TOp::AddMins => TimeStep::AddMins(n),
        TOp::AddSecs => TimeStep::AddSecs(n),
        TOp::AddMillis => TimeStep::AddMillis(n),
        TOp::AddMicros => TimeStep::AddMicros(n),
        TOp::AddNanos => TimeStep::AddNanos(n),
        TOp::SetHour => TimeStep::SetHour(n as u32),
        TOp::SetMin => TimeStep::SetMin(n as u32),
        TOp::SetSec => TimeStep::SetSec(n as u32),
        TOp::SetMillis => TimeStep::SetMillis(n as u32),
        TOp::SetMicros => TimeStep::SetMicros(n as u32),
        TOp::SetNanos => TimeStep::SetNanos(n as u32),
        _ => TimeStep::OnDate(date_op_of(date_part(op).unwrap(), n)),
    }
}

impl TimeOp {
    /// What this operation does to a time.
    pub fn step(&self) -> (r: TimeStep)
        ensures
            is_step_of(self@.0, self@.1, r),
            r == top_step(self@.0, self@.1),
    {
        let n = self.n;
        match self.op {
            TOp::AddHours => TimeStep::AddHours(n),
            TOp::AddMins => TimeStep::AddMins(n),
            TOp::AddSecs => TimeStep::AddSecs(n),
            TOp::AddMillis => TimeStep::AddMillis(n),
            TOp::AddMicros => TimeStep::AddMicros(n),
            TOp::AddNanos => TimeStep::AddNanos(n),
            TOp::SetHour => TimeStep::SetHour(n as u32),
            TOp::SetMin => TimeStep::SetMin(n as u32),
            TOp::SetSec => TimeStep::SetSec(n as u32),
            TOp::SetMillis => TimeStep::SetMillis(n as u32),
            TOp::SetMicros => TimeStep::SetMicros(n as u32),
            TOp::SetNanos => TimeStep::SetNanos(n as u32),
            _ => TimeStep::OnDate(DateOp::new(self.op.to_dop().unwrap(), n)),
        }
    }
}

/// A pair of time operations giving the start and the (exclusive) end of a
/// span from a time.
#[derive(Debug, Eq, PartialEq, Structural, Ord, PartialOrd, Hash, Copy, Clone)]
pub struct SpanOp {
    pub st: TimeOp,
    /// Exclusive.
    pub en: TimeOp,
}

impl TimeOp {
    /// The time this operation makes of `t`.
    pub fn apply(&self, t: Time) -> (r: Time)
        requires
            step_ok(t, top_step(self@.0, self@.1)),
        ensures
            step_holds(t, top_step(self@.0, self@.1), r),
    {
        t.apply_step(self.step())
    }
}

impl SpanOp {
    pub fn new(st: TimeOp, en: TimeOp) -> (r: Self)
        ensures
            r == (SpanOp { st, en }),
    {
        Self { st, en }
    }

    /// The span from what the start operation makes of `t` to what the end
    /// operation makes of it.
    pub fn apply(&self, t: Time) -> (r: SpanExc<Time>)
        requires
            step_ok(t, top_step(self.st@.0, self.st@.1)),
            step_ok(t, top_step(self.en@.0, self.en@.1)),
        ensures
            step_holds(t, top_step(self.st@.0, self.st@.1), r.st),
            step_holds(t, top_step(self.en@.0, self.en@.1), r.en),
    {
        SpanExc::new(self.st.apply(t), self.en.apply(t))
    }
}

} // verus!

verus! {

/// Moving a date by days changes its day of the week as the count of days
/// modulo 7 says.
proof fn lemma_weekday_shift(dn: int, t: int, k: int)
    requires
        0 <= t < 7,
    ensures
        (dn + weekday_offset(t, dn % 7) + 7 * k) % 7 == t,
        0 <= weekday_offset(t, dn % 7) < 7,
        weekday_offset(t, dn % 7) == 0 <==> dn % 7 == t,
{
    let wd = dn % 7;
    let off = (t - wd) % 7;
    assert(0 <= wd < 7);
    assert(0 <= off < 7);
    assert((dn + off + 7 * k) % 7 == t) by (nonlinear_arith)
        requires
            wd == dn % 7,
            off == (t - wd) % 7,
            0 <= t < 7,
            0 <= wd < 7,
            0 <= off < 7,
    ;
    assert(off == 0 <==> wd == t) by (nonlinear_arith)
        requires
            off == (t - wd) % 7,
            0 <= t < 7,
            0 <= wd < 7,
    ;
}

/// Advancing to a day of the week lands on that day. Advancing by `n > 0`
/// lands on the `n`th such day strictly after the date, by `n < 0` on the
/// `|n|`th such day strictly before it; by 0 it moves to the next such day,
/// or stays on it.
pub proof fn lemma_advance_weekday(d: (i32, u32, u32), op: DOp, n: i64, r: (i32, u32, u32))
    requires
        is_adv_weekday(op),
        i32::MIN <= n <= i32::MAX,
        dop_ok(d, op, n),
        dop_holds(d, op, n, r),
    ensures
        weekday_of(r) == dop_index(op),
        n > 0 ==> day_number(r) > day_number(d),
        n < 0 ==> day_number(r) < day_number(d),
        n == 0 ==> day_number(d) <= day_number(r) < day_number(d) + 7,
        n > 0 ==> day_number(d) + 7 * (n - 1) < day_number(r) <= day_number(d) + 7 * n,
        n < 0 ==> day_number(d) + 7 * n <= day_number(r) < day_number(d) + 7 * (n + 1),
{
    let dn = day_number(d);
    let t = dop_index(op);
    let off = weekday_offset(t, weekday_of(d));
    let w = adv_weeks(off, n);
    assert((w as i32) as int == w as int);
    lemma_weekday_shift(dn, t, w as int);
}

/// Finding a day of the week lands on that day. Finding by `n > 0` lands on
/// the `n`th such day on or after the date (by 0 as by 1), by `n < 0` on the
/// `|n|`th such day on or before it.
pub proof fn lemma_find_weekday(d: (i32, u32, u32), op: DOp, n: i64, r: (i32, u32, u32))
    requires
        is_find_weekday(op),
        i32::MIN < n <= i32::MAX,
        dop_ok(d, op, n),
        dop_holds(d, op, n, r),
    ensures
        weekday_of(r) == dop_index(op) - 9,
        n == 0 || n == 1 ==> day_number(d) <= day_number(r) < day_number(d) + 7,
        n == -1 ==> day_number(d) - 7 < day_number(r) <= day_number(d),
        n > 1 ==> day_number(r) > day_number(d),
        n < -1 ==> day_number(r) < day_number(d),
        n > 0 ==> day_number(d) + 7 * (n - 1) <= day_number(r) < day_number(d) + 7 * n,
        n < 0 ==> day_number(d) + 7 * n < day_number(r) <= day_number(d) + 7 * (n + 1),
{
    let dn = day_number(d);
    let t = dop_index(op) - 9;
    let off = weekday_offset(t, weekday_of(d));
    let w = find_weeks(off, n);
    assert((w as i32) as int == w as int);
    lemma_weekday_shift(dn, t, w as int);
}

} // verus!
