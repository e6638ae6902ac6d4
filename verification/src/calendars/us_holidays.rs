use vstd::prelude::*;

use crate::calendars::calendar::{set_is, DaySet};
use crate::date::{
    day_in_range, day_index, day_number, days_before_year, first_date, is_leap_year, last_date,
    lemma_day_in_year, lemma_day_number_injective, lemma_year_length, lemma_years_ordered, try_ymd,
    us_eastern, valid_date, weekday_of, ymd, Date, Day, MAX_YEAR, MIN_YEAR,
};
use crate::op::{
    dop_holds, dop_index, dop_ok, find_weeks, is_find_weekday, lemma_dop_holds_unique,
    weekday_offset, weekday_shift, DOp, DateOp,
};

verus! {

/// The month and day of Easter Sunday in year `y` of the Gregorian calendar,
/// by the anonymous Gregorian algorithm (valid from 1583 to 4099).
pub open spec fn easter_md(y: int) -> (int, int) {
    let g = y % 19;
    let c = y / 100;
    let h = (c - c / 4 - (8 * c + 13) / 25 + 19 * g + 15) % 30;
    let i = h - (h / 28) * (1 - (h / 28) * (29int / (h + 1)) * ((21 - g) / 11));
    let j = (y + y / 4 + i + 2 - c + c / 4) % 7;
    let p = i - j;
    (3 + (p + 26) / 30, 1 + (p + 27 + (p + 6) / 40) % 31)
}

/// The epact of year `y` of the Gregorian calendar: the age of the
/// ecclesiastical moon on the first of January, from the golden number with
/// the solar and the lunar corrections (Lilius and Clavius).
pub open spec fn epact(y: int) -> int {
    let golden = y % 19 + 1;
    let century = y / 100 + 1;
    let solar = 3 * century / 4 - 12;
    let lunar = (8 * century + 5) / 25 - 5;
    let e = (11 * golden + 20 + lunar - solar) % 30;
    if (e == 25 && golden > 11) || e == 24 {
        e + 1
    } else {
        e
    }
}

/// The ecclesiastical full moon on or after March 21 of year `y`, as a day
/// counted from the first of March (so 32 is April 1).
pub open spec fn paschal_full_moon(y: int) -> int {
    let n = 44 - epact(y);
    if n < 21 {
        n + 30
    } else {
        n
    }
}

/// A month and day of March or April, as a day counted from the first of
/// March.
pub open spec fn march_day(md: (int, int)) -> int {
    if md.0 == 3 {
        md.1
    } else {
        31 + md.1
    }
}

/// What the Gregorian computus says of the date `md` in year `y`: it is a
/// day from March 22 to April 25, a Sunday, and the first Sunday after the
/// ecclesiastical full moon on or after March 21.
pub open spec fn is_computus_easter(y: int, md: (int, int)) -> bool {
    &&& (md.0 == 3 && 22 <= md.1 <= 31) || (md.0 == 4 && 1 <= md.1 <= 25)
    &&& weekday_of((y as i32, md.0 as u32, md.1 as u32)) == 6
    &&& paschal_full_moon(y) < march_day(md) <= paschal_full_moon(y) + 7
}

/// The two moon corrections of `easter_md` and of `epact` agree: the
/// century terms of one are those of the other, so the two remainders add
/// up to 23 modulo 30.
proof fn lemma_moon_terms(y: int)
    requires
        1583 <= y <= 4099,
    ensures
        ({
            let g = y % 19;
            let c = y / 100;
            let h = (c - c / 4 - (8 * c + 13) / 25 + 19 * g + 15) % 30;
            let century = c + 1;
            let e = (11 * (g + 1) + 20 + ((8 * century + 5) / 25 - 5) - (3 * century / 4 - 12)) % 30;
            h + e == 23 || h + e == 53
        }),
{
    let g = y % 19;
    let c = y / 100;
    let a = c - c / 4 - (8 * c + 13) / 25 + 19 * g + 15;
    let century = c + 1;
    let b = 11 * (g + 1) + 20 + ((8 * century + 5) / 25 - 5) - (3 * century / 4 - 12);
    assert(15 <= c <= 40 && 0 <= g < 19);
    assert(c - c / 4 == 3 * (c + 1) / 4);
    assert((8 * century + 5) / 25 == (8 * c + 13) / 25);
    assert(a + b == 30 * g + 53);
    assert(a % 30 + b % 30 == 23 || a % 30 + b % 30 == 53);
}

/// The correction step of `easter_md`: `h` itself but for 28 and 29.
proof fn lemma_moon_step(h: int, g: int, i: int)
    requires
        0 <= h < 30,
        0 <= g < 19,
        i == h - (h / 28) * (1 - (h / 28) * (29int / (h + 1)) * ((21 - g) / 11)),
    ensures
        h <= 27 ==> i == h,
        h == 28 ==> i == 27 + (21 - g) / 11,
        h == 29 ==> i == 28,
{
    if h <= 27 {
        assert(i == h) by (nonlinear_arith)
            requires
                0 <= h <= 27,
                i == h - (h / 28) * (1 - (h / 28) * (29int / (h + 1)) * ((21 - g) / 11)),
        ;
    } else if h == 28 {
        assert(i == 27 + (21 - g) / 11) by (nonlinear_arith)
            requires
                h == 28,
                i == h - (h / 28) * (1 - (h / 28) * (29int / (h + 1)) * ((21 - g) / 11)),
        ;
    } else {
        assert(i == 28) by (nonlinear_arith)
            requires
                h == 29,
                i == h - (h / 28) * (1 - (h / 28) * (29int / (h + 1)) * ((21 - g) / 11)),
        ;
    }
}

/// The ecclesiastical full moon of year `y` falls `i` days after March 21,
/// where `i` is the corrected moon term of `easter_md`.
proof fn lemma_easter_moon(y: int)
    requires
        1583 <= y <= 4099,
    ensures
        ({
            let g = y % 19;
            let c = y / 100;
            let h = (c - c / 4 - (8 * c + 13) / 25 + 19 * g + 15) % 30;
            let i = h - (h / 28) * (1 - (h / 28) * (29int / (h + 1)) * ((21 - g) / 11));
            0 <= i <= 28 && paschal_full_moon(y) == 21 + i
        }),
{
    let g = y % 19;
    let c = y / 100;
    let h = (c - c / 4 - (8 * c + 13) / 25 + 19 * g + 15) % 30;
    let i = h - (h / 28) * (1 - (h / 28) * (29int / (h + 1)) * ((21 - g) / 11));
    let century = c + 1;
    let e = (11 * (g + 1) + 20 + ((8 * century + 5) / 25 - 5) - (3 * century / 4 - 12)) % 30;
    lemma_moon_terms(y);
    lemma_moon_step(h, g, i);
    assert(epact(y) == if (e == 25 && g + 1 > 11) || e == 24 { e + 1 } else { e });
}

/// `days_before_year(y)`, with the leap day of `y` itself, counted by the
/// multiples of 4, 100 and 400 up to `y`.
proof fn lemma_days_through_feb(y: int)
    requires
        1 <= y,
    ensures
        days_before_year(y) + (if is_leap_year(y) { 1int } else { 0 }) == 365 * (y - 1) + y / 4
            - y / 100 + y / 400,
{
    let p = y - 1;
    assert(y / 4 == p / 4 + (if y % 4 == 0 { 1int } else { 0 }));
    assert(y / 100 == p / 100 + (if y % 100 == 0 { 1int } else { 0 }));
    assert(y / 400 == p / 400 + (if y % 400 == 0 { 1int } else { 0 }));
}

/// The month and day that `easter_md` makes of `p` (from -6 to 28) are the
/// day `28 + p` counted from the first of March.
proof fn lemma_easter_day(p: int)
    requires
        -6 <= p <= 28,
    ensures
        ({
            let md = (3 + (p + 26) / 30, 1 + (p + 27 + (p + 6) / 40) % 31);
            &&& (md.0 == 3 && 22 <= md.1 <= 31) || (md.0 == 4 && 1 <= md.1 <= 25)
            &&& march_day(md) == 28 + p
        }),
{
    if p <= 3 {
        assert((p + 26) / 30 == 0 && (p + 6) / 40 == 0 && (p + 27) % 31 == p + 27);
    } else {
        assert((p + 26) / 30 == 1 && (p + 6) / 40 == 0 && (p + 27) % 31 == p - 4);
    }
}

/// The day `28 + i - j` of March of year `y`, with `j` the remainder that
/// `easter_md` takes, is a Sunday.
proof fn lemma_easter_sunday(y: int, i: int, md: (int, int))
    requires
        1583 <= y <= 4099,
        md.0 == 3 || md.0 == 4,
        1 <= md.1 <= 31,
        march_day(md) == 28 + i - (y + y / 4 + i + 2 - y / 100 + y / 100 / 4) % 7,
    ensures
        weekday_of((y as i32, md.0 as u32, md.1 as u32)) == 6,
{
    let c = y / 100;
    let x = y + y / 4 + i + 2 - c + c / 4;
    let t = (y as i32, md.0 as u32, md.1 as u32);
    assert(t.0 as int == y && t.1 as int == md.0 && t.2 as int == md.1);
    lemma_days_through_feb(y);
    assert(y / 400 == c / 4);
    assert(day_number(t) == 365 * (y - 1) + y / 4 - c + c / 4 + 58 + march_day(md));
    assert(day_number(t) == 7 * (52 * (y - 1) + x / 7 + 11) + 6);
}

/// The date `easter_md` gives is Easter Sunday by the Gregorian computus, in
/// every year from 1583 to 4099: the first Sunday after the ecclesiastical
/// full moon on or after March 21, which the epact fixes.
pub proof fn lemma_easter_computus(y: int)
    requires
        1583 <= y <= 4099,
    ensures
        is_computus_easter(y, easter_md(y)),
{
    let g = y % 19;
    let c = y / 100;
    let h = (c - c / 4 - (8 * c + 13) / 25 + 19 * g + 15) % 30;
    let i = h - (h / 28) * (1 - (h / 28) * (29int / (h + 1)) * ((21 - g) / 11));
    let j = (y + y / 4 + i + 2 - c + c / 4) % 7;
    let p = i - j;
    let md = easter_md(y);
    lemma_easter_moon(y);
    assert(md == (3 + (p + 26) / 30, 1 + (p + 27 + (p + 6) / 40) % 31));
    lemma_easter_day(p);
    lemma_easter_sunday(y, i, md);
}

/// Easter Sunday of the year of `d`, in the zone of `d`.
pub fn easter(d: Date) -> (r: Option<Date>)
    requires
        1583 <= d@.0 <= 4099,
    ensures
        match r {
            Some(e) => e@ == (d@.0, easter_md(d@.0 as int).0 as u32, easter_md(d@.0 as int).1 as u32)
                && e.zone() == d.zone(),
            None => !valid_date((d@.0, easter_md(d@.0 as int).0 as u32, easter_md(d@.0 as int).1 as u32)),
        },
        r matches Some(e) ==> is_computus_easter(d@.0 as int, (e@.1 as int, e@.2 as int)),
{
    let y: i64 = d.year() as i64;
    let g: i64 = y % 19;
    let c: i64 = y / 100;
    assert(15 <= c <= 40);
    assert(0 <= g < 19);
    let h: i64 = (c - c / 4 - (8 * c + 13) / 25 + 19 * g + 15) % 30;
    assert(0 <= h < 30);
    let k: i64 = h / 28;
    assert(0 <= k <= 1);
    let q: i64 = 29 / (h + 1);
    assert(0 <= q <= 29);
    let w: i64 = (21 - g) / 11;
    assert(0 <= w <= 1);
    assert(0 <= k * q <= 29) by (nonlinear_arith)
        requires
            0 <= k <= 1,
            0 <= q <= 29,
    ;
    let kq: i64 = k * q;
    assert(0 <= kq * w <= 29) by (nonlinear_arith)
        requires
            0 <= kq <= 29,
            0 <= w <= 1,
    ;
    let kqw: i64 = kq * w;
    assert(-28 <= k * (1 - kqw) <= 1) by (nonlinear_arith)
        requires
            0 <= k <= 1,
            0 <= kqw <= 29,
    ;
    if k == 1 {
        assert(h >= 28);
        assert(q <= 1) by (nonlinear_arith)
            requires
                h >= 28,
                q == 29int / (h + 1),
        ;
        assert(kqw <= 1) by (nonlinear_arith)
            requires
                k == 1,
                0 <= q <= 1,
                kq == k * q,
                0 <= w <= 1,
                kqw == kq * w,
        ;
    }
    assert(0 <= k * (1 - kqw) <= 1) by (nonlinear_arith)
        requires
            0 <= k <= 1,
            0 <= kqw <= 29,
            k == 1 ==> kqw <= 1,
    ;
    let t: i64 = k * (1 - kqw);
    let i: i64 = h - t;
    let j: i64 = (y + y / 4 + i + 2 - c + c / 4) % 7;
    assert(0 <= i <= 29 && 0 <= j < 7);
    let p: i64 = i - j;
    let m: i64 = 3 + (p + 26) / 30;
    let day: i64 = 1 + (p + 27 + (p + 6) / 40) % 31;
    assert(3 <= m <= 5);
    assert(1 <= day <= 31);
    proof {
        let yi = y as int;
        assert(g as int == yi % 19);
        assert(c as int == yi / 100);
        assert(h as int == (c - c / 4 - (8 * c + 13) / 25 + 19 * g + 15) % 30);
        assert(q as int == 29int / (h + 1));
        assert(w as int == (21 - g) / 11);
        assert(k as int == h / 28);
        assert(t as int == k * (1 - k * q * w));
        assert(j as int == (yi + yi / 4 + i + 2 - c + c / 4) % 7);
        assert(m as int == 3 + (p + 26) / 30);
        assert(day as int == 1 + (p + 27 + (p + 6) / 40) % 31);
        assert(m as int == easter_md(yi).0 && day as int == easter_md(yi).1);
        lemma_easter_computus(yi);
    }
    try_ymd(y as i32, m as u32, day as u32, d.tz())
}

/// A rule that moves the date a holiday falls on to the day it is observed,
/// or leaves it out.
#[derive(Debug, Eq, PartialEq, Structural, Hash, Copy, Clone)]
pub enum Observance {
    /// The day itself.
    Same,
    /// The day where it falls on the given day of the week, else none.
    OnlyOn(Day),
    /// A Sunday moves to the Monday after.
    SunToMon,
    /// The day where it falls from Monday to Thursday, else none.
    IsMonToThu,
    /// The day where it falls on a Monday, a Tuesday or a Thursday, else none.
    MonTueThu,
    /// A Saturday moves to the Friday before, a Sunday to the Monday after.
    NearestWorkday,
    /// The `n`th given day of the week on or after the day (`n > 0`), or
    /// on or before it (`n < 0`).
    FindWeekday(Day, i8),
    /// In years divisible by four, the first Tuesday on or after the day;
    /// else none.
    NextTuesdayEveryFourYears,
    /// The day after the fourth Thursday on or after the day.
    DayAfter4thThu,
    /// Two days before Easter Sunday of the day's year; none in a year
    /// Easter's rule is not worked out for (before 1583 or after 4099).
    GoodFriday,
}

/// The rule `o` can be applied to the date `d`: the days it moves to exist
/// and the date operation can be done.
pub open spec fn obs_ok(o: Observance, d: (i32, u32, u32)) -> bool {
    match o {
        Observance::SunToMon => day_in_range(day_number(d) + 1),
        Observance::NearestWorkday => day_in_range(day_number(d) - 1) && day_in_range(
            day_number(d) + 1,
        ),
        Observance::FindWeekday(day, n) => dop_ok(d, find_dop(day), n as i64),
        Observance::NextTuesdayEveryFourYears => dop_ok(d, DOp::FindTue, 1),
        Observance::DayAfter4thThu => dop_ok(d, DOp::FindThu, 4) && forall|x: (i32, u32, u32)|
            #[trigger] dop_holds(d, DOp::FindThu, 4, x) ==> day_in_range(day_number(x) + 1),
        _ => true,
    }
}

/// The date `x` is the date `d` moved by `k` days.
pub open spec fn moved_by(d: (i32, u32, u32), k: int, x: (i32, u32, u32)) -> bool {
    valid_date(x) && day_number(x) == day_number(d) + k
}

/// `r` is what the rule `o` makes of the date `d`: the day it is observed on,
/// or none.
pub open spec fn observed(o: Observance, d: (i32, u32, u32), r: Option<(i32, u32, u32)>) -> bool {
    match o {
        Observance::Same => r == Some(d),
        Observance::OnlyOn(day) => r == (if weekday_of(d) == day_index(day) {
            Some(d)
        } else {
            None
        }),
        Observance::SunToMon => r matches Some(x) && moved_by(
            d,
            if weekday_of(d) == 6 {
                1
            } else {
                0
            },
            x,
        ),
        Observance::IsMonToThu => r == (if weekday_of(d) <= 3 {
            Some(d)
        } else {
            None
        }),
        Observance::MonTueThu => r == (if weekday_of(d) == 0 || weekday_of(d) == 1 || weekday_of(d)
            == 3 {
            Some(d)
        } else {
            None
        }),
        Observance::NearestWorkday => r matches Some(x) && moved_by(
            d,
            if weekday_of(d) == 5 {
                -1
            } else if weekday_of(d) == 6 {
                1
            } else {
                0
            },
            x,
        ),
        Observance::FindWeekday(day, n) => r matches Some(x) && dop_holds(
            d,
            find_dop(day),
            n as i64,
            x,
        ),
        Observance::NextTuesdayEveryFourYears => if d.0 % 4 == 0 {
            r matches Some(x) && dop_holds(d, DOp::FindTue, 1, x)
        } else {
            r is None
        },
        Observance::DayAfter4thThu => r matches Some(x) && exists|t: (i32, u32, u32)|
            #[trigger] dop_holds(d, DOp::FindThu, 4, t) && moved_by(t, 1, x),
        Observance::GoodFriday => {
            let e = (d.0, easter_md(d.0 as int).0 as u32, easter_md(d.0 as int).1 as u32);
            if easter_year(d.0 as int) && valid_date(e) {
                r matches Some(x) && moved_by(e, -2, x)
            } else {
                r is None
            }
        },
    }
}

/// The view of an optional date.
pub open spec fn opt_view(r: Option<Date>) -> Option<(i32, u32, u32)> {
    match r {
        Some(x) => Some(x@),
        None => None,
    }
}

impl Observance {
    /// The day the rule observes the date `d` on, or none.
    #[verifier::rlimit(60)]
    pub fn observe(&self, d: Date) -> (r: Option<Date>)
        requires
            obs_ok(*self, d@),
        ensures
            observed(*self, d@, opt_view(r)),
            r matches Some(x) ==> x.zone() == d.zone(),
    {
        proof {
            use_type_invariant(&d);
        }
        match self {
            Observance::Same => Some(d),
            Observance::OnlyOn(day) => if day_index_of(d.weekday()) == day_index_of(*day) {
                Some(d)
            } else {
                None
            },
            Observance::SunToMon => {
                let w = d.weekday();
                if day_index_of(w) == 6 {
                    Some(d.add_days(1))
                } else {
                    Some(d)
                }
            },
            Observance::IsMonToThu => if day_index_of(d.weekday()) <= 3 {
                Some(d)
            } else {
                None
            },
            Observance::MonTueThu => {
                let k = day_index_of(d.weekday());
                if k == 0 || k == 1 || k == 3 {
                    Some(d)
                } else {
                    None
                }
            },
            Observance::NearestWorkday => {
                let k = day_index_of(d.weekday());
                if k == 5 {
                    Some(d.add_days(-1))
                } else if k == 6 {
                    Some(d.add_days(1))
                } else {
                    Some(d)
                }
            },
            Observance::FindWeekday(day, n) => Some(DateOp::new(find_dop_of(*day), *n as i64).apply(d)),
            Observance::NextTuesdayEveryFourYears => if d.year() % 4 == 0 {
                Some(DateOp::find_tue(1).apply(d))
            } else {
                None
            },
            Observance::DayAfter4thThu => {
                let t = DateOp::find_thu(4).apply(d);
                proof {
                    use_type_invariant(&t);
                }
                let x = DateOp::add_days(1).apply(t);
                proof {
                    assert(dop_holds(d@, DOp::FindThu, 4, t@));
                }
                Some(x)
            },
            Observance::GoodFriday => if 1583 <= d.year() && d.year() <= 4099 {
                match easter(d) {
                    Some(e) => {
                        proof {
                            use_type_invariant(&e);
                        }
                        Some(DateOp::add_days(-2).apply(e))
                    },
                    None => None,
                }
            } else {
                None
            },
        }
    }
}

/// The operation that finds the given day of the week.
pub open spec fn find_dop(d: Day) -> DOp {
    match d {
        Day::Mon => DOp::FindMon,
        Day::Tue => DOp::FindTue,
        Day::Wed => DOp::FindWed,
        Day::Thu => DOp::FindThu,
        Day::Fri => DOp::FindFri,
        Day::Sat => DOp::FindSat,
        Day::Sun => DOp::FindSun,
    }
}

/// The operation that finds the given day of the week.
fn find_dop_of(d: Day) -> (r: DOp)
    ensures
        r == find_dop(d),
{
    match d {
        Day::Mon => DOp::FindMon,
        Day::Tue => DOp::FindTue,
        Day::Wed => DOp::FindWed,
        Day::Thu => DOp::FindThu,
        Day::Fri => DOp::FindFri,
        Day::Sat => DOp::FindSat,
        Day::Sun => DOp::FindSun,
    }
}

/// The years the Gregorian rule for Easter is worked out for.
pub open spec fn easter_year(y: int) -> bool {
    1583 <= y <= 4099
}

/// A year far enough from the ends of the range of dates that every rule
/// can move its dates: four years in from either end.
pub open spec fn rule_year(y: int) -> bool {
    MIN_YEAR + 4 <= y <= MAX_YEAR - 4
}

/// Dates in a rule year are far from the ends of the calendar: the dates a
/// thousand and one days around them exist.
proof fn lemma_rule_year_room(d: (i32, u32, u32), k: int)
    requires
        valid_date(d),
        rule_year(d.0 as int),
        -1001 <= k <= 1001,
    ensures
        day_in_range(day_number(d) + k),
{
    lemma_day_in_year(d);
    lemma_years_ordered(MIN_YEAR + 4, d.0 as int);
    lemma_years_ordered(d.0 + 1, MAX_YEAR - 3);
    assert(days_before_year(MIN_YEAR + 4) == -95744669);
    assert(days_before_year(MAX_YEAR - 3) == 95743938);
    assert(day_number(first_date()) == -95746130);
    assert(day_number(last_date()) == 95745398);
}

/// Every rule can be applied to a date in a rule year.
pub proof fn lemma_rule_ok(o: Observance, d: (i32, u32, u32))
    requires
        valid_date(d),
        rule_year(d.0 as int),
    ensures
        obs_ok(o, d),
{
    lemma_rule_year_room(d, 1);
    lemma_rule_year_room(d, -1);
    match o {
        Observance::FindWeekday(day, n) => {
            lemma_find_room(d, find_dop(day), n as i64);
        },
        Observance::NextTuesdayEveryFourYears => {
            lemma_find_room(d, DOp::FindTue, 1);
        },
        Observance::DayAfter4thThu => {
            lemma_find_room(d, DOp::FindThu, 4);
            assert forall|x: (i32, u32, u32)| #[trigger]
                dop_holds(d, DOp::FindThu, 4, x) implies day_in_range(day_number(x) + 1) by {
                lemma_rule_year_room(d, weekday_shift(d, DOp::FindThu, 4) + 1);
            }
        },
        _ => {},
    }
}

/// A find of a day of the week by a small count can be done on a date in a
/// rule year, and moves it by at most a thousand days.
proof fn lemma_find_room(d: (i32, u32, u32), op: DOp, n: i64)
    requires
        valid_date(d),
        rule_year(d.0 as int),
        is_find_weekday(op),
        -128 <= n <= 127,
    ensures
        dop_ok(d, op, n),
        -1000 <= weekday_shift(d, op, n) <= 1000,
{
    let offset = weekday_offset(dop_index(op) - 9, weekday_of(d));
    assert(0 <= offset < 7);
    assert(-130 <= find_weeks(offset, n) <= 130);
    assert(-1000 <= weekday_shift(d, op, n) <= 1000);
    lemma_rule_year_room(d, weekday_shift(d, op, n));
}

/// A rule observes a date on one day at most: two results of it are the
/// same.
#[verifier::rlimit(60)]
pub proof fn lemma_observed_unique(
    o: Observance,
    d: (i32, u32, u32),
    r1: Option<(i32, u32, u32)>,
    r2: Option<(i32, u32, u32)>,
)
    requires
        observed(o, d, r1),
        observed(o, d, r2),
    ensures
        r1 == r2,
{
    match o {
        Observance::FindWeekday(day, n) => {
            lemma_dop_holds_unique(d, find_dop(day), n as i64, r1.unwrap(), r2.unwrap());
        },
        Observance::NextTuesdayEveryFourYears => {
            if d.0 % 4 == 0 {
                lemma_dop_holds_unique(d, DOp::FindTue, 1, r1.unwrap(), r2.unwrap());
            }
        },
        Observance::DayAfter4thThu => {
            let t1 = choose|t: (i32, u32, u32)|
                #[trigger] dop_holds(d, DOp::FindThu, 4, t) && moved_by(t, 1, r1.unwrap());
            let t2 = choose|t: (i32, u32, u32)|
                #[trigger] dop_holds(d, DOp::FindThu, 4, t) && moved_by(t, 1, r2.unwrap());
            lemma_dop_holds_unique(d, DOp::FindThu, 4, t1, t2);
            lemma_day_number_injective(r1.unwrap(), r2.unwrap());
        },
        Observance::SunToMon | Observance::NearestWorkday | Observance::GoodFriday => {
            if r1 is Some && r2 is Some {
                lemma_day_number_injective(r1.unwrap(), r2.unwrap());
            }
        },
        _ => {},
    }
}

/// How many days at most the rule `o` moves a date.
pub open spec fn reach(o: Observance) -> int {
    match o {
        Observance::SunToMon | Observance::NearestWorkday => 1,
        Observance::FindWeekday(_, _) | Observance::NextTuesdayEveryFourYears => 1000,
        Observance::DayAfter4thThu => 1001,
        Observance::GoodFriday => 400,
        _ => 0,
    }
}

/// How many days at most the rule moves a date.
pub fn reach_of(o: &Observance) -> (r: i32)
    ensures
        r == reach(*o),
{
    match o {
        Observance::SunToMon | Observance::NearestWorkday => 1,
        Observance::FindWeekday(_, _) | Observance::NextTuesdayEveryFourYears => 1000,
        Observance::DayAfter4thThu => 1001,
        Observance::GoodFriday => 400,
        _ => 0,
    }
}

/// A find of a day of the week by a count that fits in a byte moves a date
/// by at most a thousand days.
proof fn lemma_find_shift(d: (i32, u32, u32), op: DOp, n: i64)
    requires
        is_find_weekday(op),
        -128 <= n <= 127,
    ensures
        -1000 <= weekday_shift(d, op, n) <= 1000,
{
    let offset = weekday_offset(dop_index(op) - 9, weekday_of(d));
    assert(0 <= offset < 7);
    assert(-130 <= find_weeks(offset, n) <= 130);
}

/// A rule moves a date by at most its reach, to a date that exists.
pub proof fn lemma_reach(o: Observance, b: (i32, u32, u32), x: (i32, u32, u32))
    requires
        valid_date(b),
        observed(o, b, Some(x)),
    ensures
        valid_date(x),
        -reach(o) <= day_number(x) - day_number(b) <= reach(o),
{
    match o {
        Observance::FindWeekday(day, n) => {
            lemma_find_shift(b, find_dop(day), n as i64);
        },
        Observance::NextTuesdayEveryFourYears => {
            lemma_find_shift(b, DOp::FindTue, 1);
        },
        Observance::DayAfter4thThu => {
            let t = choose|t: (i32, u32, u32)|
                #[trigger] dop_holds(b, DOp::FindThu, 4, t) && moved_by(t, 1, x);
            lemma_find_shift(b, DOp::FindThu, 4);
        },
        Observance::GoodFriday => {
            let e = (b.0, easter_md(b.0 as int).0 as u32, easter_md(b.0 as int).1 as u32);
            lemma_day_in_year(b);
            lemma_day_in_year(e);
            lemma_year_length(b.0 as int);
        },
        _ => {},
    }
}

/// The number of a day of the week, Monday being 0.
fn day_index_of(d: Day) -> (r: u32)
    ensures
        r == day_index(d),
{
    match d {
        Day::Mon => 0,
        Day::Tue => 1,
        Day::Wed => 2,
        Day::Thu => 3,
        Day::Fri => 4,
        Day::Sat => 5,
        Day::Sun => 6,
    }
}

/// The Saturdays.
pub fn saturday() -> (r: DaySet)
    ensures
        set_is(r, None, None, None, Observance::OnlyOn(Day::Sat), seq![]),
{
    DaySet::new().with_observance(Observance::OnlyOn(Day::Sat))
}

/// The Sundays.
pub fn sunday() -> (r: DaySet)
    ensures
        set_is(r, None, None, None, Observance::OnlyOn(Day::Sun), seq![]),
{
    DaySet::new().with_observance(Observance::OnlyOn(Day::Sun))
}

/// Good Friday: two days before Easter Sunday.
pub fn good_friday() -> (r: DaySet)
    ensures
        set_is(r, Some((1u32, 1u32)), None, None, Observance::GoodFriday, seq![]),
{
    DaySet::new().with_md(1, 1).with_observance(Observance::GoodFriday)
}

/// New Year's Day, moved to Monday when it falls on a Sunday.
pub fn us_new_years_day() -> (r: DaySet)
    ensures
        set_is(r, Some((1u32, 1u32)), None, None, Observance::SunToMon, seq![]),
{
    DaySet::new().with_md(1, 1).with_observance(Observance::SunToMon)
}

/// Martin Luther King Jr. Day: the third Monday of January, from 1998.
pub fn us_martin_luther_king_jr_after1998() -> (r: DaySet)
    ensures
        set_is(r, Some((1u32, 1u32)), Some((1998i32, 1u32, 1u32)), None, Observance::FindWeekday(Day::Mon, 3i8), seq![]),
{
    DaySet::new().with_md(1, 1).with_start(ymd(1998, 1, 1, us_eastern())).with_observance(Observance::FindWeekday(Day::Mon, 3i8))
}

/// Presidents' Day: the third Monday of February, from 1971.
pub fn us_presidents_day() -> (r: DaySet)
    ensures
        set_is(r, Some((2u32, 1u32)), Some((1971i32, 1u32, 1u32)), None, Observance::FindWeekday(Day::Mon, 3i8), seq![]),
{
    DaySet::new().with_md(2, 1).with_start(ymd(1971, 1, 1, us_eastern())).with_observance(Observance::FindWeekday(Day::Mon, 3i8))
}

/// Lincoln's Birthday, February 12th, from 1896 through 1953.
pub fn us_lincolns_birth_day_before1954() -> (r: DaySet)
    ensures
        set_is(r, Some((2u32, 12u32)), Some((1896i32, 1u32, 1u32)), Some((1953i32, 12u32, 31u32)), Observance::SunToMon, seq![]),
{
    DaySet::new().with_md(2, 12).with_start(ymd(1896, 1, 1, us_eastern())).with_end(ymd(1953, 12, 31, us_eastern())).with_observance(Observance::SunToMon)
}

/// Washington's Birthday, February 22nd, from 1880 through 1963.
pub fn us_washingtons_birth_day_before1964() -> (r: DaySet)
    ensures
        set_is(r, Some((2u32, 22u32)), Some((1880i32, 1u32, 1u32)), Some((1963i32, 12u32, 31u32)), Observance::SunToMon, seq![]),
{
    DaySet::new().with_md(2, 22).with_start(ymd(1880, 1, 1, us_eastern())).with_end(ymd(1963, 12, 31, us_eastern())).with_observance(Observance::SunToMon)
}

/// Washington's Birthday on the nearest weekday to February 22nd, from 1964 through 1970.
pub fn us_washingtons_birth_day1964to1970() -> (r: DaySet)
    ensures
        set_is(r, Some((2u32, 22u32)), Some((1964i32, 1u32, 1u32)), Some((1970i32, 12u32, 31u32)), Observance::NearestWorkday, seq![]),
{
    DaySet::new().with_md(2, 22).with_start(ymd(1964, 1, 1, us_eastern())).with_end(ymd(1970, 12, 31, us_eastern())).with_observance(Observance::NearestWorkday)
}

/// Memorial Day: the last Monday of May, from 1971.
pub fn us_memorial_day() -> (r: DaySet)
    ensures
        set_is(r, Some((5u32, 25u32)), Some((1971i32, 1u32, 1u32)), None, Observance::FindWeekday(Day::Mon, 1i8), seq![]),
{
    DaySet::new().with_md(5, 25).with_start(ymd(1971, 1, 1, us_eastern())).with_observance(Observance::FindWeekday(Day::Mon, 1i8))
}

/// Memorial Day, May 30th, before 1964.
pub fn us_memorial_day_before1964() -> (r: DaySet)
    ensures
        set_is(r, Some((5u32, 30u32)), None, Some((1963i32, 12u32, 31u32)), Observance::SunToMon, seq![]),
{
    DaySet::new().with_md(5, 30).with_end(ymd(1963, 12, 31, us_eastern())).with_observance(Observance::SunToMon)
}

/// Memorial Day on the nearest weekday to May 30th, from 1964 through 1969.
pub fn us_memorial_day1964to1969() -> (r: DaySet)
    ensures
        set_is(r, Some((5u32, 30u32)), Some((1964i32, 1u32, 1u32)), Some((1969i32, 12u32, 31u32)), Observance::NearestWorkday, seq![]),
{
    DaySet::new().with_md(5, 30).with_start(ymd(1964, 1, 1, us_eastern())).with_end(ymd(1969, 12, 31, us_eastern())).with_observance(Observance::NearestWorkday)
}

/// July 3rd when it falls on a Monday, a Tuesday or a Thursday, from 1995.
pub fn mon_tues_thurs_before_independence_day() -> (r: DaySet)
    ensures
        set_is(r, Some((7u32, 3u32)), Some((1995i32, 1u32, 1u32)), None, Observance::MonTueThu, seq![]),
{
    DaySet::new().with_md(7, 3).with_start(ymd(1995, 1, 1, us_eastern())).with_observance(Observance::MonTueThu)
}

/// July 3rd when it falls on a Wednesday, from 2013.
pub fn wednesday_before_independence_day_post2013() -> (r: DaySet)
    ensures
        set_is(r, Some((7u32, 3u32)), Some((2013i32, 1u32, 1u32)), None, Observance::OnlyOn(Day::Wed), seq![]),
{
    DaySet::new().with_md(7, 3).with_start(ymd(2013, 1, 1, us_eastern())).with_observance(Observance::OnlyOn(Day::Wed))
}

/// Independence Day, July 4th, before 1954.
pub fn us_independence_day_before1954() -> (r: DaySet)
    ensures
        set_is(r, Some((7u32, 4u32)), None, Some((1953i32, 12u32, 31u32)), Observance::SunToMon, seq![]),
{
    DaySet::new().with_md(7, 4).with_end(ymd(1953, 12, 31, us_eastern())).with_observance(Observance::SunToMon)
}

/// Independence Day on the nearest weekday to July 4th, from 1954.
pub fn us_independence_day() -> (r: DaySet)
    ensures
        set_is(r, Some((7u32, 4u32)), Some((1954i32, 1u32, 1u32)), None, Observance::NearestWorkday, seq![]),
{
    DaySet::new().with_md(7, 4).with_start(ymd(1954, 1, 1, us_eastern())).with_observance(Observance::NearestWorkday)
}

/// July 5th when it falls on a Friday, from 1995 until 2013.
pub fn friday_after_independence_day_pre2013() -> (r: DaySet)
    ensures
        set_is(r, Some((7u32, 5u32)), Some((1995i32, 1u32, 1u32)), Some((2013i32, 1u32, 1u32)), Observance::OnlyOn(Day::Fri), seq![]),
{
    DaySet::new().with_md(7, 5).with_start(ymd(1995, 1, 1, us_eastern())).with_end(ymd(2013, 1, 1, us_eastern())).with_observance(Observance::OnlyOn(Day::Fri))
}

/// Labor Day: the first Monday of September.
pub fn us_labor_day() -> (r: DaySet)
    ensures
        set_is(r, Some((9u32, 1u32)), None, None, Observance::FindWeekday(Day::Mon, 1i8), seq![]),
{
    DaySet::new().with_md(9, 1).with_observance(Observance::FindWeekday(Day::Mon, 1i8))
}

/// Columbus Day, October 12th, before 1954.
pub fn us_columbus_day_before1954() -> (r: DaySet)
    ensures
        set_is(r, Some((10u32, 12u32)), None, Some((1953i32, 12u32, 31u32)), Observance::SunToMon, seq![]),
{
    DaySet::new().with_md(10, 12).with_end(ymd(1953, 12, 31, us_eastern())).with_observance(Observance::SunToMon)
}

/// Thanksgiving: the fourth Thursday of November, from 1942.
pub fn us_thanksgiving_day() -> (r: DaySet)
    ensures
        set_is(r, Some((11u32, 1u32)), Some((1942i32, 1u32, 1u32)), None, Observance::FindWeekday(Day::Thu, 4i8), seq![]),
{
    DaySet::new().with_md(11, 1).with_start(ymd(1942, 1, 1, us_eastern())).with_observance(Observance::FindWeekday(Day::Thu, 4i8))
}

/// The day after Thanksgiving in 1992.
pub fn us_black_friday_before1993() -> (r: DaySet)
    ensures
        set_is(r, Some((11u32, 1u32)), Some((1992i32, 1u32, 1u32)), Some((1993i32, 1u32, 1u32)), Observance::DayAfter4thThu, seq![]),
{
    DaySet::new().with_md(11, 1).with_start(ymd(1992, 1, 1, us_eastern())).with_end(ymd(1993, 1, 1, us_eastern())).with_observance(Observance::DayAfter4thThu)
}

/// The day after Thanksgiving, from 1993.
pub fn us_black_friday_in_or_after1993() -> (r: DaySet)
    ensures
        set_is(r, Some((11u32, 1u32)), Some((1993i32, 1u32, 1u32)), None, Observance::DayAfter4thThu, seq![]),
{
    DaySet::new().with_md(11, 1).with_start(ymd(1993, 1, 1, us_eastern())).with_observance(Observance::DayAfter4thThu)
}

/// Election Day: the first Tuesday on or after November 2nd, from 1848 through 1967.
pub fn us_election_day1848to1967() -> (r: DaySet)
    ensures
        set_is(r, Some((11u32, 2u32)), Some((1848i32, 1u32, 1u32)), Some((1967i32, 12u32, 31u32)), Observance::FindWeekday(Day::Tue, 1i8), seq![]),
{
    DaySet::new().with_md(11, 2).with_start(ymd(1848, 1, 1, us_eastern())).with_end(ymd(1967, 12, 31, us_eastern())).with_observance(Observance::FindWeekday(Day::Tue, 1i8))
}

/// Election Day every four years, from 1968 through 1980.
pub fn us_election_day1968to1980() -> (r: DaySet)
    ensures
        set_is(r, Some((11u32, 2u32)), Some((1968i32, 1u32, 1u32)), Some((1980i32, 12u32, 31u32)), Observance::NextTuesdayEveryFourYears, seq![]),
{
    DaySet::new().with_md(11, 2).with_start(ymd(1968, 1, 1, us_eastern())).with_end(ymd(1980, 12, 31, us_eastern())).with_observance(Observance::NextTuesdayEveryFourYears)
}

/// Veterans Day, November 11th, from 1934 through 1953.
pub fn us_veterans_day1934to1953() -> (r: DaySet)
    ensures
        set_is(r, Some((11u32, 11u32)), Some((1934i32, 1u32, 1u32)), Some((1953i32, 12u32, 31u32)), Observance::SunToMon, seq![]),
{
    DaySet::new().with_md(11, 11).with_start(ymd(1934, 1, 1, us_eastern())).with_end(ymd(1953, 12, 31, us_eastern())).with_observance(Observance::SunToMon)
}

/// Thanksgiving: the last Thursday of November, from 1864 through 1938.
pub fn us_thanksgiving_day_before1939() -> (r: DaySet)
    ensures
        set_is(r, Some((11u32, 30u32)), Some((1864i32, 1u32, 1u32)), Some((1938i32, 12u32, 31u32)), Observance::FindWeekday(Day::Thu, -1i8), seq![]),
{
    DaySet::new().with_md(11, 30).with_start(ymd(1864, 1, 1, us_eastern())).with_end(ymd(1938, 12, 31, us_eastern())).with_observance(Observance::FindWeekday(Day::Thu, -1i8))
}

/// Thanksgiving: the second to last Thursday of November, from 1939 through 1941.
pub fn us_thanksgiving_day1939to1941() -> (r: DaySet)
    ensures
        set_is(r, Some((11u32, 30u32)), Some((1939i32, 1u32, 1u32)), Some((1941i32, 12u32, 31u32)), Observance::FindWeekday(Day::Thu, -2i8), seq![]),
{
    DaySet::new().with_md(11, 30).with_start(ymd(1939, 1, 1, us_eastern())).with_end(ymd(1941, 12, 31, us_eastern())).with_observance(Observance::FindWeekday(Day::Thu, -2i8))
}

/// Christmas Eve from Monday to Thursday, before 1993.
pub fn christmas_eve_before1993() -> (r: DaySet)
    ensures
        set_is(r, Some((12u32, 24u32)), None, Some((1993i32, 1u32, 1u32)), Observance::IsMonToThu, seq![]),
{
    DaySet::new().with_md(12, 24).with_end(ymd(1993, 1, 1, us_eastern())).with_observance(Observance::IsMonToThu)
}

/// Christmas Eve from Monday to Thursday, from 1993.
pub fn christmas_eve_in_or_after1993() -> (r: DaySet)
    ensures
        set_is(r, Some((12u32, 24u32)), Some((1993i32, 1u32, 1u32)), None, Observance::IsMonToThu, seq![]),
{
    DaySet::new().with_md(12, 24).with_start(ymd(1993, 1, 1, us_eastern())).with_observance(Observance::IsMonToThu)
}

/// Christmas, December 25th, before 1954.
pub fn christmas_before1954() -> (r: DaySet)
    ensures
        set_is(r, Some((12u32, 25u32)), None, Some((1953i32, 12u32, 31u32)), Observance::SunToMon, seq![]),
{
    DaySet::new().with_md(12, 25).with_end(ymd(1953, 12, 31, us_eastern())).with_observance(Observance::SunToMon)
}

/// Christmas on the nearest weekday to December 25th, from 1954.
pub fn christmas() -> (r: DaySet)
    ensures
        set_is(r, Some((12u32, 25u32)), Some((1954i32, 1u32, 1u32)), None, Observance::NearestWorkday, seq![]),
{
    DaySet::new().with_md(12, 25).with_start(ymd(1954, 1, 1, us_eastern())).with_observance(Observance::NearestWorkday)
}

/// The closing for the Battle of Gettysburg.
pub fn battle_of_gettysburg() -> (r: DaySet)
    ensures
        set_is(r, None, None, None, Observance::Same, seq![(1863i32, 7u32, 1u32), (1863i32, 7u32, 2u32), (1863i32, 7u32, 3u32)]),
{
    let tz = us_eastern();
    let r = DaySet::new().with_adhoc(vec![ymd(1863, 7, 1, tz), ymd(1863, 7, 2, tz), ymd(1863, 7, 3, tz)]);
    assert(r.listed().map_values(|d: Date| d@) =~= seq![(1863i32, 7u32, 1u32), (1863i32, 7u32, 2u32), (1863i32, 7u32, 3u32)]);
    r
}

/// The closings for backlog relief in November 1929.
pub fn november29_backlog_relief() -> (r: DaySet)
    ensures
        set_is(r, None, None, None, Observance::Same, seq![(1929i32, 11u32, 1u32), (1929i32, 11u32, 29u32)]),
{
    let tz = us_eastern();
    let r = DaySet::new().with_adhoc(vec![ymd(1929, 11, 1, tz), ymd(1929, 11, 29, tz)]);
    assert(r.listed().map_values(|d: Date| d@) =~= seq![(1929i32, 11u32, 1u32), (1929i32, 11u32, 29u32)]);
    r
}

/// The bank holiday of March 1933.
pub fn march33_bank_holiday() -> (r: DaySet)
    ensures
        set_is(r, None, None, None, Observance::Same, seq![(1933i32, 3u32, 6u32), (1933i32, 3u32, 7u32), (1933i32, 3u32, 8u32), (1933i32, 3u32, 9u32), (1933i32, 3u32, 10u32), (1933i32, 3u32, 11u32), (1933i32, 3u32, 12u32), (1933i32, 3u32, 13u32), (1933i32, 3u32, 14u32)]),
{
    let tz = us_eastern();
    let r = DaySet::new().with_adhoc(vec![ymd(1933, 3, 6, tz), ymd(1933, 3, 7, tz), ymd(1933, 3, 8, tz), ymd(1933, 3, 9, tz), ymd(1933, 3, 10, tz), ymd(1933, 3, 11, tz), ymd(1933, 3, 12, tz), ymd(1933, 3, 13, tz), ymd(1933, 3, 14, tz)]);
    assert(r.listed().map_values(|d: Date| d@) =~= seq![(1933i32, 3u32, 6u32), (1933i32, 3u32, 7u32), (1933i32, 3u32, 8u32), (1933i32, 3u32, 9u32), (1933i32, 3u32, 10u32), (1933i32, 3u32, 11u32), (1933i32, 3u32, 12u32), (1933i32, 3u32, 13u32), (1933i32, 3u32, 14u32)]);
    r
}

/// The closings after the victory over Japan.
pub fn august45_victory_over_japan() -> (r: DaySet)
    ensures
        set_is(r, None, None, None, Observance::Same, seq![(1945i32, 8u32, 15u32), (1945i32, 8u32, 16u32)]),
{
    let tz = us_eastern();
    let r = DaySet::new().with_adhoc(vec![ymd(1945, 8, 15, tz), ymd(1945, 8, 16, tz)]);
    assert(r.listed().map_values(|d: Date| d@) =~= seq![(1945i32, 8u32, 15u32), (1945i32, 8u32, 16u32)]);
    r
}

/// Christmas Eves the exchange closed on.
pub fn christmas_eves_adhoc() -> (r: DaySet)
    ensures
        set_is(r, None, None, None, Observance::Same, seq![(1945i32, 12u32, 24u32), (1956i32, 12u32, 24u32)]),
{
    let tz = us_eastern();
    let r = DaySet::new().with_adhoc(vec![ymd(1945, 12, 24, tz), ymd(1956, 12, 24, tz)]);
    assert(r.listed().map_values(|d: Date| d@) =~= seq![(1945i32, 12u32, 24u32), (1956i32, 12u32, 24u32)]);
    r
}

/// A day after Christmas the exchange closed on.
pub fn day_after_christmas_adhoc() -> (r: DaySet)
    ensures
        set_is(r, None, None, None, Observance::Same, seq![(1958i32, 12u32, 26u32)]),
{
    let tz = us_eastern();
    let r = DaySet::new().with_adhoc(vec![ymd(1958, 12, 26, tz)]);
    assert(r.listed().map_values(|d: Date| d@) =~= seq![(1958i32, 12u32, 26u32)]);
    r
}

/// The day before Decoration Day in 1961.
pub fn day_before_decoration_adhoc() -> (r: DaySet)
    ensures
        set_is(r, None, None, None, Observance::Same, seq![(1961i32, 5u32, 29u32)]),
{
    let tz = us_eastern();
    let r = DaySet::new().with_adhoc(vec![ymd(1961, 5, 29, tz)]);
    assert(r.listed().map_values(|d: Date| d@) =~= seq![(1961i32, 5u32, 29u32)]);
    r
}

/// Lincoln's Birthday in 1968.
pub fn lincolns_birth_day_adhoc() -> (r: DaySet)
    ensures
        set_is(r, None, None, None, Observance::Same, seq![(1968i32, 2u32, 12u32)]),
{
    let tz = us_eastern();
    let r = DaySet::new().with_adhoc(vec![ymd(1968, 2, 12, tz)]);
    assert(r.listed().map_values(|d: Date| d@) =~= seq![(1968i32, 2u32, 12u32)]);
    r
}

/// The closings for the paperwork crisis of 1968.
pub fn paperwork_crisis68() -> (r: DaySet)
    ensures
        set_is(r, None, None, None, Observance::Same, seq![(1968i32, 6u32, 12u32), (1968i32, 6u32, 19u32), (1968i32, 6u32, 26u32), (1968i32, 7u32, 10u32), (1968i32, 7u32, 17u32), (1968i32, 7u32, 24u32), (1968i32, 7u32, 31u32), (1968i32, 8u32, 7u32), (1968i32, 8u32, 14u32), (1968i32, 8u32, 21u32), (1968i32, 8u32, 28u32), (1968i32, 9u32, 11u32), (1968i32, 9u32, 18u32), (1968i32, 9u32, 25u32), (1968i32, 10u32, 2u32), (1968i32, 10u32, 9u32), (1968i32, 10u32, 16u32), (1968i32, 10u32, 23u32), (1968i32, 10u32, 30u32), (1968i32, 11u32, 11u32), (1968i32, 11u32, 20u32), (1968i32, 12u32, 4u32), (1968i32, 12u32, 11u32), (1968i32, 12u32, 18u32), (1968i32, 12u32, 25u32)]),
{
    let tz = us_eastern();
    let r = DaySet::new().with_adhoc(vec![ymd(1968, 6, 12, tz), ymd(1968, 6, 19, tz), ymd(1968, 6, 26, tz), ymd(1968, 7, 10, tz), ymd(1968, 7, 17, tz), ymd(1968, 7, 24, tz), ymd(1968, 7, 31, tz), ymd(1968, 8, 7, tz), ymd(1968, 8, 14, tz), ymd(1968, 8, 21, tz), ymd(1968, 8, 28, tz), ymd(1968, 9, 11, tz), ymd(1968, 9, 18, tz), ymd(1968, 9, 25, tz), ymd(1968, 10, 2, tz), ymd(1968, 10, 9, tz), ymd(1968, 10, 16, tz), ymd(1968, 10, 23, tz), ymd(1968, 10, 30, tz), ymd(1968, 11, 11, tz), ymd(1968, 11, 20, tz), ymd(1968, 12, 4, tz), ymd(1968, 12, 11, tz), ymd(1968, 12, 18, tz), ymd(1968, 12, 25, tz)]);
    assert(r.listed().map_values(|d: Date| d@) =~= seq![(1968i32, 6u32, 12u32), (1968i32, 6u32, 19u32), (1968i32, 6u32, 26u32), (1968i32, 7u32, 10u32), (1968i32, 7u32, 17u32), (1968i32, 7u32, 24u32), (1968i32, 7u32, 31u32), (1968i32, 8u32, 7u32), (1968i32, 8u32, 14u32), (1968i32, 8u32, 21u32), (1968i32, 8u32, 28u32), (1968i32, 9u32, 11u32), (1968i32, 9u32, 18u32), (1968i32, 9u32, 25u32), (1968i32, 10u32, 2u32), (1968i32, 10u32, 9u32), (1968i32, 10u32, 16u32), (1968i32, 10u32, 23u32), (1968i32, 10u32, 30u32), (1968i32, 11u32, 11u32), (1968i32, 11u32, 20u32), (1968i32, 12u32, 4u32), (1968i32, 12u32, 11u32), (1968i32, 12u32, 18u32), (1968i32, 12u32, 25u32)]);
    r
}

/// The day after Independence Day in 1968.
pub fn day_after_independence_day_adhoc() -> (r: DaySet)
    ensures
        set_is(r, None, None, None, Observance::Same, seq![(1968i32, 7u32, 5u32)]),
{
    let tz = us_eastern();
    let r = DaySet::new().with_adhoc(vec![ymd(1968, 7, 5, tz)]);
    assert(r.listed().map_values(|d: Date| d@) =~= seq![(1968i32, 7u32, 5u32)]);
    r
}

/// The snow closing of 1969.
pub fn weather_snow_closing() -> (r: DaySet)
    ensures
        set_is(r, None, None, None, Observance::Same, seq![(1969i32, 2u32, 10u32)]),
{
    let tz = us_eastern();
    let r = DaySet::new().with_adhoc(vec![ymd(1969, 2, 10, tz)]);
    assert(r.listed().map_values(|d: Date| d@) =~= seq![(1969i32, 2u32, 10u32)]);
    r
}

/// The closing after the first lunar landing.
pub fn first_lunar_landing_closing() -> (r: DaySet)
    ensures
        set_is(r, None, None, None, Observance::Same, seq![(1969i32, 7u32, 21u32)]),
{
    let tz = us_eastern();
    let r = DaySet::new().with_adhoc(vec![ymd(1969, 7, 21, tz)]);
    assert(r.listed().map_values(|d: Date| d@) =~= seq![(1969i32, 7u32, 21u32)]);
    r
}

/// The New York City blackout of 1977.
pub fn new_york_city_blackout77() -> (r: DaySet)
    ensures
        set_is(r, None, None, None, Observance::Same, seq![(1977i32, 7u32, 14u32)]),
{
    let tz = us_eastern();
    let r = DaySet::new().with_adhoc(vec![ymd(1977, 7, 14, tz)]);
    assert(r.listed().map_values(|d: Date| d@) =~= seq![(1977i32, 7u32, 14u32)]);
    r
}

/// The closings after the attacks of September 11th, 2001.
pub fn september11_closings() -> (r: DaySet)
    ensures
        set_is(r, None, None, None, Observance::Same, seq![(2001i32, 9u32, 11u32), (2001i32, 9u32, 12u32), (2001i32, 9u32, 13u32), (2001i32, 9u32, 14u32), (2001i32, 9u32, 15u32), (2001i32, 9u32, 16u32)]),
{
    let tz = us_eastern();
    let r = DaySet::new().with_adhoc(vec![ymd(2001, 9, 11, tz), ymd(2001, 9, 12, tz), ymd(2001, 9, 13, tz), ymd(2001, 9, 14, tz), ymd(2001, 9, 15, tz), ymd(2001, 9, 16, tz)]);
    assert(r.listed().map_values(|d: Date| d@) =~= seq![(2001i32, 9u32, 11u32), (2001i32, 9u32, 12u32), (2001i32, 9u32, 13u32), (2001i32, 9u32, 14u32), (2001i32, 9u32, 15u32), (2001i32, 9u32, 16u32)]);
    r
}

/// The closings for Hurricane Sandy.
pub fn hurricane_sandy_closings() -> (r: DaySet)
    ensures
        set_is(r, None, None, None, Observance::Same, seq![(2012i32, 10u32, 29u32), (2012i32, 10u32, 30u32)]),
{
    let tz = us_eastern();
    let r = DaySet::new().with_adhoc(vec![ymd(2012, 10, 29, tz), ymd(2012, 10, 30, tz)]);
    assert(r.listed().map_values(|d: Date| d@) =~= seq![(2012i32, 10u32, 29u32), (2012i32, 10u32, 30u32)]);
    r
}

/// The closing for Hurricane Gloria.
pub fn hurricane_gloria_closing() -> (r: DaySet)
    ensures
        set_is(r, None, None, None, Observance::Same, seq![(1985i32, 9u32, 27u32)]),
{
    let tz = us_eastern();
    let r = DaySet::new().with_adhoc(vec![ymd(1985, 9, 27, tz)]);
    assert(r.listed().map_values(|d: Date| d@) =~= seq![(1985i32, 9u32, 27u32)]);
    r
}

/// National days of mourning.
pub fn us_national_daysof_mourning() -> (r: DaySet)
    ensures
        set_is(r, None, None, None, Observance::Same, seq![(1963i32, 11u32, 25u32), (1968i32, 4u32, 9u32), (1969i32, 3u32, 31u32), (1972i32, 12u32, 28u32), (1973i32, 1u32, 25u32), (1994i32, 4u32, 27u32), (2004i32, 6u32, 11u32), (2007i32, 1u32, 2u32), (2018i32, 12u32, 5u32)]),
{
    let tz = us_eastern();
    let r = DaySet::new().with_adhoc(vec![ymd(1963, 11, 25, tz), ymd(1968, 4, 9, tz), ymd(1969, 3, 31, tz), ymd(1972, 12, 28, tz), ymd(1973, 1, 25, tz), ymd(1994, 4, 27, tz), ymd(2004, 6, 11, tz), ymd(2007, 1, 2, tz), ymd(2018, 12, 5, tz)]);
    assert(r.listed().map_values(|d: Date| d@) =~= seq![(1963i32, 11u32, 25u32), (1968i32, 4u32, 9u32), (1969i32, 3u32, 31u32), (1972i32, 12u32, 28u32), (1973i32, 1u32, 25u32), (1994i32, 4u32, 27u32), (2004i32, 6u32, 11u32), (2007i32, 1u32, 2u32), (2018i32, 12u32, 5u32)]);
    r
}

} // verus!
