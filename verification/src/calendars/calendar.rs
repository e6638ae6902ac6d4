use chrono_tz::Tz;
use vstd::prelude::*;

use crate::calendars::holiday_sets::HolidaySets;
use crate::calendars::us_holidays::{
    lemma_observed_unique, lemma_reach, lemma_rule_ok, observed, opt_view, reach, reach_of,
    Observance,
};
use crate::date::{
    day_in_range, day_number, days_before_year, first_date, last_date, lemma_day_in_year,
    lemma_day_number_injective, lemma_day_number_ordered, lemma_year_length, lemma_years_ordered,
    try_ymd, valid_date, valid_ymd, ymd_lt, Date, MAX_YEAR, MIN_YEAR,
};
use crate::op::{top_step, SpanOp};
use crate::span::exc::SpanExc;
use crate::time::{
    date_holds_times, date_of_day, instant_lt, local_instant, step_view, unique_instant, zone_offset,
    Time, SECS_PER_DAY, UNIX_EPOCH_DAY,
};

verus! {

/// A year a calendar is worked out in: any year but the eight at either end
/// of the range of dates, so that every date a holiday rule can reach one of
/// its dates from exists, with room around it for the rule's moves.
pub open spec fn calendar_year(y: int) -> bool {
    MIN_YEAR + 8 <= y <= MAX_YEAR - 8
}

/// `b` is a date a holiday can be based on: any date, or the given month and
/// day in some year.
pub open spec fn is_base(md: Option<(u32, u32)>, b: (i32, u32, u32)) -> bool {
    &&& valid_date(b)
    &&& md matches Some(p) ==> b.1 == p.0 && b.2 == p.1
}

/// `x` lies on or after the start and before the end, where they are given.
pub open spec fn in_window(st: Option<Date>, en: Option<Date>, x: (i32, u32, u32)) -> bool {
    &&& st matches Some(s) ==> !ymd_lt(x, s@)
    &&& en matches Some(e) ==> ymd_lt(x, e@)
}

/// Two dates less than a thousand and two days apart are at most three years
/// apart.
proof fn lemma_near_years(a: (i32, u32, u32), b: (i32, u32, u32))
    requires
        valid_date(a),
        valid_date(b),
        -1001 <= day_number(a) - day_number(b) <= 1001,
    ensures
        -3 <= a.0 - b.0 <= 3,
{
    lemma_day_in_year(a);
    lemma_day_in_year(b);
    if a.0 + 4 <= b.0 {
        lemma_years_ordered(a.0 + 1, b.0 - 3);
        lemma_year_length(b.0 - 3);
        lemma_year_length(b.0 - 2);
        lemma_year_length(b.0 - 1);
    } else if b.0 + 4 <= a.0 {
        lemma_years_ordered(b.0 + 1, a.0 - 3);
        lemma_year_length(a.0 - 3);
        lemma_year_length(a.0 - 2);
        lemma_year_length(a.0 - 1);
    }
}

/// A date in a calendar year has every date less than a thousand and two days
/// away from it in range, and those dates lie in rule years.
pub(crate) proof fn lemma_calendar_room(x: (i32, u32, u32), k: int)
    requires
        valid_date(x),
        calendar_year(x.0 as int),
        -1001 <= k <= 1001,
    ensures
        day_in_range(day_number(x) + k),
{
    lemma_day_in_year(x);
    lemma_years_ordered(MIN_YEAR + 8, x.0 as int);
    lemma_years_ordered(x.0 + 1, MAX_YEAR - 7);
    assert(days_before_year(MIN_YEAR + 8) == -95743208);
    assert(days_before_year(MAX_YEAR - 7) == 95742477);
    assert(day_number(first_date()) == -95746130);
    assert(day_number(last_date()) == 95745398);
}

/// A set of days: the days a holiday rule observes from its base dates within
/// a window of dates, or a list of given dates.
#[derive(Debug)]
pub struct DaySet {
    md: Option<(u32, u32)>,
    st: Option<Date>,
    en: Option<Date>,
    observance: Observance,
    adhoc: Vec<Date>,
}

impl DaySet {
    /// The month and day every base date falls on, if any.
    pub closed spec fn month_day(&self) -> Option<(u32, u32)> {
        self.md
    }

    /// The first date of the window, if any.
    pub closed spec fn start(&self) -> Option<Date> {
        self.st
    }

    /// The date the window ends before, if any.
    pub closed spec fn end(&self) -> Option<Date> {
        self.en
    }

    /// The rule that moves a base date to the day it is observed on.
    pub closed spec fn rule(&self) -> Observance {
        self.observance
    }

    /// The given dates; where there are any, the set is made of them alone.
    pub closed spec fn listed(&self) -> Seq<Date> {
        self.adhoc@
    }

    /// The set holds the date `x`: a listed date, or, where none is listed,
    /// a date in the window that the rule observes some base date on.
    pub open spec fn holds(&self, x: (i32, u32, u32)) -> bool {
        if self.listed().len() > 0 {
            exists|i: int| 0 <= i < self.listed().len() && #[trigger] self.listed()[i]@ == x
        } else {
            &&& in_window(self.start(), self.end(), x)
            &&& exists|b: (i32, u32, u32)|
                is_base(self.month_day(), b) && #[trigger] observed(self.rule(), b, Some(x))
        }
    }

    /// The set of every day, as each observes itself.
    pub fn new() -> (r: Self)
        ensures
            r.month_day() is None,
            r.start() is None,
            r.end() is None,
            r.rule() == Observance::Same,
            r.listed().len() == 0,
    {
        Self { md: None, st: None, en: None, observance: Observance::Same, adhoc: Vec::new() }
    }

    /// The same set with its base dates on month `m`, day `d` of each year.
    pub fn with_md(self, m: u32, d: u32) -> (r: Self)
        ensures
            r.month_day() == Some((m, d)),
            r.start() == self.start(),
            r.end() == self.end(),
            r.rule() == self.rule(),
            r.listed() == self.listed(),
    {
        Self { md: Some((m, d)), ..self }
    }

    /// The same set with its window starting on the date `d`.
    pub fn with_start(self, d: Date) -> (r: Self)
        ensures
            r.month_day() == self.month_day(),
            r.start() == Some(d),
            r.end() == self.end(),
            r.rule() == self.rule(),
            r.listed() == self.listed(),
    {
        Self { st: Some(d), ..self }
    }

    /// The same set with its window ending before the date `d`.
    pub fn with_end(self, d: Date) -> (r: Self)
        ensures
            r.month_day() == self.month_day(),
            r.start() == self.start(),
            r.end() == Some(d),
            r.rule() == self.rule(),
            r.listed() == self.listed(),
    {
        Self { en: Some(d), ..self }
    }

    /// The same set with the rule `o`.
    pub fn with_observance(self, o: Observance) -> (r: Self)
        ensures
            r.month_day() == self.month_day(),
            r.start() == self.start(),
            r.end() == self.end(),
            r.rule() == o,
            r.listed() == self.listed(),
    {
        Self { observance: o, ..self }
    }

    /// The same set with the dates `adhoc` added to its listed dates.
    pub fn with_adhoc(self, adhoc: Vec<Date>) -> (r: Self)
        ensures
            r.month_day() == self.month_day(),
            r.start() == self.start(),
            r.end() == self.end(),
            r.rule() == self.rule(),
            r.listed() == self.listed() + adhoc@,
    {
        let mut v = self.adhoc;
        let mut a = adhoc;
        v.append(&mut a);
        Self { adhoc: v, ..self }
    }

    /// A copy of this set.
    pub fn copied(&self) -> (r: Self)
        ensures
            r.month_day() == self.month_day(),
            r.start() == self.start(),
            r.end() == self.end(),
            r.rule() == self.rule(),
            r.listed() == self.listed(),
    {
        let mut v: Vec<Date> = Vec::new();
        let mut i: usize = 0;
        while i < self.adhoc.len()
            invariant
                i <= self.adhoc.len(),
                v@ == self.adhoc@.subrange(0, i as int),
            decreases self.adhoc.len() - i,
        {
            v.push(self.adhoc[i]);
            i += 1;
        }
        Self { md: self.md, st: self.st, en: self.en, observance: self.observance, adhoc: v }
    }

    /// The set holds the date `d`.
    pub fn contains(&self, d: &Date) -> (r: bool)
        requires
            calendar_year(d@.0 as int),
        ensures
            r == self.holds(d@),
    {
        if self.adhoc.len() > 0 {
            let mut i: usize = 0;
            while i < self.adhoc.len()
                invariant
                    i <= self.adhoc.len(),
                    forall|j: int| 0 <= j < i ==> #[trigger] self.adhoc@[j]@ != d@,
                decreases self.adhoc.len() - i,
            {
                let x = &self.adhoc[i];
                if x.year() == d.year() && x.month() == d.month() && x.day() == d.day() {
                    assert(self.listed()[i as int]@ == d@);
                    return true;
                }
                i += 1;
            }
            return false;
        }
        if !self.in_window_of(d) {
            return false;
        }
        match self.md {
            Some((m, dd)) => self.observed_from_month_day(d, m, dd),
            None => self.observed_from_near_day(d),
        }
    }

    /// The date `d` lies in the window.
    fn in_window_of(&self, d: &Date) -> (r: bool)
        ensures
            r == in_window(self.st, self.en, d@),
    {
        let after_start = match &self.st {
            Some(s) => !(*d < *s),
            None => true,
        };
        let before_end = match &self.en {
            Some(e) => *d < *e,
            None => true,
        };
        after_start && before_end
    }

    /// Some date on month `m`, day `dd` of a year is observed on the date `d`.
    fn observed_from_month_day(&self, d: &Date, m: u32, dd: u32) -> (r: bool)
        requires
            calendar_year(d@.0 as int),
            self.md == Some((m, dd)),
        ensures
            r == exists|b: (i32, u32, u32)|
                is_base(self.md, b) && #[trigger] observed(self.observance, b, Some(d@)),
    {
        proof {
            use_type_invariant(d);
        }
        let y0: i32 = d.year() - 3;
        let mut k: i32 = 0;
        while k < 7
            invariant
                0 <= k <= 7,
                y0 == d@.0 - 3,
                calendar_year(d@.0 as int),
                valid_date(d@),
                self.md == Some((m, dd)),
                forall|b: (i32, u32, u32)|
                    is_base(self.md, b) && y0 <= b.0 < y0 + k ==> !#[trigger] observed(
                        self.observance,
                        b,
                        Some(d@),
                    ),
            decreases 7 - k,
        {
            match try_ymd(y0 + k, m, dd, d.tz()) {
                Some(b) => {
                    proof {
                        use_type_invariant(&b);
                        lemma_rule_ok(self.observance, b@);
                    }
                    let r = self.observance.observe(b);
                    match r {
                        Some(x) => {
                            if x.year() == d.year() && x.month() == d.month() && x.day()
                                == d.day() {
                                assert(observed(self.observance, b@, Some(d@)));
                                return true;
                            }
                        },
                        None => {},
                    }
                    proof {
                        assert forall|c: (i32, u32, u32)|
                            is_base(self.md, c) && y0 <= c.0 < y0 + k + 1 implies !#[trigger] observed(
                            self.observance,
                            c,
                            Some(d@),
                        ) by {
                            if c.0 == y0 + k && observed(self.observance, c, Some(d@)) {
                                assert(c == b@);
                                lemma_observed_unique(
                                    self.observance,
                                    c,
                                    opt_view(r),
                                    Some(d@),
                                );
                            }
                        }
                    }
                },
                None => {
                    assert(!valid_ymd((y0 + k) as int, m as int, dd as int));
                },
            }
            k += 1;
        }
        proof {
            assert forall|b: (i32, u32, u32)| is_base(self.md, b) implies !#[trigger] observed(
                self.observance,
                b,
                Some(d@),
            ) by {
                if observed(self.observance, b, Some(d@)) {
                    lemma_reach(self.observance, b, d@);
                    lemma_near_years(b, d@);
                }
            }
        }
        false
    }

    /// Some date near the date `d` is observed on it.
    fn observed_from_near_day(&self, d: &Date) -> (r: bool)
        requires
            calendar_year(d@.0 as int),
            self.md is None,
        ensures
            r == exists|b: (i32, u32, u32)|
                is_base(self.md, b) && #[trigger] observed(self.observance, b, Some(d@)),
    {
        proof {
            use_type_invariant(d);
        }
        let reach_days: i32 = reach_of(&self.observance);
        let mut k: i32 = -reach_days;
        while k <= reach_days
            invariant
                -reach_days <= k <= reach_days + 1,
                reach_days == reach(self.observance),
                0 <= reach_days <= 1001,
                calendar_year(d@.0 as int),
                valid_date(d@),
                self.md is None,
                forall|b: (i32, u32, u32)|
                    valid_date(b) && day_number(d@) - reach_days <= day_number(b) < day_number(d@)
                        + k ==> !#[trigger] observed(self.observance, b, Some(d@)),
            decreases reach_days + 1 - k,
        {
            proof {
                lemma_calendar_room(d@, k as int);
            }
            let b = d.add_days(k);
            proof {
                lemma_near_years(b@, d@);
                lemma_rule_ok(self.observance, b@);
            }
            let r = self.observance.observe(b);
            match r {
                Some(x) => {
                    if x.year() == d.year() && x.month() == d.month() && x.day() == d.day() {
                        assert(observed(self.observance, b@, Some(d@)));
                        assert(is_base(self.md, b@));
                        return true;
                    }
                },
                None => {},
            }
            proof {
                assert forall|c: (i32, u32, u32)|
                    valid_date(c) && day_number(d@) - reach_days <= day_number(c) < day_number(d@)
                        + k + 1 implies !#[trigger] observed(self.observance, c, Some(d@)) by {
                    if day_number(c) == day_number(d@) + k && observed(
                        self.observance,
                        c,
                        Some(d@),
                    ) {
                        lemma_day_number_injective(c, b@);
                        lemma_observed_unique(self.observance, c, opt_view(r), Some(d@));
                    }
                }
            }
            k += 1;
        }
        proof {
            assert forall|b: (i32, u32, u32)| is_base(self.md, b) implies !#[trigger] observed(
                self.observance,
                b,
                Some(d@),
            ) by {
                if observed(self.observance, b, Some(d@)) {
                    lemma_reach(self.observance, b, d@);
                }
            }
        }
        false
    }
}

/// The span an open gives from the start `b` of a day: from what its first
/// operation makes of `b` to what its second one does, where both can be
/// taken.
pub open spec fn open_at(op: SpanOp, b: Time) -> Option<((i64, u32), (i64, u32))> {
    let a = step_view(b, top_step(op.st@.0, op.st@.1));
    let c = step_view(b, top_step(op.en@.0, op.en@.1));
    if a is Some && c is Some {
        Some((a.unwrap(), c.unwrap()))
    } else {
        None
    }
}

/// The instant `p` comes before the instant `t`.
pub open spec fn starts_before(p: (i64, u32), t: (i64, u32)) -> bool {
    instant_lt(p, t)
}

/// Of the opens from the `i`th on, the span of the first that gives one from
/// the day start `b` starting at or after `t`.
pub open spec fn first_open_from(opens: Seq<SpanOp>, b: Time, t: (i64, u32), i: int) -> Option<
    ((i64, u32), (i64, u32)),
>
    decreases opens.len() - i,
{
    if i < 0 || i >= opens.len() {
        None
    } else if open_at(opens[i], b) is Some && !starts_before(open_at(opens[i], b).unwrap().0, t) {
        open_at(opens[i], b)
    } else {
        first_open_from(opens, b, t, i + 1)
    }
}

/// A span found among the opens of a day starts at or after the time it was
/// looked for from.
pub proof fn lemma_found_span_not_before(opens: Seq<SpanOp>, b: Time, t: (i64, u32), i: int)
    ensures
        first_open_from(opens, b, t, i) matches Some(v) ==> !starts_before(v.0, t),
    decreases opens.len() - i,
{
    if 0 <= i < opens.len() {
        lemma_found_span_not_before(opens, b, t, i + 1);
    }
}

/// The instants a span of times runs between.
pub open spec fn span_view(r: Option<SpanExc<Time>>) -> Option<((i64, u32), (i64, u32))> {
    match r {
        Some(s) => Some((s.st@, s.en@)),
        None => None,
    }
}

/// The span the open `op` gives from the day start `b`.
fn open_span(op: &SpanOp, b: &Time) -> (r: Option<SpanExc<Time>>)
    ensures
        span_view(r) == open_at(*op, *b),
        r matches Some(s) ==> s.st.zone() == b.zone() && s.en.zone() == b.zone(),
{
    let a = b.try_apply_step(op.st.step());
    let c = b.try_apply_step(op.en.step());
    match (a, c) {
        (Some(x), Some(y)) => Some(SpanExc::new(x, y)),
        _ => None,
    }
}

/// The first span of `opens` from the day start `b` that starts at or after
/// `t`.
fn find_next_span_in_opens(b: &Time, t: &Time, opens: &Vec<SpanOp>) -> (r: Option<SpanExc<Time>>)
    ensures
        span_view(r) == first_open_from(opens@, *b, t@, 0),
        r matches Some(s) ==> s.st.zone() == b.zone() && s.en.zone() == b.zone(),
{
    let mut i: usize = 0;
    while i < opens.len()
        invariant
            i <= opens.len(),
            first_open_from(opens@, *b, t@, 0) == first_open_from(opens@, *b, t@, i as int),
        decreases opens.len() - i,
    {
        match open_span(&opens[i], b) {
            Some(s) => {
                if s.st >= *t {
                    return Some(s);
                }
            },
            None => {},
        }
        i += 1;
    }
    None
}

/// Some set of `sets` holds the date `x`.
pub open spec fn in_sets(sets: Seq<DaySet>, x: (i32, u32, u32)) -> bool {
    exists|i: int| 0 <= i < sets.len() && #[trigger] sets[i].holds(x)
}

/// Some set of `sets` holds the date `d`.
pub(crate) fn any_contains(sets: &Vec<DaySet>, d: &Date) -> (r: bool)
    requires
        calendar_year(d@.0 as int),
    ensures
        r == in_sets(sets@, d@),
{
    let mut i: usize = 0;
    while i < sets.len()
        invariant
            i <= sets.len(),
            calendar_year(d@.0 as int),
            forall|j: int| 0 <= j < i ==> !#[trigger] sets@[j].holds(d@),
        decreases sets.len() - i,
    {
        if sets[i].contains(d) {
            return true;
        }
        i += 1;
    }
    false
}

/// The opens of the first override from the `i`th on whose days hold the
/// date `x`; `dflt` where none does.
pub open spec fn opens_on(
    ovs: Seq<(Seq<SpanOp>, Seq<DaySet>)>,
    dflt: Seq<SpanOp>,
    x: (i32, u32, u32),
    i: int,
) -> Seq<SpanOp>
    decreases ovs.len() - i,
{
    if i < 0 || i >= ovs.len() {
        dflt
    } else if in_sets(ovs[i].1, x) {
        ovs[i].0
    } else {
        opens_on(ovs, dflt, x, i + 1)
    }
}

/// The day number of the local date of the instant `t` in the zone `tz`.
pub open spec fn local_day_in(t: (i64, u32), tz: Tz) -> int {
    (t.0 + zone_offset(t.0 as int, tz)) / (SECS_PER_DAY as int) + UNIX_EPOCH_DAY
}

/// The views of a list of spans of opens with the days they apply on.
pub open spec fn override_views(v: Seq<(Vec<SpanOp>, Vec<DaySet>)>) -> Seq<
    (Seq<SpanOp>, Seq<DaySet>),
> {
    v.map_values(|p: (Vec<SpanOp>, Vec<DaySet>)| (p.0@, p.1@))
}

/// The set `s` has its base dates on the month and day `md`, its window
/// from `st` to before `en`, the rule `rule` and the listed dates `listed`.
pub open spec fn set_is(
    s: DaySet,
    md: Option<(u32, u32)>,
    st: Option<(i32, u32, u32)>,
    en: Option<(i32, u32, u32)>,
    rule: Observance,
    listed: Seq<(i32, u32, u32)>,
) -> bool {
    &&& s.month_day() == md
    &&& opt_view(s.start()) == st
    &&& opt_view(s.end()) == en
    &&& s.rule() == rule
    &&& s.listed().len() == listed.len()
    &&& forall|i: int| 0 <= i < listed.len() ==> #[trigger] s.listed()[i]@ == listed[i]
}

/// The sets of `a` are those of `b`, set by set.
pub open spec fn same_sets(a: Seq<DaySet>, b: Seq<&DaySet>) -> bool {
    &&& a.len() == b.len()
    &&& forall|i: int|
        0 <= i < a.len() ==> {
            &&& #[trigger] a[i].month_day() == b[i].month_day()
            &&& a[i].start() == b[i].start()
            &&& a[i].end() == b[i].end()
            &&& a[i].rule() == b[i].rule()
            &&& a[i].listed() == b[i].listed()
        }
}

/// A copy of the opens `opens`.
fn copy_opens(opens: &[SpanOp]) -> (r: Vec<SpanOp>)
    ensures
        r@ == opens@,
{
    let mut v: Vec<SpanOp> = Vec::new();
    let mut i: usize = 0;
    while i < opens.len()
        invariant
            i <= opens.len(),
            v@ == opens@.subrange(0, i as int),
        decreases opens.len() - i,
    {
        v.push(opens[i]);
        i += 1;
    }
    v
}

/// Copies of the sets `hols`.
fn copy_sets(hols: &[&DaySet]) -> (r: Vec<DaySet>)
    ensures
        same_sets(r@, hols@),
{
    let mut v: Vec<DaySet> = Vec::new();
    let mut i: usize = 0;
    while i < hols.len()
        invariant
            i <= hols.len(),
            v.len() == i,
            forall|j: int|
                0 <= j < i ==> {
                    &&& #[trigger] v@[j].month_day() == hols@[j].month_day()
                    &&& v@[j].start() == hols@[j].start()
                    &&& v@[j].end() == hols@[j].end()
                    &&& v@[j].rule() == hols@[j].rule()
                    &&& v@[j].listed() == hols@[j].listed()
                },
        decreases hols.len() - i,
    {
        v.push(hols[i].copied());
        i += 1;
    }
    v
}

/// A date in a calendar year holds wall-clock times.
proof fn lemma_calendar_times(x: (i32, u32, u32))
    requires
        valid_date(x),
        calendar_year(x.0 as int),
    ensures
        date_holds_times(x),
{
    lemma_calendar_room(x, 1001);
    lemma_calendar_room(x, -1001);
}

/// The date numbered as a valid date is that date.
pub(crate) proof fn lemma_date_of_day(x: (i32, u32, u32))
    requires
        valid_date(x),
    ensures
        date_of_day(day_number(x)) == x,
{
    let y = date_of_day(day_number(x));
    assert(valid_date(y) && day_number(y) == day_number(x));
    lemma_day_number_injective(y, x);
}

/// The day after a calendar day other than the last is a calendar day.
proof fn lemma_next_calendar_day(d: (i32, u32, u32), e: (i32, u32, u32))
    requires
        valid_date(d),
        valid_date(e),
        calendar_year(d.0 as int),
        d != (262134i32, 12u32, 31u32),
        day_number(e) == day_number(d) + 1,
    ensures
        calendar_year(e.0 as int),
        day_number(e) <= last_calendar_day(),
{
    if day_number(d) >= last_calendar_day() {
        if day_number(d) == last_calendar_day() {
            lemma_day_number_injective(d, (262134i32, 12u32, 31u32));
        } else {
            lemma_day_number_ordered(d, (262135i32, 1u32, 1u32));
            assert(day_number((262135i32, 1u32, 1u32)) == last_calendar_day() + 1);
        }
    }
    if e.0 > MAX_YEAR - 8 {
        lemma_day_number_ordered((262134i32, 12u32, 31u32), e);
    }
    if e.0 < MIN_YEAR + 8 {
        lemma_day_number_ordered(e, d);
    }
}

/// A date in a calendar year is numbered at most the last calendar day.
proof fn lemma_calendar_day_bound(d: (i32, u32, u32))
    requires
        valid_date(d),
        calendar_year(d.0 as int),
    ensures
        day_number(d) <= last_calendar_day(),
{
    lemma_day_number_ordered(d, (262135i32, 1u32, 1u32));
    assert(day_number((262135i32, 1u32, 1u32)) == last_calendar_day() + 1);
}

/// The number of the last day a calendar is worked out on.
pub open spec fn last_calendar_day() -> int {
    day_number((262134i32, 12u32, 31u32))
}

/// Where no open is given, a date has no opens.
proof fn lemma_no_opens(
    ovs: Seq<(Seq<SpanOp>, Seq<DaySet>)>,
    dflt: Seq<SpanOp>,
    x: (i32, u32, u32),
    i: int,
)
    requires
        dflt.len() == 0,
        forall|j: int| 0 <= j < ovs.len() ==> (#[trigger] ovs[j]).0.len() == 0,
    ensures
        opens_on(ovs, dflt, x, i).len() == 0,
    decreases ovs.len() - i,
{
    if 0 <= i < ovs.len() && !in_sets(ovs[i].1, x) {
        lemma_no_opens(ovs, dflt, x, i + 1);
    }
}

/// The two calendars have the same name, zone, opens, holidays and
/// overrides: they give the same spans.
pub open spec fn same_rules(a: Calendar, b: Calendar) -> bool {
    &&& a.label() == b.label()
    &&& a.time_zone() == b.time_zone()
    &&& a.open_list() == b.open_list()
    &&& a.holiday_list() == b.holiday_list()
    &&& a.override_list() == b.override_list()
}

/// Calendars with the same rules find the same span on a day.
pub proof fn lemma_same_rules_span(a: Calendar, b: Calendar, t: (i64, u32), n: int)
    requires
        same_rules(a, b),
    ensures
        a.span_from(t, n) == b.span_from(t, n),
{
}

/// Calendars with the same rules scan alike from the day numbered `n`.
pub proof fn lemma_same_rules_scan(a: Calendar, b: Calendar, t: (i64, u32), n: int)
    requires
        same_rules(a, b),
    ensures
        a.scan_from(t, n) == b.scan_from(t, n),
    decreases last_calendar_day() + 1 - n,
{
    lemma_same_rules_span(a, b, t, n);
    if n <= last_calendar_day() {
        lemma_same_rules_scan(a, b, t, n + 1);
    }
}

/// Calendars with the same rules find the same next span.
pub proof fn lemma_same_rules_next(a: Calendar, b: Calendar, t: (i64, u32))
    requires
        same_rules(a, b),
    ensures
        a.next_view(t) == b.next_view(t),
{
    lemma_same_rules_scan(a, b, t, local_day_in(t, a.time_zone()));
}

/// A trading calendar: spans of the day, from its start, when it is open;
/// the holidays it is closed on; and days with other spans.
pub struct Calendar {
    pub name: String,
    pub tz: Tz,
    opens: Vec<SpanOp>,
    hols: HolidaySets,
    overrides: Vec<(Vec<SpanOp>, Vec<DaySet>)>,
}

impl Calendar {
    /// The opens of a regular day, in order.
    pub closed spec fn open_list(&self) -> Seq<SpanOp> {
        self.opens@
    }

    /// The sets of holidays.
    pub closed spec fn holiday_list(&self) -> Seq<DaySet> {
        self.hols.sets()
    }

    /// The overrides, in order: opens, and the days they apply on.
    pub closed spec fn override_list(&self) -> Seq<(Seq<SpanOp>, Seq<DaySet>)> {
        override_views(self.overrides@)
    }

    /// The calendar's name.
    pub closed spec fn label(&self) -> Seq<char> {
        self.name@
    }

    /// The zone the calendar's days are in.
    pub closed spec fn time_zone(&self) -> Tz {
        self.tz
    }

    /// The date `x` is a holiday.
    pub open spec fn is_holiday(&self, x: (i32, u32, u32)) -> bool {
        in_sets(self.holiday_list(), x)
    }

    /// The opens of the date `x`: those of the first override that applies
    /// on it, else the regular ones.
    pub open spec fn day_opens(&self, x: (i32, u32, u32)) -> Seq<SpanOp> {
        opens_on(self.override_list(), self.open_list(), x, 0)
    }

    /// The first span of the date `x` in the zone `tz` that starts at or
    /// after `t`, the day's opens applied to its start (local midnight, where
    /// it is one instant).
    pub open spec fn span_in_day(&self, x: (i32, u32, u32), tz: Tz, t: (i64, u32)) -> Option<
        ((i64, u32), (i64, u32)),
    > {
        match unique_instant(local_instant(x, 0), tz) {
            Some(s) => first_open_from(self.day_opens(x), Time::instant_in(s, 0u32, tz), t, 0),
            None => None,
        }
    }

    /// The first span on the day numbered `n` that `next_span` from `t`
    /// looks at: from `t` on the day of `t`, from the day's start after it;
    /// none on a holiday.
    pub open spec fn span_from(&self, t: (i64, u32), n: int) -> Option<((i64, u32), (i64, u32))> {
        let x = date_of_day(n);
        if self.is_holiday(x) {
            None
        } else if n == local_day_in(t, self.time_zone()) {
            self.span_in_day(x, self.time_zone(), t)
        } else {
            match unique_instant(local_instant(x, 0), self.time_zone()) {
                Some(s) => self.span_in_day(x, self.time_zone(), (s, 0u32)),
                None => None,
            }
        }
    }

    /// A span the calendar finds on the day of `t` starts at or after `t`.
    pub proof fn lemma_first_day_span_not_before(&self, t: (i64, u32))
        ensures
            self.span_from(t, local_day_in(t, self.time_zone())) matches Some(v) ==> !starts_before(
                v.0,
                t,
            ),
    {
        let x = date_of_day(local_day_in(t, self.time_zone()));
        lemma_found_span_not_before(
            self.day_opens(x),
            Time::instant_in(
                unique_instant(local_instant(x, 0), self.time_zone()).unwrap(),
                0u32,
                self.time_zone(),
            ),
            t,
            0,
        );
    }

    /// From the day numbered `n` on, through the last calendar day, the first
    /// span `next_span` from `t` finds.
    pub open spec fn scan_from(&self, t: (i64, u32), n: int) -> Option<((i64, u32), (i64, u32))>
        decreases last_calendar_day() + 1 - n,
    {
        if n > last_calendar_day() {
            None
        } else if self.span_from(t, n) is Some {
            self.span_from(t, n)
        } else {
            self.scan_from(t, n + 1)
        }
    }

    /// The first span that starts at or after `t`: found from the day of
    /// `t` in the calendar's zone on, through the last calendar day; none
    /// where that day is not in a calendar year.
    pub open spec fn next_view(&self, t: (i64, u32)) -> Option<((i64, u32), (i64, u32))> {
        let k0 = local_day_in(t, self.time_zone());
        if calendar_year(date_of_day(k0).0 as int) {
            self.scan_from(t, k0)
        } else {
            None
        }
    }

    /// An empty calendar named `name` in the zone `tz`.
    pub fn new(name: &str, tz: Tz) -> (r: Self)
        ensures
            r.label() == name@,
            r.time_zone() == tz,
            r.open_list().len() == 0,
            r.holiday_list().len() == 0,
            r.override_list().len() == 0,
    {
        Self {
            name: name.to_owned(),
            tz,
            opens: Vec::new(),
            hols: HolidaySets::new(Vec::new()),
            overrides: Vec::new(),
        }
    }

    /// The same calendar with the regular opens `opens`, which are applied
    /// to the start of a day in their order.
    pub fn with_opens(self, opens: &[SpanOp]) -> (r: Self)
        ensures
            r.label() == self.label(),
            r.time_zone() == self.time_zone(),
            r.open_list() == opens@,
            r.holiday_list() == self.holiday_list(),
            r.override_list() == self.override_list(),
    {
        Self { opens: copy_opens(opens), ..self }
    }

    /// The same calendar with the holidays `hols`.
    pub fn with_holidays(self, hols: &[&DaySet]) -> (r: Self)
        ensures
            r.label() == self.label(),
            r.time_zone() == self.time_zone(),
            r.open_list() == self.open_list(),
            same_sets(r.holiday_list(), hols@),
            r.override_list() == self.override_list(),
    {
        Self { hols: HolidaySets::new(copy_sets(hols)), ..self }
    }

    /// The same calendar with one more override: on days some set of `hols`
    /// holds, the spans come from `opens`. Where several overrides apply, the
    /// first one wins.
    pub fn with_override(self, opens: &[SpanOp], hols: &[&DaySet]) -> (r: Self)
        ensures
            r.label() == self.label(),
            r.time_zone() == self.time_zone(),
            r.open_list() == self.open_list(),
            r.holiday_list() == self.holiday_list(),
            r.override_list().len() == self.override_list().len() + 1,
            r.override_list().subrange(0, self.override_list().len() as int)
                == self.override_list(),
            r.override_list().last().0 == opens@,
            same_sets(r.override_list().last().1, hols@),
    {
        let mut ovs = self.overrides;
        let ghost old_ovs = ovs@;
        ovs.push((copy_opens(opens), copy_sets(hols)));
        proof {
            assert(override_views(ovs@).subrange(0, old_ovs.len() as int) =~= override_views(
                old_ovs,
            ));
        }
        Self { overrides: ovs, ..self }
    }

    /// The same calendar with the overrides `v` in place of its own: on days
    /// some set of an override holds, the spans come from its opens; the
    /// first that applies wins.
    pub fn with_overrides(self, v: &[(&[SpanOp], &[&DaySet])]) -> (r: Self)
        ensures
            r.label() == self.label(),
            r.time_zone() == self.time_zone(),
            r.open_list() == self.open_list(),
            r.holiday_list() == self.holiday_list(),
            r.override_list().len() == v@.len(),
            forall|i: int|
                0 <= i < v@.len() ==> (#[trigger] r.override_list()[i]).0 == v@[i].0@
                    && same_sets(r.override_list()[i].1, v@[i].1@),
    {
        let mut ovs: Vec<(Vec<SpanOp>, Vec<DaySet>)> = Vec::new();
        let mut i: usize = 0;
        while i < v.len()
            invariant
                i <= v.len(),
                ovs.len() == i,
                forall|j: int|
                    0 <= j < i ==> (#[trigger] override_views(ovs@)[j]).0 == v@[j].0@
                        && same_sets(override_views(ovs@)[j].1, v@[j].1@),
            decreases v.len() - i,
        {
            let (o, h) = v[i];
            let ghost before = ovs@;
            ovs.push((copy_opens(o), copy_sets(h)));
            proof {
                assert forall|j: int| 0 <= j < i + 1 implies (#[trigger] override_views(
                    ovs@,
                )[j]).0 == v@[j].0@ && same_sets(override_views(ovs@)[j].1, v@[j].1@) by {
                    if j < i {
                        assert(override_views(ovs@)[j] == override_views(before)[j]);
                    }
                }
            }
            i += 1;
        }
        Self { overrides: ovs, ..self }
    }

    /// The date `d` is a holiday.
    fn is_holiday_of(&mut self, d: &Date) -> (r: bool)
        requires
            calendar_year(d@.0 as int),
        ensures
            r == old(self).is_holiday(d@),
            same_rules(*final(self), *old(self)),
    {
        self.hols.holds(d)
    }

    /// The opens of the date `d`.
    fn opens_for(&self, d: &Date) -> (r: &Vec<SpanOp>)
        requires
            calendar_year(d@.0 as int),
        ensures
            r@ == self.day_opens(d@),
    {
        let mut i: usize = 0;
        while i < self.overrides.len()
            invariant
                i <= self.overrides.len(),
                calendar_year(d@.0 as int),
                self.day_opens(d@) == opens_on(self.override_list(), self.open_list(), d@, i as int),
            decreases self.overrides.len() - i,
        {
            assert(self.override_list()[i as int] == (self.overrides@[i as int].0@, self.overrides@[i as int].1@));
            if any_contains(&self.overrides[i].1, d) {
                return &self.overrides[i].0;
            }
            i += 1;
        }
        &self.opens
    }

    /// The first span of the date `d` that starts at or after `t`, from the
    /// opens of the first override that applies on `d`, else the regular
    /// ones, applied to the start of `d`.
    pub fn next_span_in_day(&self, d: Date, t: &Time) -> (r: Option<SpanExc<Time>>)
        requires
            calendar_year(d@.0 as int),
        ensures
            span_view(r) == self.span_in_day(d@, d.zone(), t@),
            r matches Some(s) ==> s.st.zone() == d.zone() && s.en.zone() == d.zone(),
    {
        proof {
            use_type_invariant(&d);
            lemma_calendar_times(d@);
        }
        let opens = self.opens_for(&d);
        match d.time() {
            Ok(b) => {
                proof {
                    Time::lemma_instant_in(b);
                }
                find_next_span_in_opens(&b, t, opens)
            },
            Err(_) => None,
        }
    }

    /// The first span on the date `d`, a day after that of `t`, from the
    /// day's start; none on a holiday.
    fn later_day_span(&mut self, d: Date, t: &Time) -> (r: Option<SpanExc<Time>>)
        requires
            valid_date(d@),
            calendar_year(d@.0 as int),
            d.zone() == old(self).time_zone(),
            day_number(d@) != local_day_in(t@, old(self).time_zone()),
        ensures
            span_view(r) == old(self).span_from(t@, day_number(d@)),
            r matches Some(s) ==> s.st.zone() == d.zone() && s.en.zone() == d.zone(),
            same_rules(*final(self), *old(self)),
    {
        proof {
            lemma_date_of_day(d@);
            lemma_calendar_times(d@);
        }
        if self.is_holiday_of(&d) {
            return None;
        }
        match d.time() {
            Ok(b) => self.next_span_in_day(d, &b),
            Err(_) => None,
        }
    }

    /// No opens are given, regular or overriding.
    fn has_no_opens(&self) -> (r: bool)
        ensures
            r == (self.open_list().len() == 0 && forall|j: int|
                0 <= j < self.override_list().len() ==> (#[trigger] self.override_list()[j]).0.len()
                    == 0),
    {
        if self.opens.len() > 0 {
            return false;
        }
        let mut i: usize = 0;
        while i < self.overrides.len()
            invariant
                i <= self.overrides.len(),
                forall|j: int| 0 <= j < i ==> (#[trigger] self.override_list()[j]).0.len() == 0,
            decreases self.overrides.len() - i,
        {
            assert(self.override_list()[i as int] == (self.overrides@[i as int].0@, self.overrides@[i as int].1@));
            if self.overrides[i].0.len() > 0 {
                return false;
            }
            i += 1;
        }
        true
    }

    /// Where no open is given, no day has a span.
    proof fn lemma_scan_empty(&self, t: (i64, u32), n: int)
        requires
            self.open_list().len() == 0,
            forall|j: int|
                0 <= j < self.override_list().len() ==> (#[trigger] self.override_list()[j]).0.len()
                    == 0,
        ensures
            self.scan_from(t, n) is None,
        decreases last_calendar_day() + 1 - n,
    {
        if n <= last_calendar_day() {
            let x = date_of_day(n);
            lemma_no_opens(self.override_list(), self.open_list(), x, 0);
            self.lemma_scan_empty(t, n + 1);
        }
    }

    /// Finds the first span that starts at or after the time `t`, looking
    /// from the day of `t` in the calendar's zone, through the last calendar
    /// day; none where that day is not in a calendar year, that is, within
    /// eight years of the ends of the range of dates.
    pub fn next_span(&mut self, t: &Time) -> (r: Option<SpanExc<Time>>)
        ensures
            same_rules(*final(self), *old(self)),
            span_view(r) == old(self).next_view(t@),
            r matches Some(s) ==> s.st.zone() == old(self).time_zone() && s.en.zone() == old(
                self,
            ).time_zone(),
    {
        let ghost k0 = local_day_in(t@, self.time_zone());
        if self.has_no_opens() {
            proof {
                self.lemma_scan_empty(t@, k0);
            }
            return None;
        }
        let tt = t.with_tz(self.tz);
        let d0 = tt.date();
        proof {
            use_type_invariant(&d0);
            lemma_date_of_day(d0@);
        }
        if d0.year() < MIN_YEAR + 8 || d0.year() > MAX_YEAR - 8 {
            return None;
        }
        proof {
            lemma_calendar_times(d0@);
            lemma_calendar_day_bound(d0@);
        }
        if !self.is_holiday_of(&d0) {
            proof {
                lemma_same_rules_span(*self, *old(self), t@, k0);
            }
            match self.next_span_in_day(d0, &tt) {
                Some(s) => {
                    return Some(s);
                },
                None => {},
            }
        }
        let mut d = d0;
        while !(d.year() == MAX_YEAR - 8 && d.month() == 12 && d.day() == 31)
            invariant
                valid_date(d@),
                calendar_year(d@.0 as int),
                d.zone() == self.time_zone(),
                k0 == local_day_in(t@, self.time_zone()),
                calendar_year(date_of_day(k0).0 as int),
                same_rules(*self, *old(self)),
                k0 <= day_number(d@) <= last_calendar_day(),
                old(self).scan_from(t@, k0) == old(self).scan_from(t@, day_number(d@) + 1),
            decreases last_calendar_day() - day_number(d@),
        {
            proof {
                lemma_calendar_room(d@, 1);
            }
            let next = d.add_days(1);
            proof {
                use_type_invariant(&next);
                lemma_next_calendar_day(d@, next@);
            }
            d = next;
            let ghost before = *self;
            let found = self.later_day_span(d, t);
            proof {
                lemma_same_rules_span(before, *old(self), t@, day_number(d@));
                assert(old(self).scan_from(t@, day_number(d@)) == if found is Some {
                    span_view(found)
                } else {
                    old(self).scan_from(t@, day_number(d@) + 1)
                });
            }
            match found {
                Some(s) => {
                    return Some(s);
                },
                None => {},
            }
        }
        None
    }
}

} // verus!
