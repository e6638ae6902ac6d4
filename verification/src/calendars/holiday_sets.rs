use std::collections::BTreeSet;

use vstd::prelude::*;

use crate::calendars::calendar::{
    any_contains, calendar_year, in_sets, last_calendar_day, lemma_calendar_room,
    lemma_date_of_day, DaySet,
};
use crate::date::{day_number, lemma_day_number_ordered, valid_date, Date, MAX_YEAR, MIN_YEAR};
use crate::time::{chrono_days_from_ce, date_of_day};

verus! {

broadcast use vstd::laws_cmp::group_laws_cmp, vstd::std_specs::btree::group_btree_axioms;

/// The number of the first day a calendar is worked out on.
pub open spec fn first_calendar_day() -> int {
    day_number(((MIN_YEAR + 8) as i32, 1u32, 1u32))
}

/// A date is in a calendar year exactly when its number lies between the
/// first and the last calendar day.
proof fn lemma_calendar_days(x: (i32, u32, u32))
    requires
        valid_date(x),
    ensures
        calendar_year(x.0 as int) <==> first_calendar_day() <= day_number(x)
            <= last_calendar_day(),
{
    let f = ((MIN_YEAR + 8) as i32, 1u32, 1u32);
    let l = ((MAX_YEAR - 8) as i32, 12u32, 31u32);
    assert(l == (262134i32, 12u32, 31u32));
    if x.0 < MIN_YEAR + 8 {
        lemma_day_number_ordered(x, f);
    } else if x != f && x.0 <= MAX_YEAR - 8 {
        lemma_day_number_ordered(f, x);
    }
    if x.0 > MAX_YEAR - 8 {
        lemma_day_number_ordered(l, x);
    } else if x != l && x.0 >= MIN_YEAR + 8 {
        lemma_day_number_ordered(x, l);
    }
}

/// The number of the date `d`.
fn day_number_of(d: &Date) -> (r: i64)
    ensures
        r == day_number(d@),
{
    proof {
        use_type_invariant(d);
    }
    (chrono_days_from_ce(d.year(), d.month(), d.day()) as i64) - 1
}

/// Sets of holidays, with the holidays among a range of days worked out once
/// and kept by day number.
pub struct HolidaySets {
    sets: Vec<DaySet>,
    days: BTreeSet<i64>,
    lo: i64,
    hi: i64,
}

impl HolidaySets {
    /// The kept days are the holidays among the calendar days from `lo` to
    /// before `hi`.
    #[verifier::type_invariant]
    spec fn inv(self) -> bool {
        &&& self.lo <= self.hi
        &&& forall|k: i64|
            self.lo <= k < self.hi ==> (#[trigger] self.days@.contains(k) <==> (
            first_calendar_day() <= k <= last_calendar_day() && in_sets(
                self.sets@,
                date_of_day(k as int),
            )))
    }

    /// The sets.
    pub closed spec fn sets(&self) -> Seq<DaySet> {
        self.sets@
    }

    /// The sets `sets`, with no day worked out yet.
    pub fn new(sets: Vec<DaySet>) -> (r: Self)
        ensures
            r.sets() == sets@,
    {
        Self { sets, days: BTreeSet::new(), lo: 0, hi: 0 }
    }

    /// The same sets, with the holidays among the ten years or so on either
    /// side of the date `d` worked out.
    fn around(self, d: &Date) -> (r: Self)
        requires
            calendar_year(d@.0 as int),
        ensures
            r.sets() == self.sets(),
            r.lo <= day_number(d@) < r.hi,
    {
        proof {
            use_type_invariant(d);
            lemma_calendar_days(d@);
            assert(first_calendar_day() == -95743208);
            assert(last_calendar_day() == 95742476);
        }
        let HolidaySets { sets, days: _, lo: _, hi: _ } = self;
        let k0 = day_number_of(d);
        let lo: i64 = if k0 - 3650 < -95743208 {
            -95743208
        } else {
            k0 - 3650
        };
        let hi: i64 = if k0 + 3651 > 95742477 {
            95742477
        } else {
            k0 + 3651
        };
        proof {
            lemma_calendar_room(d@, 0);
        }
        let mut cur = d.add_days((lo - k0) as i32);
        proof {
            use_type_invariant(&cur);
            lemma_calendar_days(cur@);
            lemma_date_of_day(cur@);
        }
        let mut days: BTreeSet<i64> = BTreeSet::new();
        let mut k: i64 = lo;
        while k < hi
            invariant
                lo <= k <= hi,
                first_calendar_day() <= lo,
                hi <= last_calendar_day() + 1,
                k < hi ==> (valid_date(cur@) && day_number(cur@) == k),
                forall|j: i64|
                    lo <= j < k ==> (#[trigger] days@.contains(j) <==> in_sets(
                        sets@,
                        date_of_day(j as int),
                    )),
                forall|j: i64| #[trigger] days@.contains(j) ==> lo <= j < k,
            decreases hi - k,
        {
            proof {
                use_type_invariant(&cur);
                lemma_calendar_days(cur@);
                lemma_date_of_day(cur@);
            }
            let h = any_contains(&sets, &cur);
            if h {
                days.insert(k);
            }
            k += 1;
            if k < hi {
                proof {
                    lemma_calendar_room(cur@, 1);
                }
                cur = cur.add_days(1);
            }
        }
        HolidaySets { sets, days, lo, hi }
    }

    /// Some set holds the date `d`.
    pub fn holds(&mut self, d: &Date) -> (r: bool)
        requires
            calendar_year(d@.0 as int),
        ensures
            r == in_sets(old(self).sets(), d@),
            final(self).sets() == old(self).sets(),
    {
        proof {
            use_type_invariant(d);
            lemma_calendar_days(d@);
            lemma_date_of_day(d@);
        }
        let k = day_number_of(d);
        if !(self.lo <= k && k < self.hi) {
            let mut me = HolidaySets::new(Vec::new());
            std::mem::swap(self, &mut me);
            *self = me.around(d);
        }
        self.lookup(k, d)
    }

    /// The kept answer for the day numbered `k`, the number of the date `d`.
    fn lookup(&self, k: i64, d: &Date) -> (r: bool)
        requires
            self.lo <= k < self.hi,
            k == day_number(d@),
            first_calendar_day() <= k <= last_calendar_day(),
            date_of_day(k as int) == d@,
        ensures
            r == in_sets(self.sets(), d@),
    {
        proof {
            use_type_invariant(self);
            assert(self.days@.contains(k) <==> in_sets(self.sets@, date_of_day(k as int)));
        }
        self.days.contains(&k)
    }
}

} // verus!
