use vstd::prelude::*;

use crate::date::{ymd_lt, Date};
use crate::time::{instant_lt, step_holds, step_ok, Time};
use crate::op::{dop_holds, dop_ok, lemma_dop_holds_unique, top_step, DOp, DateOp, TimeOp};

verus! {

/// Times from a start time up to (and not including) an end time, each the
/// previous one with a time operation applied.
#[derive(Debug, Clone)]
pub struct TimeIter {
    t: Time,
    en: Time,
    op: TimeOp,
}

impl TimeIter {
    /// The next time the iterator yields.
    pub closed spec fn current(&self) -> Time {
        self.t
    }

    /// The end time, which the iterator does not yield.
    pub closed spec fn end(&self) -> Time {
        self.en
    }

    /// The operation that moves from one time to the next.
    pub closed spec fn step_op(&self) -> TimeOp {
        self.op
    }

    pub fn new(st: Time, en: Time, op: TimeOp) -> (r: Self)
        ensures
            r.current() == st,
            r.end() == en,
            r.step_op() == op,
    {
        Self { t: st, en, op }
    }

    /// Yields the current time and moves to the next, or `None` once the
    /// current time is at or past the end. Where the operation leaves the
    /// instant unchanged, the iterator moves to the end.
    pub fn next(&mut self) -> (r: Option<Time>)
        requires
            instant_lt(old(self).current()@, old(self).end()@) ==> step_ok(
                old(self).current(),
                top_step(old(self).step_op()@.0, old(self).step_op()@.1),
            ),
        ensures
            final(self).end() == old(self).end(),
            final(self).step_op() == old(self).step_op(),
            !instant_lt(old(self).current()@, old(self).end()@) ==> r is None && *final(self)
                == *old(self),
            instant_lt(old(self).current()@, old(self).end()@) ==> r == Some(old(self).current())
                && exists|n: Time|
                #![trigger step_holds(old(self).current(), top_step(old(self).step_op()@.0, old(self).step_op()@.1), n)]
                step_holds(
                    old(self).current(),
                    top_step(old(self).step_op()@.0, old(self).step_op()@.1),
                    n,
                ) && (if n@ == old(self).current()@ {
                    final(self).current() == old(self).end()
                } else {
                    final(self).current() == n
                }),
    {
        if self.t >= self.en {
            return None;
        }
        let t = self.t;
        let n = self.op.apply(t);
        if t == n {
            self.t = self.en;
        } else {
            self.t = n;
        }
        Some(t)
    }
}

/// Dates from a start date up to (and not including) an end date, each the
/// previous one with a date operation applied.
#[derive(Debug, Eq, PartialEq, Hash, Clone)]
pub struct DateIter {
    d: Date,
    en: Date,
    op: DateOp,
}

impl DateIter {
    /// The next date the iterator yields.
    pub closed spec fn current(&self) -> Date {
        self.d
    }

    /// The end date, which the iterator does not yield.
    pub closed spec fn end(&self) -> Date {
        self.en
    }

    /// The operation that moves from one date to the next.
    pub closed spec fn step_op(&self) -> DateOp {
        self.op
    }

    pub fn new(st: Date, en: Date, op: DateOp) -> (r: Self)
        ensures
            r.current() == st,
            r.end() == en,
            r.step_op() == op,
    {
        Self { d: st, en, op }
    }

    /// Every day from `st` up to `en`.
    pub fn day(st: Date, en: Date) -> (r: Self)
        ensures
            r.current() == st,
            r.end() == en,
            r.step_op()@ == (crate::op::DOp::AddDays, 1i64),
    {
        Self { d: st, en, op: DateOp::add_days(1) }
    }

    /// The same day of every year from `st` up to `en`.
    pub fn year(st: Date, en: Date) -> (r: Self)
        ensures
            r.current() == st,
            r.end() == en,
            r.step_op()@ == (crate::op::DOp::AddYears, 1i64),
    {
        Self { d: st, en, op: DateOp::add_years(1) }
    }

    /// Yields the current date and moves to the next, or `None` once the
    /// current date is at or past the end. Where the operation leaves the
    /// date unchanged, the iterator moves to the end.
    pub fn next(&mut self) -> (r: Option<Date>)
        requires
            ymd_lt(old(self).current()@, old(self).end()@) ==> dop_ok(
                old(self).current()@,
                old(self).step_op()@.0,
                old(self).step_op()@.1,
            ),
        ensures
            date_iter_step(*old(self), *final(self), r),
    {
        if self.d >= self.en {
            return None;
        }
        let d = self.d;
        self.d = self.op.apply(d);
        if d.year() == self.d.year() && d.month() == self.d.month() && d.day() == self.d.day() {
            self.d = self.en;
        }
        Some(d)
    }
}

/// What one call of `DateIter::next` does: from the state `a` to the state
/// `b`, giving `r`. Before the end it gives the current date and moves to
/// the date the operation gives, or to the end where that is the same date;
/// at or past the end it gives nothing and leaves the iterator as it is.
pub open spec fn date_iter_step(a: DateIter, b: DateIter, r: Option<Date>) -> bool {
    &&& b.end() == a.end()
    &&& b.step_op() == a.step_op()
    &&& !ymd_lt(a.current()@, a.end()@) ==> r is None && b == a
    &&& ymd_lt(a.current()@, a.end()@) ==> r == Some(a.current()) && exists|n: (i32, u32, u32)|
        #![trigger dop_holds(a.current()@, a.step_op()@.0, a.step_op()@.1, n)]
        dop_holds(a.current()@, a.step_op()@.0, a.step_op()@.1, n) && (if n == a.current()@ {
            b.current() == a.end()
        } else {
            b.current()@ == n && b.current().zone() == a.current().zone()
        })
}

/// The date the `i`th call of `next` gives, for an iterator at `d` with end
/// `en` and operation `op`: `d` itself, then each date the operation gives
/// from the one before, while before the end and while the operation moves
/// the date; none from then on.
pub open spec fn iter_date(d: (i32, u32, u32), en: (i32, u32, u32), op: (DOp, i64), i: nat) -> Option<
    (i32, u32, u32),
>
    decreases i,
{
    if !ymd_lt(d, en) {
        None
    } else if i == 0 {
        Some(d)
    } else {
        let nx = choose|x: (i32, u32, u32)| dop_holds(d, op.0, op.1, x);
        if nx == d {
            None
        } else {
            iter_date(nx, en, op, (i - 1) as nat)
        }
    }
}

/// The view of an optional date.
pub open spec fn date_opt_view(r: Option<Date>) -> Option<(i32, u32, u32)> {
    match r {
        Some(x) => Some(x@),
        None => None,
    }
}

/// Successive calls of `DateIter::next`, from the states `its[0]`,
/// `its[1]`, ... with the results `rs`, give the start date, then each date
/// the operation gives from the one before, while before the end, then none
/// forever; an operation that leaves a date unchanged ends the iteration.
pub proof fn lemma_date_iter_calls(its: Seq<DateIter>, rs: Seq<Option<Date>>)
    requires
        its.len() == rs.len() + 1,
        forall|i: int| #![trigger rs[i]] 0 <= i < rs.len() ==> date_iter_step(its[i], its[i + 1], rs[i]),
    ensures
        forall|i: int|
            0 <= i < rs.len() ==> #[trigger] date_opt_view(rs[i]) == iter_date(
                its[0].current()@,
                its[0].end()@,
                its[0].step_op()@,
                i as nat,
            ),
    decreases rs.len(),
{
    if rs.len() > 0 {
        let a = its[0];
        let b = its[1];
        assert(rs[0] == rs[0]);
        let ti = its.drop_first();
        let tr = rs.drop_first();
        assert forall|i: int| #![trigger tr[i]] 0 <= i < tr.len() implies date_iter_step(
            ti[i],
            ti[i + 1],
            tr[i],
        ) by {
            assert(tr[i] == rs[i + 1]);
            assert(ti[i] == its[i + 1] && ti[i + 1] == its[i + 2]);
        }
        lemma_date_iter_calls(ti, tr);
        assert forall|i: int| 0 <= i < rs.len() implies #[trigger] date_opt_view(rs[i]) == iter_date(
            a.current()@,
            a.end()@,
            a.step_op()@,
            i as nat,
        ) by {
            if i > 0 {
                assert(rs[i] == tr[i - 1]);
                assert(date_opt_view(tr[i - 1]) == iter_date(
                    b.current()@,
                    b.end()@,
                    b.step_op()@,
                    (i - 1) as nat,
                ));
                if ymd_lt(a.current()@, a.end()@) {
                    let n = choose|n: (i32, u32, u32)|
                        dop_holds(a.current()@, a.step_op()@.0, a.step_op()@.1, n) && (if n
                            == a.current()@ {
                            b.current() == a.end()
                        } else {
                            b.current()@ == n && b.current().zone() == a.current().zone()
                        });
                    let nx = choose|x: (i32, u32, u32)|
                        dop_holds(a.current()@, a.step_op()@.0, a.step_op()@.1, x);
                    lemma_dop_holds_unique(
                        a.current()@,
                        a.step_op()@.0,
                        a.step_op()@.1,
                        n,
                        nx,
                    );
                }
            }
        }
    }
}

/// The no-op date operation leaves a date where it is, so a date iterator
/// stepping by it yields its start once and then moves to its end.
pub proof fn lemma_nop_step_stays(d: (i32, u32, u32), n: i64, r: (i32, u32, u32))
    requires
        dop_holds(d, DOp::Nop, n, r),
    ensures
        r == d,
{
}

} // verus!
