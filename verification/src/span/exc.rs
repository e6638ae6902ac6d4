use std::ops::{Bound, Range, RangeInclusive, Sub};

use vstd::prelude::*;
use vstd::std_specs::cmp::{PartialOrdIs, PartialOrdSpec};
use vstd::std_specs::convert::FromSpecImpl;
use vstd::std_specs::ops::SubSpec;

use crate::span::any::SpanAny;
use crate::span::endpoint::{EndpointConversion, EndpointSide};
use crate::span::inc::SpanInc;
use crate::span::ops::{pmax, pmin};

verus! {

/// A span including its start and excluding its end: `[st, en)`.
#[derive(Debug, Default, Eq, PartialEq, Ord, PartialOrd, Hash, Copy, Clone)]
pub struct SpanExc<T> {
    pub st: T,
    pub en: T,
}

/// `[st, en)` holds no point.
pub open spec fn exc_is_empty<T: PartialOrd>(s: SpanExc<T>) -> bool {
    s.st.is_ge(&s.en)
}

/// `t` lies in `[st, en)`.
pub open spec fn exc_contains<T: PartialOrd>(s: SpanExc<T>, t: T) -> bool {
    s.st.is_le(&t) && s.en.is_gt(&t)
}

/// The smaller of two points, `a` where they do not compare.
pub open spec fn min_of<T: PartialOrd>(a: T, b: T) -> T {
    if b.is_lt(&a) {
        b
    } else {
        a
    }
}

/// The larger of two points, `a` where they do not compare.
pub open spec fn max_of<T: PartialOrd>(a: T, b: T) -> T {
    if b.is_gt(&a) {
        b
    } else {
        a
    }
}

/// The span that `cover` builds from two exclusive spans.
pub open spec fn exc_cover<T: PartialOrd>(a: SpanExc<T>, b: SpanExc<T>) -> SpanExc<T> {
    if exc_is_empty(a) {
        b
    } else if exc_is_empty(b) {
        a
    } else {
        SpanExc { st: min_of(a.st, b.st), en: max_of(a.en, b.en) }
    }
}

/// The span that `intersect` builds from two exclusive spans, before the
/// emptiness check.
pub open spec fn exc_meet<T: PartialOrd>(a: SpanExc<T>, b: SpanExc<T>) -> SpanExc<T> {
    SpanExc { st: max_of(a.st, b.st), en: min_of(a.en, b.en) }
}

impl<T: Default> SpanExc<T> {
    pub fn empty() -> (r: Self)
        ensures
            call_ensures(T::default, (), r.st),
            call_ensures(T::default, (), r.en),
    {
        Self::new(T::default(), T::default())
    }
}

impl<T> SpanExc<T> {
    pub fn new(st: T, en: T) -> (r: Self)
        ensures
            r == (SpanExc { st, en }),
    {
        Self { st, en }
    }

    pub fn to_bounds_ref(&self) -> (r: (Bound<&T>, Bound<&T>))
        ensures
            r == (Bound::Included(&self.st), Bound::Excluded(&self.en)),
    {
        (Bound::Included(&self.st), Bound::Excluded(&self.en))
    }
}

impl<T: Copy> SpanExc<T> {
    pub fn range(&self) -> (r: Range<T>)
        ensures
            r == (Range { start: self.st, end: self.en }),
    {
        Range { start: self.st, end: self.en }
    }

    pub fn to_bounds(&self) -> (r: (Bound<T>, Bound<T>))
        ensures
            r == (Bound::Included(self.st), Bound::Excluded(self.en)),
    {
        (Bound::Included(self.st), Bound::Excluded(self.en))
    }

    pub fn to_any(&self) -> (r: SpanAny<T>)
        ensures
            r == crate::span::any::any_exc(self.st, self.en),
    {
        SpanAny::exc(self.st, self.en)
    }
}

impl<T: PartialOrd> SpanExc<T> {
    pub fn is_empty(&self) -> (r: bool)
        ensures
            T::obeys_partial_cmp_spec() ==> r == exc_is_empty(*self),
    {
        self.st >= self.en
    }

    pub fn contains(&self, t: &T) -> (r: bool)
        ensures
            T::obeys_partial_cmp_spec() ==> r == exc_contains(*self, *t),
    {
        &self.st <= t && &self.en > t
    }

    pub fn contains_span(&self, s: &Self) -> (r: bool)
        ensures
            T::obeys_partial_cmp_spec() ==> r == (self.st.is_le(&s.st) && self.en.is_ge(&s.en)),
    {
        self.st <= s.st && self.en >= s.en
    }
}

impl<T: PartialOrd + Copy> SpanExc<T> {
    pub fn cover(a: &Self, b: &Self) -> (r: Self)
        ensures
            T::obeys_partial_cmp_spec() ==> r == exc_cover(*a, *b),
    {
        if a.is_empty() {
            *b
        } else if b.is_empty() {
            *a
        } else {
            Self::new(pmin(&a.st, &b.st), pmax(&a.en, &b.en))
        }
    }

    pub fn intersect(&self, s: &Self) -> (r: Option<Self>)
        ensures
            T::obeys_partial_cmp_spec() ==> r == (if exc_is_empty(exc_meet(*self, *s)) {
                None
            } else {
                Some(exc_meet(*self, *s))
            }),
    {
        let span = Self::new(pmax(&self.st, &s.st), pmin(&self.en, &s.en));
        if span.is_empty() {
            None
        } else {
            Some(span)
        }
    }
}

impl<T: EndpointConversion + Copy> SpanExc<T> {
    /// The exclusive span holding the same points as `[st, en]`, if the point
    /// after `en` exists.
    pub fn inc(st: T, en: T) -> (r: Option<Self>)
        ensures
            r == (match en.open_value(EndpointSide::Right) {
                Some(e) => Some(SpanExc { st, en: e }),
                None => None,
            }),
    {
        match en.to_open(EndpointSide::Right) {
            Some(e) => Some(Self::new(st, e)),
            None => None,
        }
    }

    pub fn point(p: T) -> (r: Option<Self>)
        ensures
            r == (match p.open_value(EndpointSide::Right) {
                Some(e) => Some(SpanExc { st: p, en: e }),
                None => None,
            }),
    {
        Self::inc(p, p)
    }

    pub fn to_inc(&self) -> (r: Option<SpanInc<T>>)
        ensures
            r == (match self.en.closed_value(EndpointSide::Right) {
                Some(e) => Some(SpanInc { st: self.st, en: e }),
                None => None,
            }),
    {
        SpanInc::exc(self.st, self.en)
    }

    pub fn to_range_inclusive(&self) -> (r: Option<RangeInclusive<T>>)
        ensures
            match self.en.closed_value(EndpointSide::Right) {
                Some(e) => r is Some && r.unwrap()@.start == self.st && r.unwrap()@.end == e
                    && !r.unwrap()@.exhausted,
                None => r is None,
            },
    {
        match self.to_inc() {
            Some(s) => Some(s.range_inclusive()),
            None => None,
        }
    }
}

impl<T: Sub + Copy> SpanExc<T> {
    pub fn size(&self) -> (r: T::Output)
        requires
            self.en.sub_req(self.st),
        ensures
            T::obeys_sub_spec() ==> r == self.en.sub_spec(self.st),
    {
        self.en - self.st
    }
}

impl<T> FromSpecImpl<Range<T>> for SpanExc<T> {
    open spec fn obeys_from_spec() -> bool {
        true
    }

    open spec fn from_spec(r: Range<T>) -> SpanExc<T> {
        SpanExc { st: r.start, en: r.end }
    }
}

impl<T> From<Range<T>> for SpanExc<T> {
    fn from(r: Range<T>) -> (s: Self) {
        Self::new(r.start, r.end)
    }
}

} // verus!
