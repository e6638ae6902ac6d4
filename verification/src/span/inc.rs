use std::ops::{Bound, Range, RangeInclusive, Sub};

use vstd::prelude::*;
use vstd::std_specs::cmp::{PartialOrdIs, PartialOrdSpec};
use vstd::std_specs::ops::SubSpec;

use crate::span::any::{any_inc, SpanAny};
use crate::span::endpoint::{EndpointConversion, EndpointSide};
use crate::span::exc::{max_of, min_of, SpanExc};
use crate::span::ops::{pmax, pmin};

verus! {

/// A span including both its ends: `[st, en]`.
#[derive(Debug, Default, Eq, PartialEq, Ord, PartialOrd, Hash, Copy, Clone)]
pub struct SpanInc<T> {
    pub st: T,
    pub en: T,
}

/// `[st, en]` holds no point.
pub open spec fn inc_is_empty<T: PartialOrd>(s: SpanInc<T>) -> bool {
    s.st.is_gt(&s.en)
}

/// `t` lies in `[st, en]`.
pub open spec fn inc_contains<T: PartialOrd>(s: SpanInc<T>, t: T) -> bool {
    s.st.is_le(&t) && s.en.is_ge(&t)
}

/// The span that `cover` builds from two inclusive spans.
pub open spec fn inc_cover<T: PartialOrd>(a: SpanInc<T>, b: SpanInc<T>) -> SpanInc<T> {
    if inc_is_empty(a) {
        b
    } else if inc_is_empty(b) {
        a
    } else {
        SpanInc { st: min_of(a.st, b.st), en: max_of(a.en, b.en) }
    }
}

/// The span that `intersect` builds from two inclusive spans, before the
/// emptiness check.
pub open spec fn inc_meet<T: PartialOrd>(a: SpanInc<T>, b: SpanInc<T>) -> SpanInc<T> {
    SpanInc { st: max_of(a.st, b.st), en: min_of(a.en, b.en) }
}

impl<T: Default + EndpointConversion> SpanInc<T> {
    /// The inclusive form of the empty span `[default, default)`.
    pub fn empty() -> (r: Option<Self>)
        ensures
            r matches Some(s) ==> call_ensures(T::default, (), s.st),
            r matches Some(s) ==> exists|d: T|
                call_ensures(T::default, (), d) && #[trigger] d.closed_value(EndpointSide::Right)
                    == Some(s.en),
            r is None ==> exists|d: T|
                call_ensures(T::default, (), d) && #[trigger] d.closed_value(EndpointSide::Right)
                    is None,
    {
        let st = T::default();
        let en = T::default();
        let r = Self::exc(st, en);
        assert(call_ensures(T::default, (), en) && en.closed_value(EndpointSide::Right)
            == en.closed_value(EndpointSide::Right));
        r
    }
}

impl<T> SpanInc<T> {
    pub fn new(st: T, en: T) -> (r: Self)
        ensures
            r == (SpanInc { st, en }),
    {
        Self { st, en }
    }

    pub fn to_bounds_ref(&self) -> (r: (Bound<&T>, Bound<&T>))
        ensures
            r == (Bound::Included(&self.st), Bound::Included(&self.en)),
    {
        (Bound::Included(&self.st), Bound::Included(&self.en))
    }
}

impl<T: Copy> SpanInc<T> {
    pub fn point(p: T) -> (r: Self)
        ensures
            r == (SpanInc { st: p, en: p }),
    {
        Self { st: p, en: p }
    }

    pub fn range_inclusive(&self) -> (r: RangeInclusive<T>)
        ensures
            r@.start == self.st,
            r@.end == self.en,
            !r@.exhausted,
    {
        RangeInclusive::new(self.st, self.en)
    }

    pub fn to_bounds(&self) -> (r: (Bound<T>, Bound<T>))
        ensures
            r == (Bound::Included(self.st), Bound::Included(self.en)),
    {
        (Bound::Included(self.st), Bound::Included(self.en))
    }

    pub fn to_any(&self) -> (r: SpanAny<T>)
        ensures
            r == any_inc(self.st, self.en),
    {
        SpanAny::inc(self.st, self.en)
    }
}

impl<T: PartialOrd> SpanInc<T> {
    pub fn is_empty(&self) -> (r: bool)
        ensures
            T::obeys_partial_cmp_spec() ==> r == inc_is_empty(*self),
    {
        self.st > self.en
    }

    pub fn contains(&self, t: &T) -> (r: bool)
        ensures
            T::obeys_partial_cmp_spec() ==> r == inc_contains(*self, *t),
    {
        &self.st <= t && &self.en >= t
    }

    pub fn contains_span(&self, s: &Self) -> (r: bool)
        ensures
            T::obeys_partial_cmp_spec() ==> r == (self.st.is_le(&s.st) && self.en.is_ge(&s.en)),
    {
        self.st <= s.st && self.en >= s.en
    }
}

impl<T: PartialOrd + Copy> SpanInc<T> {
    pub fn cover(a: &Self, b: &Self) -> (r: Self)
        ensures
            T::obeys_partial_cmp_spec() ==> r == inc_cover(*a, *b),
    {
        if a.is_empty() {
            *b
        } else if b.is_empty() {
            *a
        } else {
            Self::new(pmin(&a.st, &b.st), pmax(&a.en, &b.en))
        }
    }

    pub fn intersect(&self, s: &Self) -> (r: Option<Self>)
        ensures
            T::obeys_partial_cmp_spec() ==> r == (if inc_is_empty(inc_meet(*self, *s)) {
                None
            } else {
                Some(inc_meet(*self, *s))
            }),
    {
        let span = Self::new(pmax(&self.st, &s.st), pmin(&self.en, &s.en));
        if span.is_empty() {
            None
        } else {
            Some(span)
        }
    }
}

impl<T: EndpointConversion> SpanInc<T> {
    /// The inclusive span holding the same points as `[st, en)`, if the point
    /// before `en` exists.
    pub fn exc(st: T, en: T) -> (r: Option<Self>)
        ensures
            r == (match en.closed_value(EndpointSide::Right) {
                Some(e) => Some(SpanInc { st, en: e }),
                None => None,
            }),
    {
        match en.to_closed(EndpointSide::Right) {
            Some(e) => Some(Self::new(st, e)),
            None => None,
        }
    }
}

impl<T: EndpointConversion + Copy> SpanInc<T> {
    pub fn to_exc(&self) -> (r: Option<SpanExc<T>>)
        ensures
            r == (match self.en.open_value(EndpointSide::Right) {
                Some(e) => Some(SpanExc { st: self.st, en: e }),
                None => None,
            }),
    {
        SpanExc::inc(self.st, self.en)
    }

    pub fn to_range(&self) -> (r: Option<Range<T>>)
        ensures
            r == (match self.en.open_value(EndpointSide::Right) {
                Some(e) => Some(Range { start: self.st, end: e }),
                None => None,
            }),
    {
        match SpanExc::inc(self.st, self.en) {
            Some(s) => Some(s.range()),
            None => None,
        }
    }
}

impl<T: Sub + EndpointConversion + Copy> SpanInc<T> {
    pub fn size(&self) -> (r: Option<T::Output>)
        requires
            self.en.open_value(EndpointSide::Right) matches Some(e) ==> e.sub_req(self.st),
        ensures
            T::obeys_sub_spec() ==> r == (match self.en.open_value(EndpointSide::Right) {
                Some(e) => Some(e.sub_spec(self.st)),
                None => None,
            }),
    {
        match self.en.to_open(EndpointSide::Right) {
            Some(v) => Some(v - self.st),
            None => None,
        }
    }
}

} // verus!
