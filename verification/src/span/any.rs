use std::ops::{Bound, Range, RangeFrom, RangeFull, RangeInclusive, RangeTo, RangeToInclusive, Sub};

use vstd::prelude::*;
use vstd::std_specs::cmp::{PartialOrdIs, PartialOrdSpec};
use vstd::std_specs::convert::FromSpecImpl;
use vstd::std_specs::ops::SubSpec;

use crate::span::endpoint::{
    bound_of, endpoint_closed_point, endpoint_open_point, Endpoint, EndpointConversion,
    EndpointSide,
};
use crate::span::exc::SpanExc;
use crate::span::inc::SpanInc;
use crate::span::ops::{pmax, pmin};

verus! {

/// `std::ops::RangeFull`, which `to_range_full` hands out.
#[verifier::external_type_specification]
pub struct ExRangeFull(RangeFull);

/// `std::ops::RangeFrom`, which `to_range_from` hands out.
#[verifier::external_type_specification]
#[verifier::reject_recursive_types(Idx)]
pub struct ExRangeFrom<Idx>(RangeFrom<Idx>);

/// `std::ops::RangeTo`, which `to_range_to` hands out.
#[verifier::external_type_specification]
#[verifier::reject_recursive_types(Idx)]
pub struct ExRangeTo<Idx>(RangeTo<Idx>);

/// `std::ops::RangeToInclusive`, which `to_range_to_inclusive` hands out.
#[verifier::external_type_specification]
#[verifier::reject_recursive_types(Idx)]
pub struct ExRangeToInclusive<Idx>(RangeToInclusive<Idx>);

/// A span whose ends may each be open, closed or unbounded.
#[derive(Debug, Eq, PartialEq, PartialOrd, Hash, Copy, Clone)]
pub struct SpanAny<T> {
    pub st: Endpoint<T>,
    pub en: Endpoint<T>,
}

/// The left endpoint with the given kind.
pub open spec fn left_open<T>(p: T) -> Endpoint<T> {
    Endpoint::Open { p, side: EndpointSide::Left }
}

pub open spec fn left_closed<T>(p: T) -> Endpoint<T> {
    Endpoint::Closed { p, side: EndpointSide::Left }
}

pub open spec fn right_open<T>(p: T) -> Endpoint<T> {
    Endpoint::Open { p, side: EndpointSide::Right }
}

pub open spec fn right_closed<T>(p: T) -> Endpoint<T> {
    Endpoint::Closed { p, side: EndpointSide::Right }
}

pub open spec fn left_unbounded<T>() -> Endpoint<T> {
    Endpoint::Unbounded { side: EndpointSide::Left }
}

pub open spec fn right_unbounded<T>() -> Endpoint<T> {
    Endpoint::Unbounded { side: EndpointSide::Right }
}

/// `[st, en)`.
pub open spec fn any_exc<T>(st: T, en: T) -> SpanAny<T> {
    SpanAny { st: left_closed(st), en: right_open(en) }
}

/// `[st, en]`.
pub open spec fn any_inc<T>(st: T, en: T) -> SpanAny<T> {
    SpanAny { st: left_closed(st), en: right_closed(en) }
}

/// The span holds no point: its start sits after its end.
pub open spec fn any_is_empty<T: PartialOrd>(s: SpanAny<T>) -> bool {
    s.st.is_gt(&s.en)
}

/// `t` lies in the span.
pub open spec fn any_contains<T: PartialOrd>(s: SpanAny<T>, t: T) -> bool {
    s.st.is_le(&t) && s.en.is_ge(&t)
}

/// The smaller of two endpoints, `a` where they do not compare.
pub open spec fn min_endpoint<T: PartialOrd>(a: Endpoint<T>, b: Endpoint<T>) -> Endpoint<T> {
    if b.is_lt(&a) {
        b
    } else {
        a
    }
}

/// The larger of two endpoints, `a` where they do not compare.
pub open spec fn max_endpoint<T: PartialOrd>(a: Endpoint<T>, b: Endpoint<T>) -> Endpoint<T> {
    if b.is_gt(&a) {
        b
    } else {
        a
    }
}

/// The span that `cover` builds.
pub open spec fn any_cover<T: PartialOrd>(a: SpanAny<T>, b: SpanAny<T>) -> SpanAny<T> {
    if any_is_empty(a) {
        b
    } else if any_is_empty(b) {
        a
    } else {
        SpanAny { st: min_endpoint(a.st, b.st), en: max_endpoint(a.en, b.en) }
    }
}

/// The span that `intersect` builds, before the emptiness check.
pub open spec fn any_meet<T: PartialOrd>(a: SpanAny<T>, b: SpanAny<T>) -> SpanAny<T> {
    SpanAny { st: max_endpoint(a.st, b.st), en: min_endpoint(a.en, b.en) }
}

impl<T: Default> SpanAny<T> {
    pub fn empty() -> (r: Self)
        ensures
            r.st matches Endpoint::Closed { p, side: EndpointSide::Left } && call_ensures(
                T::default,
                (),
                p,
            ),
            r.en matches Endpoint::Open { p, side: EndpointSide::Right } && call_ensures(
                T::default,
                (),
                p,
            ),
    {
        Self::exc(T::default(), T::default())
    }
}

impl<T> SpanAny<T> {
    pub fn new(st: Endpoint<T>, en: Endpoint<T>) -> (r: Self)
        ensures
            r == (SpanAny { st, en }),
    {
        Self { st, en }
    }

    /// Exclusive-exclusive.
    pub fn exc_exc(st: T, en: T) -> (r: Self)
        ensures
            r == (SpanAny { st: left_open(st), en: right_open(en) }),
    {
        Self {
            st: Endpoint::Open { p: st, side: EndpointSide::Left },
            en: Endpoint::Open { p: en, side: EndpointSide::Right },
        }
    }

    /// Exclusive-inclusive.
    pub fn exc_inc(st: T, en: T) -> (r: Self)
        ensures
            r == (SpanAny { st: left_open(st), en: right_closed(en) }),
    {
        Self {
            st: Endpoint::Open { p: st, side: EndpointSide::Left },
            en: Endpoint::Closed { p: en, side: EndpointSide::Right },
        }
    }

    /// Inclusive-exclusive.
    pub fn exc(st: T, en: T) -> (r: Self)
        ensures
            r == any_exc(st, en),
    {
        Self {
            st: Endpoint::Closed { p: st, side: EndpointSide::Left },
            en: Endpoint::Open { p: en, side: EndpointSide::Right },
        }
    }

    /// Inclusive-inclusive.
    pub fn inc(st: T, en: T) -> (r: Self)
        ensures
            r == any_inc(st, en),
    {
        Self {
            st: Endpoint::Closed { p: st, side: EndpointSide::Left },
            en: Endpoint::Closed { p: en, side: EndpointSide::Right },
        }
    }

    pub fn unb_exc(en: T) -> (r: Self)
        ensures
            r == (SpanAny { st: left_unbounded(), en: right_open(en) }),
    {
        Self {
            st: Endpoint::Unbounded { side: EndpointSide::Left },
            en: Endpoint::Open { p: en, side: EndpointSide::Right },
        }
    }

    pub fn unb_inc(en: T) -> (r: Self)
        ensures
            r == (SpanAny { st: left_unbounded(), en: right_closed(en) }),
    {
        Self {
            st: Endpoint::Unbounded { side: EndpointSide::Left },
            en: Endpoint::Closed { p: en, side: EndpointSide::Right },
        }
    }

    pub fn exc_unb(st: T) -> (r: Self)
        ensures
            r == (SpanAny { st: left_open(st), en: right_unbounded() }),
    {
        Self {
            st: Endpoint::Open { p: st, side: EndpointSide::Left },
            en: Endpoint::Unbounded { side: EndpointSide::Right },
        }
    }

    pub fn inc_unb(st: T) -> (r: Self)
        ensures
            r == (SpanAny { st: left_closed(st), en: right_unbounded() }),
    {
        Self {
            st: Endpoint::Closed { p: st, side: EndpointSide::Left },
            en: Endpoint::Unbounded { side: EndpointSide::Right },
        }
    }

    pub fn unb() -> (r: Self)
        ensures
            r == (SpanAny::<T> { st: left_unbounded(), en: right_unbounded() }),
    {
        Self {
            st: Endpoint::Unbounded { side: EndpointSide::Left },
            en: Endpoint::Unbounded { side: EndpointSide::Right },
        }
    }

    pub fn to_range_full(&self) -> (r: Option<RangeFull>)
        ensures
            r is Some <==> (self.st is Unbounded && self.en is Unbounded),
    {
        match (&self.st, &self.en) {
            (Endpoint::Unbounded { .. }, Endpoint::Unbounded { .. }) => Some(RangeFull),
            _ => None,
        }
    }

    pub fn to_bounds_ref(&self) -> (r: (Bound<&T>, Bound<&T>))
        ensures
            match self.st {
                Endpoint::Open { p, .. } => r.0 == Bound::Excluded(&p),
                Endpoint::Closed { p, .. } => r.0 == Bound::Included(&p),
                Endpoint::Unbounded { .. } => r.0 == Bound::<&T>::Unbounded,
            },
            match self.en {
                Endpoint::Open { p, .. } => r.1 == Bound::Excluded(&p),
                Endpoint::Closed { p, .. } => r.1 == Bound::Included(&p),
                Endpoint::Unbounded { .. } => r.1 == Bound::<&T>::Unbounded,
            },
    {
        (self.st.bound(), self.en.bound())
    }
}

impl<T: PartialOrd> SpanAny<T> {
    pub fn contains(&self, t: &T) -> (r: bool)
        ensures
            T::obeys_partial_cmp_spec() ==> r == any_contains(*self, *t),
    {
        &self.st <= t && &self.en >= t
    }

    pub fn contains_span(&self, s: &Self) -> (r: bool)
        ensures
            T::obeys_partial_cmp_spec() ==> r == (self.st.is_le(&s.st) && self.en.is_ge(&s.en)),
    {
        self.st <= s.st && self.en >= s.en
    }

    pub fn is_empty(&self) -> (r: bool)
        ensures
            T::obeys_partial_cmp_spec() ==> r == any_is_empty(*self),
    {
        self.st > self.en
    }

    pub fn is_unb(&self) -> (r: bool)
        ensures
            T::obeys_partial_cmp_spec() ==> r == (!any_is_empty(*self) && self.st is Unbounded
                && self.en is Unbounded),
    {
        if self.is_empty() {
            false
        } else {
            // If we are not empty and both endpoints are unbounded, we must be unbounded.
            matches!((&self.st, &self.en), (Endpoint::Unbounded { .. }, Endpoint::Unbounded { .. }))
        }
    }
}

impl<T: EndpointConversion + Sub + Copy> SpanAny<T> {
    pub fn size(&self) -> (r: Option<T::Output>)
        requires
            (endpoint_open_point(self.en), endpoint_closed_point(self.st)) matches (Some(e), Some(s))
                ==> e.sub_req(s),
        ensures
            T::obeys_sub_spec() ==> r == (match (
                endpoint_open_point(self.en),
                endpoint_closed_point(self.st),
            ) {
                (Some(e), Some(s)) => Some(e.sub_spec(s)),
                _ => None,
            }),
    {
        match (self.en.to_open(), self.st.to_closed()) {
            (Some(en), Some(st)) => Some(en - st),
            _ => None,
        }
    }
}

impl<T: EndpointConversion + Copy> SpanAny<T> {
    pub fn to_inc(&self) -> (r: Option<SpanInc<T>>)
        ensures
            r == (match (endpoint_closed_point(self.st), endpoint_closed_point(self.en)) {
                (Some(s), Some(e)) => Some(SpanInc { st: s, en: e }),
                _ => None,
            }),
    {
        match self.st.to_closed() {
            Some(st) => match self.en.to_closed() {
                Some(en) => Some(SpanInc::new(st, en)),
                None => None,
            },
            None => None,
        }
    }

    pub fn to_exc(&self) -> (r: Option<SpanExc<T>>)
        ensures
            r == (match (endpoint_closed_point(self.st), endpoint_open_point(self.en)) {
                (Some(s), Some(e)) => Some(SpanExc { st: s, en: e }),
                _ => None,
            }),
    {
        match self.st.to_closed() {
            Some(st) => match self.en.to_open() {
                Some(en) => Some(SpanExc::new(st, en)),
                None => None,
            },
            None => None,
        }
    }

    pub fn to_range(&self) -> (r: Option<Range<T>>)
        ensures
            r == (match (endpoint_closed_point(self.st), endpoint_open_point(self.en)) {
                (Some(s), Some(e)) => Some(Range { start: s, end: e }),
                _ => None,
            }),
    {
        match self.st.to_closed() {
            Some(st) => match self.en.to_open() {
                Some(en) => Some(Range { start: st, end: en }),
                None => None,
            },
            None => None,
        }
    }

    pub fn to_range_inclusive(&self) -> (r: Option<RangeInclusive<T>>)
        ensures
            match (endpoint_closed_point(self.st), endpoint_closed_point(self.en)) {
                (Some(s), Some(e)) => r is Some && r.unwrap()@.start == s && r.unwrap()@.end == e
                    && !r.unwrap()@.exhausted,
                _ => r is None,
            },
    {
        match self.st.to_closed() {
            Some(st) => match self.en.to_closed() {
                Some(en) => Some(RangeInclusive::new(st, en)),
                None => None,
            },
            None => None,
        }
    }

    pub fn to_range_from(&self) -> (r: Option<RangeFrom<T>>)
        ensures
            r == (if self.en is Unbounded {
                match endpoint_closed_point(self.st) {
                    Some(s) => Some(RangeFrom { start: s }),
                    None => None,
                }
            } else {
                None
            }),
    {
        if self.en.is_unbounded() {
            match self.st.to_closed() {
                Some(st) => Some(RangeFrom { start: st }),
                None => None,
            }
        } else {
            None
        }
    }

    pub fn to_range_to(&self) -> (r: Option<RangeTo<T>>)
        ensures
            r == (if self.st is Unbounded {
                match endpoint_open_point(self.en) {
                    Some(e) => Some(RangeTo { end: e }),
                    None => None,
                }
            } else {
                None
            }),
    {
        if self.st.is_unbounded() {
            match self.en.to_open() {
                Some(en) => Some(RangeTo { end: en }),
                None => None,
            }
        } else {
            None
        }
    }

    pub fn to_range_to_inclusive(&self) -> (r: Option<RangeToInclusive<T>>)
        ensures
            r == (if self.st is Unbounded {
                match endpoint_closed_point(self.en) {
                    Some(e) => Some(RangeToInclusive { end: e }),
                    None => None,
                }
            } else {
                None
            }),
    {
        if self.st.is_unbounded() {
            match self.en.to_closed() {
                Some(en) => Some(RangeToInclusive { end: en }),
                None => None,
            }
        } else {
            None
        }
    }
}

impl<T: Copy> SpanAny<T> {
    pub fn to_bounds(&self) -> (r: (Bound<T>, Bound<T>))
        ensures
            r == (bound_of(self.st), bound_of(self.en)),
    {
        (self.st.to_bound(), self.en.to_bound())
    }

    pub fn point(p: T) -> (r: Self)
        ensures
            r == any_inc(p, p),
    {
        Self {
            st: Endpoint::Closed { p, side: EndpointSide::Left },
            en: Endpoint::Closed { p, side: EndpointSide::Right },
        }
    }
}

impl<T: PartialOrd + Copy> SpanAny<T> {
    pub fn cover(a: &Self, b: &Self) -> (r: Self)
        ensures
            T::obeys_partial_cmp_spec() ==> r == any_cover(*a, *b),
    {
        if a.is_empty() {
            *b
        } else if b.is_empty() {
            *a
        } else {
            Self::new(pmin(&a.st, &b.st), pmax(&a.en, &b.en))
        }
    }

    pub fn intersect(&self, s: &Self) -> (r: Option<Self>)
        ensures
            T::obeys_partial_cmp_spec() ==> r == (if any_is_empty(any_meet(*self, *s)) {
                None
            } else {
                Some(any_meet(*self, *s))
            }),
    {
        let span = Self::new(pmax(&self.st, &s.st), pmin(&self.en, &s.en));
        if span.is_empty() {
            None
        } else {
            Some(span)
        }
    }
}

impl<T> FromSpecImpl<(Bound<T>, Bound<T>)> for SpanAny<T> {
    open spec fn obeys_from_spec() -> bool {
        true
    }

    open spec fn from_spec(v: (Bound<T>, Bound<T>)) -> SpanAny<T> {
        SpanAny {
            st: match v.0 {
                Bound::Included(p) => left_closed(p),
                Bound::Excluded(p) => left_open(p),
                Bound::Unbounded => left_unbounded(),
            },
            en: match v.1 {
                Bound::Included(p) => right_closed(p),
                Bound::Excluded(p) => right_open(p),
                Bound::Unbounded => right_unbounded(),
            },
        }
    }
}

impl<T> From<(Bound<T>, Bound<T>)> for SpanAny<T> {
    fn from(v: (Bound<T>, Bound<T>)) -> (r: Self) {
        Self::new(
            Endpoint::from_bound(v.0, EndpointSide::Left),
            Endpoint::from_bound(v.1, EndpointSide::Right),
        )
    }
}

} // verus!
