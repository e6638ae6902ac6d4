pub mod any;
pub mod endpoint;
pub mod exc;
pub mod inc;
pub mod laws;
pub mod ops;

use std::cmp::Ordering;
use std::ops::{Add, Bound, Sub};

use vstd::prelude::*;
use vstd::std_specs::cmp::{
    PartialEqIs, PartialEqSpec, PartialEqSpecImpl, PartialOrdIs, PartialOrdSpec, PartialOrdSpecImpl,
};
use vstd::std_specs::ops::{AddSpec, AddSpecImpl, SubSpec, SubSpecImpl};

verus! {

/// Represents an endpoint of a span. For comparison, endpoints behave as closed
/// points - that is, an open endpoint should be compared with >= and <=.
#[derive(Debug, Default, Eq, PartialEq, Hash, Copy, Clone)]
pub struct Endpoint<T> {
    pub p: T,
    /// Whether this endpoint ends on the left or the right side. If true,
    /// imagine the span extending off from the left to the right.
    pub left: bool,
    /// Whether this endpoint is open or closed.
    pub closed: bool,
}

/// The ordering of an endpoint against a point.
pub open spec fn flag_point_order<T: PartialOrd>(e: Endpoint<T>, t: T) -> Option<Ordering> {
    match e.p.partial_cmp_spec(&t) {
        Some(Ordering::Equal) => Some(
            if e.closed {
                Ordering::Equal
            } else if e.left {
                Ordering::Greater
            } else {
                Ordering::Less
            },
        ),
        x => x,
    }
}

/// The ordering of two endpoints.
pub open spec fn flag_order<T: PartialOrd>(a: Endpoint<T>, b: Endpoint<T>) -> Option<Ordering> {
    match a.p.partial_cmp_spec(&b.p) {
        Some(Ordering::Equal) => Some(
            if a.left && b.left {
                if a.closed == b.closed {
                    Ordering::Equal
                } else if a.closed {
                    Ordering::Less
                } else {
                    Ordering::Greater
                }
            } else if a.left && !b.left {
                if a.closed && b.closed {
                    Ordering::Equal
                } else {
                    Ordering::Greater
                }
            } else if !a.left && b.left {
                if a.closed && b.closed {
                    Ordering::Equal
                } else {
                    Ordering::Less
                }
            } else {
                if a.closed == b.closed {
                    Ordering::Equal
                } else if a.closed {
                    Ordering::Greater
                } else {
                    Ordering::Less
                }
            },
        ),
        x => x,
    }
}

impl<T> Endpoint<T> {
    pub fn bound(&self) -> (r: Bound<&T>)
        ensures
            r == (if self.closed {
                Bound::Included(&self.p)
            } else {
                Bound::Excluded(&self.p)
            }),
    {
        if self.closed {
            Bound::Included(&self.p)
        } else {
            Bound::Excluded(&self.p)
        }
    }
}

impl<T: PartialEq> PartialEqSpecImpl<T> for Endpoint<T> {
    open spec fn obeys_eq_spec() -> bool {
        T::obeys_eq_spec()
    }

    open spec fn eq_spec(&self, other: &T) -> bool {
        self.closed && self.p.eq_spec(other)
    }
}

impl<T: PartialEq> PartialEq<T> for Endpoint<T> {
    fn eq(&self, other: &T) -> (r: bool) {
        if self.closed {
            self.p == *other
        } else {
            // If open, can't be equal to any closed point.
            false
        }
    }
}

impl<T: PartialOrd> PartialOrdSpecImpl<T> for Endpoint<T> {
    open spec fn obeys_partial_cmp_spec() -> bool {
        T::obeys_partial_cmp_spec()
    }

    open spec fn partial_cmp_spec(&self, other: &T) -> Option<Ordering> {
        flag_point_order(*self, *other)
    }
}

impl<T: PartialOrd> PartialOrd<T> for Endpoint<T> {
    fn partial_cmp(&self, other: &T) -> (r: Option<Ordering>) {
        match self.p.partial_cmp(other) {
            Some(Ordering::Equal) => {
                if self.closed {
                    Some(Ordering::Equal)
                } else if self.left {
                    Some(Ordering::Greater)
                } else {
                    Some(Ordering::Less)
                }
            },
            x => x,
        }
    }
}

impl<T: PartialOrd> PartialOrdSpecImpl for Endpoint<T> {
    open spec fn obeys_partial_cmp_spec() -> bool {
        T::obeys_partial_cmp_spec()
    }

    open spec fn partial_cmp_spec(&self, other: &Self) -> Option<Ordering> {
        flag_order(*self, *other)
    }
}

impl<T: PartialOrd> PartialOrd for Endpoint<T> {
    fn partial_cmp(&self, other: &Endpoint<T>) -> (r: Option<Ordering>) {
        match self.p.partial_cmp(&other.p) {
            Some(Ordering::Equal) => match (self.left, other.left) {
                (true, true) => match (self.closed, other.closed) {
                    (true, true) | (false, false) => Some(Ordering::Equal),
                    (true, false) => Some(Ordering::Less),
                    (false, true) => Some(Ordering::Greater),
                },
                (true, false) => match (self.closed, other.closed) {
                    (true, true) => Some(Ordering::Equal),
                    _ => Some(Ordering::Greater),
                },
                (false, true) => match (self.closed, other.closed) {
                    (true, true) => Some(Ordering::Equal),
                    _ => Some(Ordering::Less),
                },
                (false, false) => match (self.closed, other.closed) {
                    (true, true) | (false, false) => Some(Ordering::Equal),
                    (true, false) => Some(Ordering::Greater),
                    (false, true) => Some(Ordering::Less),
                },
            },
            x => x,
        }
    }
}

impl<T: PartialOrd> Endpoint<T> {
    /// Total comparison of two endpoints; defined where the points compare.
    pub fn cmp(&self, other: &Self) -> (r: Ordering)
        requires
            T::obeys_partial_cmp_spec(),
            flag_order(*self, *other) is Some,
        ensures
            Some(r) == flag_order(*self, *other),
    {
        match self.partial_cmp(other) {
            Some(o) => o,
            None => Ordering::Equal,
        }
    }
}

impl<U, T: Add<U, Output = T>> AddSpecImpl<U> for Endpoint<T> {
    open spec fn obeys_add_spec() -> bool {
        T::obeys_add_spec()
    }

    open spec fn add_req(self, rhs: U) -> bool {
        self.p.add_req(rhs)
    }

    open spec fn add_spec(self, rhs: U) -> Endpoint<T> {
        Endpoint { p: self.p.add_spec(rhs), left: self.left, closed: self.closed }
    }
}

impl<U, T: Add<U, Output = T>> Add<U> for Endpoint<T> {
    type Output = Endpoint<T>;

    fn add(self, other: U) -> (r: Self::Output) {
        Endpoint { p: self.p + other, left: self.left, closed: self.closed }
    }
}

impl<U, T: Sub<U, Output = T>> SubSpecImpl<U> for Endpoint<T> {
    open spec fn obeys_sub_spec() -> bool {
        T::obeys_sub_spec()
    }

    open spec fn sub_req(self, rhs: U) -> bool {
        self.p.sub_req(rhs)
    }

    open spec fn sub_spec(self, rhs: U) -> Endpoint<T> {
        Endpoint { p: self.p.sub_spec(rhs), left: self.left, closed: self.closed }
    }
}

impl<U, T: Sub<U, Output = T>> Sub<U> for Endpoint<T> {
    type Output = Endpoint<T>;

    fn sub(self, other: U) -> (r: Self::Output) {
        Endpoint { p: self.p - other, left: self.left, closed: self.closed }
    }
}

/// A span whose two ends are each open or closed.
#[derive(Debug, Default, Eq, PartialEq, PartialOrd, Hash, Copy, Clone)]
pub struct Span<T: std::fmt::Display> {
    pub st: Endpoint<T>,
    pub en: Endpoint<T>,
}

/// The smaller of two points, `a` where `b` does not compare.
pub open spec fn flag_min<X: PartialOrd>(a: X, b: X) -> X {
    if b.is_lt(&a) {
        b
    } else {
        a
    }
}

/// The larger of two points, `a` where `b` does not compare.
pub open spec fn flag_max<X: PartialOrd>(a: X, b: X) -> X {
    if b.is_gt(&a) {
        b
    } else {
        a
    }
}

/// Returns |a| if |b| is not comparable.
pub fn pmin<X: PartialOrd + Copy>(a: X, b: X) -> (r: X)
    ensures
        X::obeys_partial_cmp_spec() ==> r == flag_min(a, b),
{
    if b < a {
        b
    } else {
        a
    }
}

/// Returns |a| if |b| is not comparable.
pub fn pmax<X: PartialOrd + Copy>(a: X, b: X) -> (r: X)
    ensures
        X::obeys_partial_cmp_spec() ==> r == flag_max(a, b),
{
    if b > a {
        b
    } else {
        a
    }
}

/// The span holds no point; `[x, x)` counts as empty.
pub open spec fn span_is_empty<T: PartialOrd + std::fmt::Display>(s: Span<T>) -> bool {
    s.st.p.is_gt(&s.en.p) || (s.st.p.is_eq(&s.en.p) && (!s.st.closed || !s.en.closed))
}

/// The span that `cover` builds.
pub open spec fn span_cover<T: PartialOrd + std::fmt::Display>(a: Span<T>, b: Span<T>) -> Span<T> {
    if span_is_empty(a) {
        b
    } else if span_is_empty(b) {
        a
    } else {
        Span { st: flag_min(a.st, b.st), en: flag_max(a.en, b.en) }
    }
}

/// The span that `intersect` builds, before the emptiness check.
pub open spec fn span_meet<T: PartialOrd + std::fmt::Display>(a: Span<T>, b: Span<T>) -> Span<T> {
    Span { st: flag_max(a.st, b.st), en: flag_min(a.en, b.en) }
}

impl<T: PartialOrd + Copy + std::fmt::Display> Span<T> {
    pub fn new(st: Endpoint<T>, en: Endpoint<T>) -> (r: Span<T>)
        ensures
            r == (Span { st, en }),
    {
        Span { st, en }
    }

    /// Exclusive-exclusive.
    pub fn exc_exc(st: T, en: T) -> (r: Self)
        ensures
            r == (Span {
                st: Endpoint { p: st, left: true, closed: false },
                en: Endpoint { p: en, left: false, closed: false },
            }),
    {
        Self {
            st: Endpoint { p: st, left: true, closed: false },
            en: Endpoint { p: en, left: false, closed: false },
        }
    }

    /// Inclusive-exclusive.
    pub fn exc(st: T, en: T) -> (r: Self)
        ensures
            r == (Span {
                st: Endpoint { p: st, left: true, closed: true },
                en: Endpoint { p: en, left: false, closed: false },
            }),
    {
        Self {
            st: Endpoint { p: st, left: true, closed: true },
            en: Endpoint { p: en, left: false, closed: false },
        }
    }

    /// Inclusive-inclusive.
    pub fn inc(st: T, en: T) -> (r: Self)
        ensures
            r == (Span {
                st: Endpoint { p: st, left: true, closed: true },
                en: Endpoint { p: en, left: false, closed: true },
            }),
    {
        Self {
            st: Endpoint { p: st, left: true, closed: true },
            en: Endpoint { p: en, left: false, closed: true },
        }
    }

    pub fn point(p: T) -> (r: Self)
        ensures
            r == (Span {
                st: Endpoint { p, left: true, closed: true },
                en: Endpoint { p, left: false, closed: true },
            }),
    {
        Self { st: Endpoint { p, left: true, closed: true }, en: Endpoint { p, left: false, closed: true } }
    }

    pub fn cover(a: &Self, b: &Self) -> (r: Self)
        ensures
            T::obeys_partial_cmp_spec() && T::obeys_eq_spec() ==> r == span_cover(*a, *b),
    {
        if a.is_empty() {
            *b
        } else if b.is_empty() {
            *a
        } else {
            Span::new(pmin(a.st, b.st), pmax(a.en, b.en))
        }
    }

    pub fn contains(&self, t: T) -> (r: bool)
        ensures
            T::obeys_partial_cmp_spec() ==> r == (self.st.is_le(&t) && self.en.is_ge(&t)),
    {
        self.st <= t && self.en >= t
    }

    pub fn contains_span(&self, s: &Self) -> (r: bool)
        ensures
            T::obeys_partial_cmp_spec() ==> r == (self.st.is_le(&s.st) && self.en.is_ge(&s.en)),
    {
        self.st <= s.st && self.en >= s.en
    }

    pub fn is_empty(&self) -> (r: bool)
        ensures
            T::obeys_partial_cmp_spec() && T::obeys_eq_spec() ==> r == span_is_empty(*self),
    {
        // [x, x) treated as empty.
        self.st.p > self.en.p || (self.st.p == self.en.p && (!self.st.closed || !self.en.closed))
    }

    pub fn intersect(&self, s: &Self) -> (r: Option<Self>)
        ensures
            T::obeys_partial_cmp_spec() && T::obeys_eq_spec() ==> r == (if span_is_empty(
                span_meet(*self, *s),
            ) {
                None
            } else {
                Some(span_meet(*self, *s))
            }),
    {
        let span = Span::new(pmax(self.st, s.st), pmin(self.en, s.en));
        if span.is_empty() {
            None
        } else {
            Some(span)
        }
    }

    pub fn range_ref(&self) -> (r: (Bound<&T>, Bound<&T>))
        ensures
            r.0 == (if self.st.closed {
                Bound::Included(&self.st.p)
            } else {
                Bound::Excluded(&self.st.p)
            }),
            r.1 == (if self.en.closed {
                Bound::Included(&self.en.p)
            } else {
                Bound::Excluded(&self.en.p)
            }),
    {
        (self.st.bound(), self.en.bound())
    }

    pub fn range(&self) -> (r: (Bound<T>, Bound<T>))
        ensures
            r.0 == (if self.st.closed {
                Bound::Included(self.st.p)
            } else {
                Bound::Excluded(self.st.p)
            }),
            r.1 == (if self.en.closed {
                Bound::Included(self.en.p)
            } else {
                Bound::Excluded(self.en.p)
            }),
    {
        let st = if self.st.closed {
            Bound::Included(self.st.p)
        } else {
            Bound::Excluded(self.st.p)
        };
        let en = if self.en.closed {
            Bound::Included(self.en.p)
        } else {
            Bound::Excluded(self.en.p)
        };
        (st, en)
    }
}

impl<T: PartialOrd + Copy + Default + std::fmt::Display> Span<T> {
    pub fn empty() -> (r: Self)
        ensures
            call_ensures(T::default, (), r.st.p),
            call_ensures(T::default, (), r.en.p),
            r.st.left && !r.st.closed && !r.en.left && !r.en.closed,
    {
        Self::exc_exc(T::default(), T::default())
    }
}

} // verus!
