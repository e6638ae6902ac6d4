use std::ops::Bound;

use vstd::prelude::*;

use crate::error::Result;
use crate::seq::inner::SeriesInner;
use crate::seq::series::{lemma_push_sorted, sorted_by_key, Series};
use crate::span::any::{any_exc, SpanAny};
use crate::span::endpoint::{EndpointConversion, EndpointSide};
use crate::span::exc::SpanExc;
use crate::span::laws::total_order;

verus! {

/// A span series value sits at the start of its span.
pub open spec fn span_start_key<X, Y>() -> spec_fn((SpanExc<X>, Y)) -> X {
    |v: (SpanExc<X>, Y)| v.0.st
}

/// A span series value sits at the last point of its span: the point before
/// its exclusive end, or the end itself where no point comes before it.
pub open spec fn span_last_key<X: EndpointConversion, Y>() -> spec_fn((SpanExc<X>, Y)) -> X {
    |v: (SpanExc<X>, Y)|
        match v.0.en.closed_value(EndpointSide::Right) {
            Some(e) => e,
            None => v.0.en,
        }
}

/// A span series value takes up its span `[st, en)`.
pub open spec fn span_extent<X, Y>() -> spec_fn((SpanExc<X>, Y)) -> SpanAny<X> {
    |v: (SpanExc<X>, Y)| any_exc(v.0.st, v.0.en)
}

/// A series of `(span, y)` pairs kept in order of the start of the span.
#[derive(Debug, Eq, PartialEq, PartialOrd, Hash)]
pub struct SpanExcSeries<X: PartialOrd + Copy, Y: Copy> where (SpanExc<X>, Y): Copy {
    inner: SeriesInner<(SpanExc<X>, Y)>,
}

impl<X: PartialOrd + Copy, Y: Copy> SpanExcSeries<X, Y> where (SpanExc<X>, Y): Copy {
    #[verifier::type_invariant]
    spec fn inv(self) -> bool {
        &&& self.inner.wf()
        &&& total_order::<X>() ==> sorted_by_key(self.inner@, span_start_key::<X, Y>())
    }

    pub fn new() -> (r: Self)
        ensures
            r.values() == Seq::<(SpanExc<X>, Y)>::empty(),
    {
        Self { inner: SeriesInner::empty() }
    }
}

impl<X: PartialOrd + Copy, Y: Copy> Series for SpanExcSeries<X, Y> where (SpanExc<X>, Y): Copy {
    type X = X;
    type Y = Y;
    type V = (SpanExc<X>, Y);

    open spec fn key_of() -> spec_fn((SpanExc<X>, Y)) -> X {
        span_start_key::<X, Y>()
    }

    open spec fn extent_of() -> spec_fn((SpanExc<X>, Y)) -> SpanAny<X> {
        span_extent::<X, Y>()
    }

    open spec fn value_of(v: (SpanExc<X>, Y)) -> Y {
        v.1
    }

    closed spec fn values(&self) -> Seq<(SpanExc<X>, Y)> {
        self.inner@
    }

    fn inner(&self) -> (r: &SeriesInner<(SpanExc<X>, Y)>) {
        proof {
            use_type_invariant(self);
        }
        &self.inner
    }

    fn make_from_inner(&self, inner: SeriesInner<(SpanExc<X>, Y)>) -> (r: Self) {
        Self { inner }
    }

    fn x(v: &(SpanExc<X>, Y)) -> (r: X) {
        v.0.st
    }

    fn y(v: &(SpanExc<X>, Y)) -> (r: &Y) {
        &v.1
    }

    fn span_of(v: &(SpanExc<X>, Y)) -> (r: SpanAny<X>) {
        v.0.to_any()
    }

    fn push(&mut self, elt: (SpanExc<X>, Y)) -> (r: Result<()>) {
        proof {
            use_type_invariant(&*self);
        }
        let pos = self.upper_bound_count(elt.0.st);
        let mut inner = SeriesInner::empty();
        std::mem::swap(&mut inner, &mut self.inner);
        proof {
            if total_order::<X>() {
                lemma_push_sorted(inner@, elt, Self::key_of(), Self::extent_of());
            }
        }
        inner.insert(pos, elt);
        self.inner = inner;
        Ok(())
    }
}

impl<X: PartialOrd + Copy, Y: Copy> Clone for SpanExcSeries<X, Y> where (SpanExc<X>, Y): Copy {
    fn clone(&self) -> (r: Self)
        ensures
            r.values() == self.values(),
    {
        proof {
            use_type_invariant(self);
            self.inner.lemma_view();
        }
        Self { inner: self.inner.subseq((Bound::Unbounded, Bound::Unbounded)) }
    }
}

impl<X: PartialOrd + Copy, Y: Copy> Default for SpanExcSeries<X, Y> where (SpanExc<X>, Y): Copy {
    fn default() -> (r: Self)
        ensures
            r.values() == Seq::<(SpanExc<X>, Y)>::empty(),
    {
        Self::new()
    }
}

/// A series of `(span, y)` pairs kept in order of the last point of the span.
#[derive(Debug, Eq, PartialEq, PartialOrd, Hash)]
pub struct SpanExcSeriesRight<X: PartialOrd + Copy + EndpointConversion, Y: Copy> where
    (SpanExc<X>, Y): Copy,
 {
    inner: SeriesInner<(SpanExc<X>, Y)>,
}

impl<X: PartialOrd + Copy + EndpointConversion, Y: Copy> SpanExcSeriesRight<X, Y> where
    (SpanExc<X>, Y): Copy,
 {
    #[verifier::type_invariant]
    spec fn inv(self) -> bool {
        &&& self.inner.wf()
        &&& total_order::<X>() ==> sorted_by_key(self.inner@, span_last_key::<X, Y>())
    }

    pub fn new() -> (r: Self)
        ensures
            r.values() == Seq::<(SpanExc<X>, Y)>::empty(),
    {
        Self { inner: SeriesInner::empty() }
    }
}

impl<X: PartialOrd + Copy + EndpointConversion, Y: Copy> Series for SpanExcSeriesRight<X, Y> where
    (SpanExc<X>, Y): Copy,
 {
    type X = X;
    type Y = Y;
    type V = (SpanExc<X>, Y);

    open spec fn key_of() -> spec_fn((SpanExc<X>, Y)) -> X {
        span_last_key::<X, Y>()
    }

    open spec fn extent_of() -> spec_fn((SpanExc<X>, Y)) -> SpanAny<X> {
        span_extent::<X, Y>()
    }

    open spec fn value_of(v: (SpanExc<X>, Y)) -> Y {
        v.1
    }

    closed spec fn values(&self) -> Seq<(SpanExc<X>, Y)> {
        self.inner@
    }

    fn inner(&self) -> (r: &SeriesInner<(SpanExc<X>, Y)>) {
        proof {
            use_type_invariant(self);
        }
        &self.inner
    }

    fn make_from_inner(&self, inner: SeriesInner<(SpanExc<X>, Y)>) -> (r: Self) {
        Self { inner }
    }

    fn x(v: &(SpanExc<X>, Y)) -> (r: X) {
        match v.0.to_inc() {
            Some(s) => s.en,
            None => v.0.en,
        }
    }

    fn y(v: &(SpanExc<X>, Y)) -> (r: &Y) {
        &v.1
    }

    fn span_of(v: &(SpanExc<X>, Y)) -> (r: SpanAny<X>) {
        v.0.to_any()
    }

    fn push(&mut self, elt: (SpanExc<X>, Y)) -> (r: Result<()>) {
        proof {
            use_type_invariant(&*self);
        }
        let pos = self.upper_bound_count(Self::x(&elt));
        let mut inner = SeriesInner::empty();
        std::mem::swap(&mut inner, &mut self.inner);
        proof {
            if total_order::<X>() {
                lemma_push_sorted(inner@, elt, Self::key_of(), Self::extent_of());
            }
        }
        inner.insert(pos, elt);
        self.inner = inner;
        Ok(())
    }
}

impl<X: PartialOrd + Copy + EndpointConversion, Y: Copy> Clone for SpanExcSeriesRight<X, Y> where
    (SpanExc<X>, Y): Copy,
 {
    fn clone(&self) -> (r: Self)
        ensures
            r.values() == self.values(),
    {
        proof {
            use_type_invariant(self);
            self.inner.lemma_view();
        }
        Self { inner: self.inner.subseq((Bound::Unbounded, Bound::Unbounded)) }
    }
}

impl<X: PartialOrd + Copy + EndpointConversion, Y: Copy> Default for SpanExcSeriesRight<X, Y> where
    (SpanExc<X>, Y): Copy,
 {
    fn default() -> (r: Self)
        ensures
            r.values() == Seq::<(SpanExc<X>, Y)>::empty(),
    {
        Self::new()
    }
}

} // verus!
