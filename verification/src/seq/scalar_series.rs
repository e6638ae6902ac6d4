use std::ops::Bound;

use vstd::prelude::*;

use crate::error::Result;
use crate::seq::inner::SeriesInner;
use crate::seq::series::{lemma_push_sorted, sorted_by_key, Series};
use crate::span::any::{any_inc, SpanAny};
use crate::span::laws::total_order;

verus! {

/// The X a scalar series value sits at: its first component.
pub open spec fn scalar_key<X, Y>() -> spec_fn((X, Y)) -> X {
    |v: (X, Y)| v.0
}

/// The span a scalar series value takes up: the single point at its X.
pub open spec fn scalar_extent<X, Y>() -> spec_fn((X, Y)) -> SpanAny<X> {
    |v: (X, Y)| any_inc(v.0, v.0)
}

/// A series of `(x, y)` pairs kept in order of `x`; it may hold several pairs
/// with the same `x`, in the order they were pushed.
#[derive(Debug, Eq, PartialEq, PartialOrd, Hash)]
pub struct ScalarSeries<X: PartialOrd + Copy, Y: Copy> where (X, Y): Copy {
    inner: SeriesInner<(X, Y)>,
}

impl<X: PartialOrd + Copy, Y: Copy> ScalarSeries<X, Y> where (X, Y): Copy {
    #[verifier::type_invariant]
    spec fn inv(self) -> bool {
        &&& self.inner.wf()
        &&& total_order::<X>() ==> sorted_by_key(self.inner@, scalar_key::<X, Y>())
    }

    pub fn new() -> (r: Self)
        ensures
            r.values() == Seq::<(X, Y)>::empty(),
    {
        Self { inner: SeriesInner::empty() }
    }
}

impl<X: PartialOrd + Copy, Y: Copy> Series for ScalarSeries<X, Y> where (X, Y): Copy {
    type X = X;
    type Y = Y;
    type V = (X, Y);

    open spec fn key_of() -> spec_fn((X, Y)) -> X {
        scalar_key::<X, Y>()
    }

    open spec fn extent_of() -> spec_fn((X, Y)) -> SpanAny<X> {
        scalar_extent::<X, Y>()
    }

    open spec fn value_of(v: (X, Y)) -> Y {
        v.1
    }

    closed spec fn values(&self) -> Seq<(X, Y)> {
        self.inner@
    }

    fn inner(&self) -> (r: &SeriesInner<(X, Y)>) {
        proof {
            use_type_invariant(self);
        }
        &self.inner
    }

    fn make_from_inner(&self, inner: SeriesInner<(X, Y)>) -> (r: Self) {
        Self { inner }
    }

    fn x(v: &(X, Y)) -> (r: X) {
        v.0
    }

    fn y(v: &(X, Y)) -> (r: &Y) {
        &v.1
    }

    fn span_of(v: &(X, Y)) -> (r: SpanAny<X>) {
        SpanAny::point(v.0)
    }

    fn push(&mut self, elt: (X, Y)) -> (r: Result<()>) {
        proof {
            use_type_invariant(&*self);
        }
        let pos = self.upper_bound_count(elt.0);
        let mut inner = SeriesInner::empty();
        std::mem::swap(&mut inner, &mut self.inner);
        proof {
            if total_order::<X>() {
                lemma_push_sorted(inner@, elt, Self::key_of(), Self::extent_of());
            }
        }
        inner.insert(pos, elt);
        self.inner = inner;
        Ok(())
    }
}

impl<X: PartialOrd + Copy, Y: Copy> Clone for ScalarSeries<X, Y> where (X, Y): Copy {
    fn clone(&self) -> (r: Self)
        ensures
            r.values() == self.values(),
    {
        proof {
            use_type_invariant(self);
            self.inner.lemma_view();
        }
        Self { inner: self.inner.subseq((Bound::Unbounded, Bound::Unbounded)) }
    }
}

impl<X: PartialOrd + Copy, Y: Copy> Default for ScalarSeries<X, Y> where (X, Y): Copy {
    fn default() -> (r: Self)
        ensures
            r.values() == Seq::<(X, Y)>::empty(),
    {
        Self::new()
    }
}

} // verus!
