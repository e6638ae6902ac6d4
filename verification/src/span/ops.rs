use vstd::prelude::*;
use vstd::std_specs::cmp::{PartialOrdIs, PartialOrdSpec};

verus! {

/// Returns the smaller of `a` and `b`, or `a` if `b` is not comparable.
pub fn pmin<X: PartialOrd + Copy>(a: &X, b: &X) -> (r: X)
    ensures
        X::obeys_partial_cmp_spec() ==> r == (if b.is_lt(a) { *b } else { *a }),
{
    if *b < *a {
        *b
    } else {
        *a
    }
}

/// Returns the larger of `a` and `b`, or `a` if `b` is not comparable.
pub fn pmax<X: PartialOrd + Copy>(a: &X, b: &X) -> (r: X)
    ensures
        X::obeys_partial_cmp_spec() ==> r == (if b.is_gt(a) { *b } else { *a }),
{
    if *b > *a {
        *b
    } else {
        *a
    }
}

} // verus!

verus! {

/// `T`'s comparison operators follow its `partial_cmp` specification.
pub open spec fn ordered<T: PartialOrd>() -> bool {
    T::obeys_partial_cmp_spec()
}

} // verus!
