use vstd::prelude::*;

verus! {

/// Number of occurrences of something.
#[derive(Debug, Eq, PartialEq, Structural, Hash, Copy, Clone, Ord, PartialOrd)]
pub struct Cycle(pub i64);

} // verus!
