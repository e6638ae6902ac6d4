use vstd::prelude::*;

use crate::seq::scalar_series::ScalarSeries;
use crate::time::Time;

verus! {

/// A series of values at times, kept in time order; several values may
/// share a time, in the order they were pushed.
pub type TimeSeries<Y> = ScalarSeries<Time, Y>;

} // verus!
