use std::cmp::Ordering;
use std::ops::{Add, Div, Mul, Sub};

use rust_decimal::Decimal;
use vstd::prelude::*;
use vstd::std_specs::cmp::PartialOrdSpecImpl;
use vstd::std_specs::ops::{AddSpecImpl, DivSpecImpl, MulSpecImpl, SubSpecImpl};

use crate::duration::{
    dec_add, dec_div, dec_mul, dec_normalize, dec_ok, dec_order, dec_sub, dec_to_i64, dec_to_u64,
    dec_trunc,
    decimal_difference, decimal_from_parts, decimal_of, decimal_parts, decimal_parts_of,
    decimal_product, decimal_quotient, decimal_sum, duration_of, duration_order,
    lemma_duration_is_of_view, normal_form, normalized, ulp, Duration,
};
use crate::fixed_freq::{fixed_freq_of, FixedFreq};
use crate::span::endpoint::{EndpointConversion, EndpointSide};

verus! {

/// A number of occurrences of something, held as the parts of a decimal
/// number in normal form.
#[derive(Debug, Eq, PartialEq, Structural, Hash, Copy, Clone)]
pub struct Cycles {
    m: i128,
    s: u32,
}

impl View for Cycles {
    type V = (i128, u32);

    /// The parts of the count.
    closed spec fn view(&self) -> (i128, u32) {
        (self.m, self.s)
    }
}

/// The cycles whose count has the given parts.
pub closed spec fn cycles_of(v: (i128, u32)) -> Cycles {
    Cycles { m: v.0, s: v.1 }
}

/// The view of the cycles of some parts is those parts, and cycles are the
/// cycles of their view.
pub proof fn lemma_cycles_of(c: Cycles, v: (i128, u32))
    ensures
        cycles_of(v)@ == v,
        c == cycles_of(c@),
{
}

/// The cycles of the decimal number with parts `v`, in normal form.
pub open spec fn cycles_normal(v: Option<(i128, u32)>) -> Cycles {
    cycles_of(normal_form(v.unwrap()))
}

impl Cycles {
    #[verifier::type_invariant]
    spec fn inv(self) -> bool {
        dec_ok((self.m, self.s)) && normalized((self.m, self.s))
    }

    /// The cycles with the count of the given parts, in normal form.
    pub(crate) fn from_parts(v: (i128, u32)) -> (r: Self)
        requires
            dec_ok(v),
        ensures
            r@ == normal_form(v),
            r == cycles_of(normal_form(v)),
            dec_ok(r@),
            normalized(r@),
    {
        let (m, s) = dec_normalize(v);
        Self { m, s }
    }

    /// The parts of the count.
    pub fn count_parts(&self) -> (r: (i128, u32))
        ensures
            r == self@,
            dec_ok(r),
            normalized(r),
    {
        proof {
            use_type_invariant(self);
        }
        (self.m, self.s)
    }

    /// `count` occurrences.
    pub fn new(count: Decimal) -> (r: Self)
        ensures
            r@ == normal_form(decimal_parts_of(count)),
    {
        Self::from_parts(decimal_parts(&count))
    }

    /// No occurrence.
    pub fn zero() -> (r: Self)
        ensures
            r@ == (0i128, 0u32),
    {
        Self { m: 0, s: 0 }
    }

    /// One occurrence.
    pub fn one() -> (r: Self)
        ensures
            r@ == (1i128, 0u32),
    {
        Self { m: 1, s: 0 }
    }

    /// The number of occurrences.
    pub fn count(self) -> (r: Decimal)
        ensures
            r == decimal_from_parts(self@),
    {
        decimal_of(self.count_parts())
    }

    /// `count` occurrences.
    pub fn from_count(count: i64) -> (r: Self)
        ensures
            r@ == (count as i128, 0u32),
    {
        Self { m: count as i128, s: 0 }
    }

    /// The count's integer part, rounded toward zero, where it fits an `i64`.
    pub fn to_i64(&self) -> (r: Option<i64>)
        ensures
            r == (if i64::MIN <= dec_trunc(self@).0 <= i64::MAX {
                Some(dec_trunc(self@).0 as i64)
            } else {
                None::<i64>
            }),
    {
        dec_to_i64(self.count_parts())
    }

    /// The count's integer part where the count is not negative and the part
    /// fits a `u64`.
    pub fn to_u64(&self) -> (r: Option<u64>)
        ensures
            r == (if 0 <= self@.0 && dec_trunc(self@).0 <= u64::MAX {
                Some(dec_trunc(self@).0 as u64)
            } else {
                None::<u64>
            }),
    {
        dec_to_u64(self.count_parts())
    }
}

impl AddSpecImpl for Cycles {
    open spec fn obeys_add_spec() -> bool {
        true
    }

    open spec fn add_req(self, rhs: Cycles) -> bool {
        decimal_sum(self@, rhs@) is Some
    }

    open spec fn add_spec(self, rhs: Cycles) -> Cycles {
        cycles_normal(decimal_sum(self@, rhs@))
    }
}

impl Add for Cycles {
    type Output = Cycles;

    fn add(self, rhs: Cycles) -> (r: Cycles) {
        Cycles::from_parts(dec_add(self.count_parts(), rhs.count_parts()).unwrap())
    }
}

impl SubSpecImpl for Cycles {
    open spec fn obeys_sub_spec() -> bool {
        true
    }

    open spec fn sub_req(self, rhs: Cycles) -> bool {
        decimal_difference(self@, rhs@) is Some
    }

    open spec fn sub_spec(self, rhs: Cycles) -> Cycles {
        cycles_normal(decimal_difference(self@, rhs@))
    }
}

impl Sub for Cycles {
    type Output = Cycles;

    fn sub(self, rhs: Cycles) -> (r: Cycles) {
        Cycles::from_parts(dec_sub(self.count_parts(), rhs.count_parts()).unwrap())
    }
}

impl DivSpecImpl for Cycles {
    open spec fn obeys_div_spec() -> bool {
        true
    }

    open spec fn div_req(self, rhs: Cycles) -> bool {
        decimal_quotient(self@, rhs@) is Some
    }

    open spec fn div_spec(self, rhs: Cycles) -> Decimal {
        decimal_from_parts(decimal_quotient(self@, rhs@).unwrap())
    }
}

impl Div for Cycles {
    type Output = Decimal;

    /// The ratio of the counts.
    fn div(self, rhs: Cycles) -> (r: Decimal) {
        decimal_of(dec_div(self.count_parts(), rhs.count_parts()).unwrap())
    }
}

impl MulSpecImpl<i64> for Cycles {
    open spec fn obeys_mul_spec() -> bool {
        true
    }

    open spec fn mul_req(self, rhs: i64) -> bool {
        decimal_product(self@, (rhs as i128, 0u32)) is Some
    }

    open spec fn mul_spec(self, rhs: i64) -> Cycles {
        cycles_normal(decimal_product(self@, (rhs as i128, 0u32)))
    }
}

impl Mul<i64> for Cycles {
    type Output = Cycles;

    fn mul(self, rhs: i64) -> (r: Cycles) {
        Cycles::from_parts(dec_mul(self.count_parts(), (rhs as i128, 0)).unwrap())
    }
}

impl MulSpecImpl<Cycles> for i64 {
    open spec fn obeys_mul_spec() -> bool {
        true
    }

    open spec fn mul_req(self, rhs: Cycles) -> bool {
        decimal_product(rhs@, (self as i128, 0u32)) is Some
    }

    open spec fn mul_spec(self, rhs: Cycles) -> Cycles {
        cycles_normal(decimal_product(rhs@, (self as i128, 0u32)))
    }
}

impl Mul<Cycles> for i64 {
    type Output = Cycles;

    fn mul(self, rhs: Cycles) -> (r: Cycles) {
        rhs * self
    }
}

impl DivSpecImpl<i64> for Cycles {
    open spec fn obeys_div_spec() -> bool {
        true
    }

    open spec fn div_req(self, rhs: i64) -> bool {
        decimal_quotient(self@, (rhs as i128, 0u32)) is Some
    }

    open spec fn div_spec(self, rhs: i64) -> Cycles {
        cycles_normal(decimal_quotient(self@, (rhs as i128, 0u32)))
    }
}

impl Div<i64> for Cycles {
    type Output = Cycles;

    fn div(self, rhs: i64) -> (r: Cycles) {
        Cycles::from_parts(dec_div(self.count_parts(), (rhs as i128, 0)).unwrap())
    }
}

impl MulSpecImpl<Decimal> for Cycles {
    open spec fn obeys_mul_spec() -> bool {
        true
    }

    open spec fn mul_req(self, rhs: Decimal) -> bool {
        decimal_product(self@, decimal_parts_of(rhs)) is Some
    }

    open spec fn mul_spec(self, rhs: Decimal) -> Cycles {
        cycles_normal(decimal_product(self@, decimal_parts_of(rhs)))
    }
}

impl Mul<Decimal> for Cycles {
    type Output = Cycles;

    fn mul(self, rhs: Decimal) -> (r: Cycles) {
        Cycles::from_parts(dec_mul(self.count_parts(), decimal_parts(&rhs)).unwrap())
    }
}

impl MulSpecImpl<Cycles> for Decimal {
    open spec fn obeys_mul_spec() -> bool {
        true
    }

    open spec fn mul_req(self, rhs: Cycles) -> bool {
        decimal_product(rhs@, decimal_parts_of(self)) is Some
    }

    open spec fn mul_spec(self, rhs: Cycles) -> Cycles {
        cycles_normal(decimal_product(rhs@, decimal_parts_of(self)))
    }
}

impl Mul<Cycles> for Decimal {
    type Output = Cycles;

    fn mul(self, rhs: Cycles) -> (r: Cycles) {
        rhs * self
    }
}

impl DivSpecImpl<Decimal> for Cycles {
    open spec fn obeys_div_spec() -> bool {
        true
    }

    open spec fn div_req(self, rhs: Decimal) -> bool {
        decimal_quotient(self@, decimal_parts_of(rhs)) is Some
    }

    open spec fn div_spec(self, rhs: Decimal) -> Cycles {
        cycles_normal(decimal_quotient(self@, decimal_parts_of(rhs)))
    }
}

impl Div<Decimal> for Cycles {
    type Output = Cycles;

    fn div(self, rhs: Decimal) -> (r: Cycles) {
        Cycles::from_parts(dec_div(self.count_parts(), decimal_parts(&rhs)).unwrap())
    }
}

impl MulSpecImpl<Duration> for Cycles {
    open spec fn obeys_mul_spec() -> bool {
        true
    }

    open spec fn mul_req(self, rhs: Duration) -> bool {
        decimal_product(rhs@, self@) is Some
    }

    open spec fn mul_spec(self, rhs: Duration) -> Duration {
        duration_of(normal_form(decimal_product(rhs@, self@).unwrap()))
    }
}

impl Mul<Duration> for Cycles {
    type Output = Duration;

    /// The duration `rhs` taken this many times.
    fn mul(self, rhs: Duration) -> (r: Duration) {
        let r = Duration::from_parts(dec_mul(rhs.parts(), self.count_parts()).unwrap());
        proof {
            lemma_duration_is_of_view(r);
        }
        r
    }
}

impl MulSpecImpl<Cycles> for Duration {
    open spec fn obeys_mul_spec() -> bool {
        true
    }

    open spec fn mul_req(self, rhs: Cycles) -> bool {
        decimal_product(self@, rhs@) is Some
    }

    open spec fn mul_spec(self, rhs: Cycles) -> Duration {
        duration_of(normal_form(decimal_product(self@, rhs@).unwrap()))
    }
}

impl Mul<Cycles> for Duration {
    type Output = Duration;

    fn mul(self, rhs: Cycles) -> (r: Duration) {
        rhs * self
    }
}

impl DivSpecImpl<Duration> for Cycles {
    open spec fn obeys_div_spec() -> bool {
        true
    }

    /// A frequency needs a nonzero count and a nonzero duration.
    open spec fn div_req(self, rhs: Duration) -> bool {
        self@.0 != 0 && rhs@.0 != 0
    }

    open spec fn div_spec(self, rhs: Duration) -> FixedFreq {
        fixed_freq_of(self@, rhs@)
    }
}

impl Div<Duration> for Cycles {
    type Output = FixedFreq;

    /// The frequency of this many cycles per `rhs`.
    fn div(self, rhs: Duration) -> (r: FixedFreq) {
        FixedFreq::new(self, rhs)
    }
}

impl PartialOrdSpecImpl for Cycles {
    open spec fn obeys_partial_cmp_spec() -> bool {
        true
    }

    /// Cycles compare by their counts' values.
    open spec fn partial_cmp_spec(&self, other: &Self) -> Option<Ordering> {
        Some(duration_order(self@, other@))
    }
}

impl PartialOrd for Cycles {
    fn partial_cmp(&self, other: &Self) -> (r: Option<Ordering>) {
        let o = dec_order(self.count_parts(), other.count_parts());
        Some(o)
    }
}

impl EndpointConversion for Cycles {
    /// An open endpoint one step of 10^-28 before (on the left) or after (on
    /// the right) holds the same counts as a closed one here.
    open spec fn open_value(&self, side: EndpointSide) -> Option<Self> {
        match side {
            EndpointSide::Left => match decimal_difference(self@, ulp()) {
                Some(v) => Some(cycles_of(normal_form(v))),
                None => None,
            },
            EndpointSide::Right => match decimal_sum(self@, ulp()) {
                Some(v) => Some(cycles_of(normal_form(v))),
                None => None,
            },
        }
    }

    /// A closed endpoint one step of 10^-28 after (on the left) or before (on
    /// the right) holds the same counts as an open one here.
    open spec fn closed_value(&self, side: EndpointSide) -> Option<Self> {
        match side {
            EndpointSide::Left => match decimal_sum(self@, ulp()) {
                Some(v) => Some(cycles_of(normal_form(v))),
                None => None,
            },
            EndpointSide::Right => match decimal_difference(self@, ulp()) {
                Some(v) => Some(cycles_of(normal_form(v))),
                None => None,
            },
        }
    }

    fn to_open(&self, side: EndpointSide) -> (r: Option<Self>) {
        let v = match side {
            EndpointSide::Left => dec_sub(self.count_parts(), (1, 28)),
            EndpointSide::Right => dec_add(self.count_parts(), (1, 28)),
        };
        match v {
            Some(v) => Some(Cycles::from_parts(v)),
            None => None,
        }
    }

    fn to_closed(&self, side: EndpointSide) -> (r: Option<Self>) {
        let v = match side {
            EndpointSide::Left => dec_add(self.count_parts(), (1, 28)),
            EndpointSide::Right => dec_sub(self.count_parts(), (1, 28)),
        };
        match v {
            Some(v) => Some(Cycles::from_parts(v)),
            None => None,
        }
    }
}

} // verus!
