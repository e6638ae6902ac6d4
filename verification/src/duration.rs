use std::cmp::Ordering;
use std::fmt::Write;
use std::ops::{Add, Div, Mul, Neg, Sub};
use std::str::FromStr;

use rust_decimal::prelude::ToPrimitive;
use rust_decimal::Decimal;
use vstd::prelude::*;
use vstd::std_specs::cmp::{PartialOrdSpec, PartialOrdSpecImpl};
use vstd::std_specs::ops::{AddSpecImpl, DivSpecImpl, MulSpecImpl, NegSpecImpl, SubSpecImpl};
use vstd::string::{StringExecFns, StringSliceAdditionalSpecFns};

use crate::error::{Error, Result};
use crate::parse::is_digit;
use crate::span::endpoint::{EndpointConversion, EndpointSide};

verus! {

/// `rust_decimal::Decimal`, a decimal number: a mantissa of at most 96 bits
/// and a scale of at most 28 decimal places.
#[verifier::external_type_specification]
#[verifier::external_body]
pub struct ExDecimal(Decimal);

/// The largest mantissa a decimal number holds: 2^96 - 1.
pub const MAX_MANTISSA: i128 = 79228162514264337593543950335i128;

/// The largest scale a decimal number has.
pub const MAX_SCALE: u32 = 28u32;

/// The parts `(mantissa, scale)` of a decimal number, whose value is
/// `mantissa / 10^scale`.
pub open spec fn dec_ok(v: (i128, u32)) -> bool {
    -MAX_MANTISSA <= v.0 <= MAX_MANTISSA && v.1 <= MAX_SCALE
}

/// Ten to the power `n`.
pub open spec fn pow10(n: nat) -> int
    decreases n,
{
    if n == 0 {
        1
    } else {
        10 * pow10((n - 1) as nat)
    }
}

/// The parts hold no trailing zero in their fractional digits.
pub open spec fn normalized(v: (i128, u32)) -> bool {
    v.1 == 0 || v.0 % 10 != 0
}

/// The parts of the same value without trailing zeros in the fraction.
pub open spec fn normal_form(v: (i128, u32)) -> (i128, u32)
    decreases v.1,
{
    if v.1 > 0 && v.0 % 10 == 0 {
        normal_form(((v.0 / 10) as i128, (v.1 - 1) as u32))
    } else {
        v
    }
}

/// Two decimal numbers have the same value.
pub open spec fn dec_same(a: (i128, u32), b: (i128, u32)) -> bool {
    a.0 * pow10(b.1 as nat) == b.0 * pow10(a.1 as nat)
}

/// Decimal number `a` has a smaller value than `b`.
pub open spec fn dec_less(a: (i128, u32), b: (i128, u32)) -> bool {
    a.0 * pow10(b.1 as nat) < b.0 * pow10(a.1 as nat)
}

/// The integer part of a decimal number, rounded toward zero.
pub open spec fn dec_trunc(v: (i128, u32)) -> (i128, u32) {
    let p = pow10(v.1 as nat);
    let m = v.0 as int;
    ((if m >= 0 {
        m / p
    } else {
        -((-m) / p)
    }) as i128, 0u32)
}

/// What `Decimal::checked_add` gives for two decimal numbers.
pub uninterp spec fn decimal_sum(a: (i128, u32), b: (i128, u32)) -> Option<(i128, u32)>;

/// What `Decimal::checked_sub` gives for two decimal numbers.
pub uninterp spec fn decimal_difference(a: (i128, u32), b: (i128, u32)) -> Option<(i128, u32)>;

/// What `Decimal::checked_mul` gives for two decimal numbers.
pub uninterp spec fn decimal_product(a: (i128, u32), b: (i128, u32)) -> Option<(i128, u32)>;

/// What `Decimal::checked_div` gives for two decimal numbers.
pub uninterp spec fn decimal_quotient(a: (i128, u32), b: (i128, u32)) -> Option<(i128, u32)>;

/// The decimal digit `d`.
pub open spec fn digit_char(d: int) -> char {
    (48 + d) as char
}

/// The decimal digits of `n`, without leading zeros ("0" for zero).
pub open spec fn digits_of(n: nat) -> Seq<char>
    decreases n,
{
    if n < 10 {
        seq![digit_char(n as int)]
    } else {
        digits_of(n / 10).push(digit_char((n % 10) as int))
    }
}

/// What `Decimal`'s `Display` writes for the decimal number with mantissa
/// `a.0` and scale `a.1`: a minus sign where the mantissa is negative, then
/// the digits of its magnitude, padded with zeros in front to more digits
/// than the scale, with a point before the last `a.1` of them.
pub open spec fn decimal_text(a: (i128, u32)) -> Seq<char> {
    let mag: int = if a.0 < 0 {
        -a.0
    } else {
        a.0 as int
    };
    let ds = digits_of(mag as nat);
    let padded = if ds.len() < a.1 + 1 {
        Seq::new((a.1 + 1 - ds.len()) as nat, |i: int| '0') + ds
    } else {
        ds
    };
    let cut = padded.len() - a.1;
    let body = if a.1 == 0 {
        padded
    } else {
        padded.subrange(0, cut) + seq!['.'] + padded.subrange(cut, padded.len() as int)
    };
    if a.0 < 0 {
        seq!['-'] + body
    } else {
        body
    }
}

/// A named decimal result brought to its normal form.
pub open spec fn normal_opt(v: Option<(i128, u32)>) -> Option<(i128, u32)> {
    match v {
        Some(p) => Some(normal_form(p)),
        None => None,
    }
}

/// The parts `(mantissa, scale)` that `Decimal::mantissa` and
/// `Decimal::scale` give for `d`.
pub uninterp spec fn decimal_parts_of(d: Decimal) -> (i128, u32);

/// The `Decimal` that `Decimal::from_i128_with_scale` makes of the parts `v`.
pub uninterp spec fn decimal_from_parts(v: (i128, u32)) -> Decimal;

/// The parts of a `Decimal`.
#[verifier::external_body]
pub(crate) fn decimal_parts(d: &Decimal) -> (r: (i128, u32))
    ensures
        r == decimal_parts_of(*d),
        dec_ok(r),
{
    (d.mantissa(), d.scale())
}

/// The `Decimal` with the given parts.
#[verifier::external_body]
pub(crate) fn decimal_of(v: (i128, u32)) -> (r: Decimal)
    requires
        dec_ok(v),
    ensures
        r == decimal_from_parts(v),
{
    Decimal::from_i128_with_scale(v.0, v.1)
}

/// `Decimal::checked_add`.
#[verifier::external_body]
pub(crate) fn dec_add(a: (i128, u32), b: (i128, u32)) -> (r: Option<(i128, u32)>)
    requires
        dec_ok(a),
        dec_ok(b),
    ensures
        r == decimal_sum(a, b),
        r matches Some(v) ==> dec_ok(v),
{
    match Decimal::from_i128_with_scale(a.0, a.1).checked_add(
        Decimal::from_i128_with_scale(b.0, b.1),
    ) {
        Some(d) => Some((d.mantissa(), d.scale())),
        None => None,
    }
}

/// `Decimal::checked_sub`.
#[verifier::external_body]
pub(crate) fn dec_sub(a: (i128, u32), b: (i128, u32)) -> (r: Option<(i128, u32)>)
    requires
        dec_ok(a),
        dec_ok(b),
    ensures
        r == decimal_difference(a, b),
        r matches Some(v) ==> dec_ok(v),
{
    match Decimal::from_i128_with_scale(a.0, a.1).checked_sub(
        Decimal::from_i128_with_scale(b.0, b.1),
    ) {
        Some(d) => Some((d.mantissa(), d.scale())),
        None => None,
    }
}

/// `Decimal::checked_mul`.
#[verifier::external_body]
pub(crate) fn dec_mul(a: (i128, u32), b: (i128, u32)) -> (r: Option<(i128, u32)>)
    requires
        dec_ok(a),
        dec_ok(b),
    ensures
        r == decimal_product(a, b),
        r matches Some(v) ==> dec_ok(v),
{
    match Decimal::from_i128_with_scale(a.0, a.1).checked_mul(
        Decimal::from_i128_with_scale(b.0, b.1),
    ) {
        Some(d) => Some((d.mantissa(), d.scale())),
        None => None,
    }
}

/// `Decimal::checked_div`: `None` where the divisor is zero or the quotient
/// overflows.
#[verifier::external_body]
pub(crate) fn dec_div(a: (i128, u32), b: (i128, u32)) -> (r: Option<(i128, u32)>)
    requires
        dec_ok(a),
        dec_ok(b),
    ensures
        r == decimal_quotient(a, b),
        r matches Some(v) ==> dec_ok(v),
        b.0 == 0 ==> r is None,
{
    match Decimal::from_i128_with_scale(a.0, a.1).checked_div(
        Decimal::from_i128_with_scale(b.0, b.1),
    ) {
        Some(d) => Some((d.mantissa(), d.scale())),
        None => None,
    }
}

/// `Decimal::trunc`: the integer part, rounded toward zero, at scale 0.
#[verifier::external_body]
pub(crate) fn dec_truncate(a: (i128, u32)) -> (r: (i128, u32))
    requires
        dec_ok(a),
    ensures
        r == dec_trunc(a),
        dec_ok(r),
{
    let d = Decimal::from_i128_with_scale(a.0, a.1).trunc();
    (d.mantissa(), d.scale())
}

/// `Decimal::normalize`: the same value without trailing zeros in the
/// fraction.
#[verifier::external_body]
pub(crate) fn dec_normalize(a: (i128, u32)) -> (r: (i128, u32))
    requires
        dec_ok(a),
    ensures
        r == normal_form(a),
        dec_ok(r),
        normalized(r),
{
    let d = Decimal::from_i128_with_scale(a.0, a.1).normalize();
    (d.mantissa(), d.scale())
}

/// `Decimal`'s comparison, which goes by value.
#[verifier::external_body]
pub(crate) fn dec_order(a: (i128, u32), b: (i128, u32)) -> (r: Ordering)
    requires
        dec_ok(a),
        dec_ok(b),
    ensures
        (r == Ordering::Less) == dec_less(a, b),
        (r == Ordering::Equal) == dec_same(a, b),
        (r == Ordering::Greater) == dec_less(b, a),
{
    Decimal::from_i128_with_scale(a.0, a.1).cmp(&Decimal::from_i128_with_scale(b.0, b.1))
}

/// `ToPrimitive::to_i64` on a `Decimal`: its integer part, rounded toward
/// zero, where that fits an `i64`.
#[verifier::external_body]
pub(crate) fn dec_to_i64(v: (i128, u32)) -> (r: Option<i64>)
    requires
        dec_ok(v),
    ensures
        r == (if i64::MIN <= dec_trunc(v).0 <= i64::MAX {
            Some(dec_trunc(v).0 as i64)
        } else {
            None::<i64>
        }),
{
    Decimal::from_i128_with_scale(v.0, v.1).to_i64()
}

/// `ToPrimitive::to_u64` on a `Decimal`: its integer part where the number is
/// not negative and the part fits a `u64`.
#[verifier::external_body]
pub(crate) fn dec_to_u64(v: (i128, u32)) -> (r: Option<u64>)
    requires
        dec_ok(v),
        normalized(v),
    ensures
        r == (if 0 <= v.0 && dec_trunc(v).0 <= u64::MAX {
            Some(dec_trunc(v).0 as u64)
        } else {
            None::<u64>
        }),
{
    Decimal::from_i128_with_scale(v.0, v.1).to_u64()
}

/// The `std::time::Duration` that `std::time::Duration::new` makes of
/// `secs` seconds and `nanos` nanoseconds.
pub uninterp spec fn std_duration_of(secs: int, nanos: int) -> std::time::Duration;

/// `std::time::Duration::new` with fewer than a second of nanoseconds.
#[verifier::external_body]
fn std_duration_new(secs: u64, nanos: u32) -> (r: std::time::Duration)
    requires
        nanos < 1000000000,
    ensures
        r == std_duration_of(secs as int, nanos as int),
{
    std::time::Duration::new(secs, nanos)
}

/// Appends what `Decimal`'s `Display` writes for `n`, then `unit`.
#[verifier::external_body]
pub(crate) fn push_count(s: &mut String, n: (i128, u32), unit: &str)
    requires
        dec_ok(n),
    ensures
        final(s)@ == old(s)@ + decimal_text(n) + unit@,
{
    let _ = write!(s, "{}{}", Decimal::from_i128_with_scale(n.0, n.1), unit);
}

/// A length of time, in seconds, held as the parts of a decimal number in
/// normal form.
#[derive(Debug, Eq, PartialEq, Structural, Hash, Copy, Clone)]
pub struct Duration {
    m: i128,
    s: u32,
}

impl View for Duration {
    type V = (i128, u32);

    /// The parts of the number of seconds.
    closed spec fn view(&self) -> (i128, u32) {
        (self.m, self.s)
    }
}

/// The duration whose seconds have the given parts.
pub closed spec fn duration_of(v: (i128, u32)) -> Duration {
    Duration { m: v.0, s: v.1 }
}

/// A duration's view is its parts.
pub broadcast proof fn lemma_duration_of(v: (i128, u32))
    ensures
        #[trigger] duration_of(v)@ == v,
{
}

/// A duration is the duration of its parts.
pub proof fn lemma_duration_is_of_view(d: Duration)
    ensures
        d == duration_of(d@),
{
}

/// The units of `human` and `from_human`, from the longest to the shortest.
pub open spec fn std_bases() -> Seq<(Seq<char>, (i128, u32))> {
    seq![
        ("w"@, (604800i128, 0u32)),
        ("d"@, (86400i128, 0u32)),
        ("h"@, (3600i128, 0u32)),
        ("m"@, (60i128, 0u32)),
        ("s"@, (1i128, 0u32)),
        ("ms"@, (1i128, 3u32)),
        ("us"@, (1i128, 6u32)),
        ("ns"@, (1i128, 9u32)),
        ("ps"@, (1i128, 12u32)),
        ("fs"@, (1i128, 15u32)),
        ("as"@, (1i128, 18u32)),
    ]
}

/// The view of a list of units: each name and the parts of its duration.
pub open spec fn bases_view(b: Seq<(&str, Duration)>) -> Seq<(Seq<char>, (i128, u32))> {
    b.map_values(|e: (&str, Duration)| (e.0@, e.1@))
}

/// Writes `rem` in the given units, the longest first: for each unit the whole
/// count of it that fits in what is left, where that count is not zero. Gives
/// the text and what is left after the last unit, or `None` where the decimal
/// arithmetic fails.
pub open spec fn human_fold(rem: (i128, u32), bases: Seq<(Seq<char>, (i128, u32))>) -> Option<
    (Seq<char>, (i128, u32)),
>
    decreases bases.len(),
{
    if bases.len() == 0 {
        Some((Seq::empty(), rem))
    } else {
        let unit = bases[0].0;
        let dur = bases[0].1;
        match decimal_quotient(rem, dur) {
            None => None,
            Some(q) => {
                let div = dec_trunc(q);
                match decimal_product(dur, div) {
                    None => None,
                    Some(p) => match decimal_difference(rem, p) {
                        None => None,
                        Some(next) => match human_fold(next, bases.drop_first()) {
                            None => None,
                            Some(tail) => Some(
                                (
                                    if div.0 == 0 {
                                        tail.0
                                    } else {
                                        decimal_text(div) + unit + tail.0
                                    },
                                    tail.1,
                                ),
                            ),
                        },
                    },
                }
            },
        }
    }
}

/// The text before the units: a minus sign for a negative duration.
pub open spec fn sign_text(v: (i128, u32)) -> Seq<char> {
    if v.0 < 0 {
        "-"@
    } else {
        Seq::empty()
    }
}

/// The duration counted in the units: its sign and magnitude written out, or
/// `None` where that fails or leaves a remainder.
pub open spec fn human_text(v: (i128, u32), bases: Seq<(Seq<char>, (i128, u32))>) -> Option<
    Seq<char>,
> {
    if v.0 == 0 {
        Some("0s"@)
    } else {
        let mag = if v.0 < 0 {
            ((-v.0) as i128, v.1)
        } else {
            v
        };
        match human_fold(mag, bases) {
            Some(res) => if res.1.0 == 0 {
                Some(sign_text(v) + res.0)
            } else {
                None
            },
            None => None,
        }
    }
}

/// The duration of a unit code of `from_human`.
pub open spec fn unit_value(code: Seq<u8>) -> Option<(i128, u32)> {
    if code == seq![119u8] {
        Some((604800i128, 0u32))
    } else if code == seq![100u8] {
        Some((86400i128, 0u32))
    } else if code == seq![104u8] {
        Some((3600i128, 0u32))
    } else if code == seq![109u8] {
        Some((60i128, 0u32))
    } else if code == seq![115u8] {
        Some((1i128, 0u32))
    } else if code == seq![109u8, 115u8] {
        Some((1i128, 3u32))
    } else if code == seq![117u8, 115u8] {
        Some((1i128, 6u32))
    } else if code == seq![110u8, 115u8] {
        Some((1i128, 9u32))
    } else if code == seq![112u8, 115u8] {
        Some((1i128, 12u32))
    } else if code == seq![102u8, 115u8] {
        Some((1i128, 15u32))
    } else if code == seq![97u8, 115u8] {
        Some((1i128, 18u32))
    } else {
        None
    }
}

/// Where `from_human` stands after reading some bytes: the duration so far,
/// the number being read, the unit being read, and whether the last byte was
/// a digit.
pub type ScanState = ((i128, u32), i64, Seq<u8>, bool);

/// `from_human` reads one more byte.
pub open spec fn scan_step(st: ScanState, c: u8) -> Option<ScanState> {
    if is_digit(c) {
        let flushed: Option<((i128, u32), i64)> = if !st.3 {
            match unit_value(st.2) {
                None => None,
                Some(u) => match normal_opt(decimal_product(u, (st.1 as i128, 0u32))) {
                    None => None,
                    Some(p) => match normal_opt(decimal_sum(st.0, p)) {
                        None => None,
                        Some(d) => Some((d, 0i64)),
                    },
                },
            }
        } else {
            Some((st.0, st.1))
        };
        match flushed {
            None => None,
            Some(f) => {
                let v = f.1 * 10 + (c - 48);
                if v > i64::MAX {
                    None
                } else {
                    Some((f.0, v as i64, Seq::<u8>::empty(), true))
                }
            },
        }
    } else {
        Some((st.0, st.1, st.2.push(c), false))
    }
}

/// `from_human` reads the bytes `cs`.
pub open spec fn scan(cs: Seq<u8>) -> Option<ScanState>
    decreases cs.len(),
{
    if cs.len() == 0 {
        Some(((0i128, 0u32), 0i64, Seq::<u8>::empty(), true))
    } else {
        match scan(cs.drop_last()) {
            None => None,
            Some(st) => scan_step(st, cs.last()),
        }
    }
}

/// What `from_human` reads from the bytes `b`: an optional sign, then counts
/// each followed by a unit, a zero digit standing after the last unit.
pub open spec fn from_human_spec(b: Seq<u8>) -> Option<(i128, u32)> {
    if b.len() == 0 {
        None
    } else {
        let start: int = if b[0] == 45 || b[0] == 43 {
            1
        } else {
            0
        };
        let sign: i128 = if b[0] == 45 {
            -1i128
        } else {
            1i128
        };
        if start >= b.len() || !is_digit(b[start]) {
            None
        } else {
            match scan(b.subrange(start, b.len() as int).push(48u8)) {
                None => None,
                Some(st) => if st.1 != 0 {
                    None
                } else {
                    normal_opt(decimal_product(st.0, (sign, 0u32)))
                },
            }
        }
    }
}

/// The normal form of a decimal number is a decimal number in normal form.
pub proof fn lemma_normal_form(v: (i128, u32))
    requires
        dec_ok(v),
    ensures
        dec_ok(normal_form(v)),
        normalized(normal_form(v)),
        (normal_form(v).0 == 0) == (v.0 == 0),
    decreases v.1,
{
    if v.1 > 0 && v.0 % 10 == 0 {
        lemma_normal_form(((v.0 / 10) as i128, (v.1 - 1) as u32));
    }
}

/// Once reading fails, it fails on every longer input.
proof fn lemma_scan_fails(cs: Seq<u8>, k: int)
    requires
        0 <= k <= cs.len(),
        scan(cs.subrange(0, k)) is None,
    ensures
        scan(cs) is None,
    decreases cs.len() - k,
{
    if k < cs.len() {
        assert(cs.subrange(0, k + 1).drop_last() == cs.subrange(0, k));
        lemma_scan_fails(cs, k + 1);
    } else {
        assert(cs.subrange(0, k) == cs);
    }
}

/// The smallest step between two decimal numbers: 10^-28.
pub open spec fn ulp() -> (i128, u32) {
    (1i128, 28u32)
}

impl Duration {
    #[verifier::type_invariant]
    spec fn inv(self) -> bool {
        dec_ok((self.m, self.s)) && normalized((self.m, self.s))
    }

    /// The duration with the given parts, brought to normal form.
    pub(crate) fn from_parts(v: (i128, u32)) -> (r: Self)
        requires
            dec_ok(v),
        ensures
            r@ == normal_form(v),
            dec_ok(r@),
            normalized(r@),
    {
        let (m, s) = dec_normalize(v);
        Self { m, s }
    }

    pub(crate) fn parts(&self) -> (r: (i128, u32))
        ensures
            r == self@,
            dec_ok(r),
            normalized(r),
    {
        proof {
            use_type_invariant(self);
        }
        (self.m, self.s)
    }

    /// One attosecond.
    pub fn asec() -> (r: Self)
        ensures
            r@ == (1i128, 18u32),
    {
        Self { m: 1, s: 18 }
    }

    /// One femtosecond.
    pub fn fsec() -> (r: Self)
        ensures
            r@ == (1i128, 15u32),
    {
        Self { m: 1, s: 15 }
    }

    /// One picosecond.
    pub fn psec() -> (r: Self)
        ensures
            r@ == (1i128, 12u32),
    {
        Self { m: 1, s: 12 }
    }

    /// One nanosecond.
    pub fn nsec() -> (r: Self)
        ensures
            r@ == (1i128, 9u32),
    {
        Self { m: 1, s: 9 }
    }

    /// One microsecond.
    pub fn usec() -> (r: Self)
        ensures
            r@ == (1i128, 6u32),
    {
        Self { m: 1, s: 6 }
    }

    /// One millisecond.
    pub fn msec() -> (r: Self)
        ensures
            r@ == (1i128, 3u32),
    {
        Self { m: 1, s: 3 }
    }

    /// One second.
    pub fn sec() -> (r: Self)
        ensures
            r@ == (1i128, 0u32),
    {
        Self { m: 1, s: 0 }
    }

    /// One minute.
    pub fn min() -> (r: Self)
        ensures
            r@ == (60i128, 0u32),
    {
        Self { m: 60, s: 0 }
    }

    /// One hour.
    pub fn hour() -> (r: Self)
        ensures
            r@ == (3600i128, 0u32),
    {
        Self { m: 3600, s: 0 }
    }

    /// One day.
    pub fn day() -> (r: Self)
        ensures
            r@ == (86400i128, 0u32),
    {
        Self { m: 86400, s: 0 }
    }

    /// One week.
    pub fn week() -> (r: Self)
        ensures
            r@ == (604800i128, 0u32),
    {
        Self { m: 604800, s: 0 }
    }

    /// The units `human` writes, from the longest to the shortest.
    pub fn bases() -> (r: Vec<(&'static str, Duration)>)
        ensures
            bases_view(r@) == std_bases(),
    {
        let r = vec![
            ("w", Duration::week()),
            ("d", Duration::day()),
            ("h", Duration::hour()),
            ("m", Duration::min()),
            ("s", Duration::sec()),
            ("ms", Duration::msec()),
            ("us", Duration::usec()),
            ("ns", Duration::nsec()),
            ("ps", Duration::psec()),
            ("fs", Duration::fsec()),
            ("as", Duration::asec()),
        ];
        assert(bases_view(r@) == std_bases());
        r
    }

    /// The duration of `secs` seconds.
    pub fn new(secs: Decimal) -> (r: Self)
        ensures
            r@ == normal_form(decimal_parts_of(secs)),
            normalized(r@),
            dec_ok(r@),
    {
        Self::from_parts(decimal_parts(&secs))
    }

    pub fn zero() -> (r: Self)
        ensures
            r@ == (0i128, 0u32),
    {
        Self { m: 0, s: 0 }
    }

    pub fn is_zero(&self) -> (r: bool)
        ensures
            r == (self@.0 == 0),
    {
        self.m == 0
    }

    pub fn is_positive(&self) -> (r: bool)
        ensures
            r == (self@.0 > 0),
    {
        self.m > 0
    }

    pub fn is_negative(&self) -> (r: bool)
        ensures
            r == (self@.0 < 0),
    {
        self.m < 0
    }

    /// The number of seconds.
    pub fn secs(&self) -> (r: Decimal)
        ensures
            r == decimal_from_parts(self@),
    {
        proof {
            use_type_invariant(self);
        }
        decimal_of((self.m, self.s))
    }

    /// The duration written in the units of `bases`.
    pub fn human(&self) -> (r: Result<String>)
        ensures
            match human_text(self@, std_bases()) {
                Some(t) => r is Ok && r.unwrap()@ == t,
                None => r matches Err(Error::DurationParse(_)),
            },
    {
        let bases = Duration::bases();
        self.human_bases(bases.as_slice())
    }

    /// The duration written as counts of the given units, the longest first:
    /// for each unit the whole count of it that fits in what is left, where
    /// that count is not zero. An error where units do not add up to the
    /// duration, or the decimal arithmetic fails.
    pub fn human_bases(&self, bases: &[(&str, Duration)]) -> (r: Result<String>)
        ensures
            match human_text(self@, bases_view(bases@)) {
                Some(t) => r is Ok && r.unwrap()@ == t,
                None => r matches Err(Error::DurationParse(_)),
            },
    {
        proof {
            use_type_invariant(self);
        }
        if self.is_zero() {
            return Ok("0s".to_owned());
        }
        let mut rem = (self.m, self.s);
        let mut human = String::new();
        if self.m < 0 {
            rem = (-self.m, self.s);
            human.append("-");
        }
        let ghost start = rem;
        let ghost bv = bases_view(bases@);
        let ghost head = human@;
        assert(head == sign_text(self@));
        proof {
            assert(bv.subrange(0, bv.len() as int) == bv);
            assert(human@.subrange(0, head.len() as int) == head);
            assert(human@.subrange(head.len() as int, human@.len() as int) =~= Seq::<char>::empty());
            match human_fold(rem, bv) {
                Some(res) => {
                    assert(Seq::<char>::empty() + res.0 =~= res.0);
                },
                None => {},
            }
        }
        let mut i: usize = 0;
        while i < bases.len()
            invariant
                i <= bases@.len(),
                bv == bases_view(bases@),
                self@.0 != 0,
                start == (if self@.0 < 0 {
                    ((-self@.0) as i128, self@.1)
                } else {
                    self@
                }),
                dec_ok(rem),
                head == sign_text(self@),
                human@.len() >= head.len(),
                human@.subrange(0, head.len() as int) == head,
                human_fold(start, bv) == match human_fold(rem, bv.subrange(i as int, bv.len() as int)) {
                    Some(res) => Some((human@.subrange(head.len() as int, human@.len() as int) + res.0, res.1)),
                    None => None,
                },
            decreases bases@.len() - i,
        {
            let (unit, base) = bases[i];
            let dur = base.parts();
            let ghost rest = bv.subrange(i as int, bv.len() as int);
            proof {
                assert(rest[0] == (unit@, dur));
                assert(rest.drop_first() == bv.subrange(i + 1, bv.len() as int));
            }
            let q = match dec_div(rem, dur) {
                Some(q) => q,
                None => {
                    assert(human_fold(rem, rest) is None);
                    return Err(Error::DurationParse("division failed".to_owned()));
                },
            };
            let div = dec_truncate(q);
            let p = match dec_mul(dur, div) {
                Some(p) => p,
                None => {
                    assert(human_fold(rem, rest) is None);
                    return Err(Error::DurationParse("multiplication overflowed".to_owned()));
                },
            };
            let next = match dec_sub(rem, p) {
                Some(n) => n,
                None => {
                    assert(human_fold(rem, rest) is None);
                    return Err(Error::DurationParse("subtraction overflowed".to_owned()));
                },
            };
            let ghost before = human@;
            if div.0 != 0 {
                push_count(&mut human, div, unit);
            }
            proof {
                assert(human@.subrange(0, head.len() as int) == head);
                let old_tail = before.subrange(head.len() as int, before.len() as int);
                let new_tail = human@.subrange(head.len() as int, human@.len() as int);
                if div.0 != 0 {
                    assert(new_tail == old_tail + decimal_text(div) + unit@);
                } else {
                    assert(new_tail == old_tail);
                }
            }
            rem = next;
            i += 1;
        }
        proof {
            assert(bv.subrange(i as int, bv.len() as int) =~= Seq::empty());
            assert(human@ == head + human@.subrange(head.len() as int, human@.len() as int));
        }
        if rem.0 == 0 {
            Ok(human)
        } else {
            Err(Error::DurationParse("remainder is not zero".to_owned()))
        }
    }

    /// Reads a duration written as counts each followed by a unit, such as
    /// "1h30m" or "-15m7s", with an optional sign in front.
    pub fn from_human(s: &str) -> (r: Result<Duration>)
        ensures
            match from_human_spec(s.spec_bytes()) {
                Some(v) => r is Ok && r.unwrap()@ == v,
                None => r matches Err(Error::DurationParse(_)),
            },
    {
        Duration::from_human_bytes(s.as_bytes())
    }

    /// Reads a duration from the bytes of its text (see `from_human`).
    pub fn from_human_bytes(b: &[u8]) -> (r: Result<Duration>)
        ensures
            match from_human_spec(b@) {
                Some(v) => r is Ok && r.unwrap()@ == v,
                None => r matches Err(Error::DurationParse(_)),
            },
    {
        let n = b.len();
        if n == 0 {
            return Err(Error::DurationParse("empty duration".to_owned()));
        }
        let (start, sign): (usize, i128) = if b[0] == 45 {
            (1, -1)
        } else if b[0] == 43 {
            (1, 1)
        } else {
            (0, 1)
        };
        if start >= n || !(48 <= b[start] && b[start] <= 57) {
            return Err(Error::DurationParse("duration must start with a digit".to_owned()));
        }
        let ghost cs = b@.subrange(start as int, n as int).push(48u8);
        let mut dur: (i128, u32) = (0, 0);
        let mut cur: i64 = 0;
        let mut ident: Vec<u8> = Vec::new();
        let mut is_digit_last = true;
        let mut i: usize = start;
        while i < n
            invariant
                start <= i <= n,
                n == b@.len(),
                n > 0,
                start < n,
                is_digit(b@[start as int]),
                start == (if b@[0] == 45 || b@[0] == 43 {
                    1usize
                } else {
                    0usize
                }),
                sign == (if b@[0] == 45 {
                    -1i128
                } else {
                    1i128
                }),
                cs == b@.subrange(start as int, n as int).push(48u8),
                dec_ok(dur),
                cur >= 0,
                is_digit_last ==> ident@.len() == 0,
                scan(cs.subrange(0, i - start)) == Some((dur, cur, ident@, is_digit_last)),
            decreases n - i,
        {
            let c = b[i];
            proof {
                assert(cs[i - start] == c);
                assert(cs.subrange(0, i - start + 1).drop_last() == cs.subrange(0, i - start));
                assert(cs.subrange(0, i - start + 1).last() == c);
            }
            if !scan_byte(&mut dur, &mut cur, &mut ident, &mut is_digit_last, c) {
                proof {
                    lemma_scan_fails(cs, i - start + 1);
                }
                return Err(Error::DurationParse("invalid duration".to_owned()));
            }
            i += 1;
        }
        proof {
            assert(cs[n - start] == 48u8);
            assert(cs.subrange(0, n - start + 1).drop_last() == cs.subrange(0, n - start));
            assert(cs.subrange(0, n - start + 1) == cs);
        }
        if !scan_byte(&mut dur, &mut cur, &mut ident, &mut is_digit_last, 48) {
            return Err(Error::DurationParse("invalid duration".to_owned()));
        }
        if cur != 0 {
            return Err(Error::DurationParse("trailing number without unit".to_owned()));
        }
        match dec_mul(dur, (sign, 0)) {
            Some(v) => Ok(Self::from_parts(v)),
            None => Err(Error::DurationParse("duration overflowed".to_owned())),
        }
    }
}

/// `from_human` reads the byte `c`: `false` where reading fails.
fn scan_byte(
    dur: &mut (i128, u32),
    cur: &mut i64,
    ident: &mut Vec<u8>,
    is_digit_last: &mut bool,
    c: u8,
) -> (ok: bool)
    requires
        dec_ok(*old(dur)),
        *old(cur) >= 0,
        *old(is_digit_last) ==> old(ident)@.len() == 0,
    ensures
        ok == scan_step((*old(dur), *old(cur), old(ident)@, *old(is_digit_last)), c) is Some,
        ok ==> scan_step((*old(dur), *old(cur), old(ident)@, *old(is_digit_last)), c) == Some(
            (*final(dur), *final(cur), final(ident)@, *final(is_digit_last)),
        ),
        ok ==> dec_ok(*final(dur)),
        ok ==> *final(cur) >= 0,
        ok && *final(is_digit_last) ==> final(ident)@.len() == 0,
{
    if 48 <= c && c <= 57 {
        if !*is_digit_last {
            let u = match unit_code(ident) {
                Some(u) => u,
                None => {
                    return false;
                },
            };
            let p = match dec_mul(u, (*cur as i128, 0)) {
                Some(p) => dec_normalize(p),
                None => {
                    return false;
                },
            };
            let d = match dec_add(*dur, p) {
                Some(d) => dec_normalize(d),
                None => {
                    return false;
                },
            };
            *dur = d;
            *cur = 0;
            *ident = Vec::new();
        }
        let digit = (c - 48) as i64;
        let v = match cur.checked_mul(10) {
            Some(v) => match v.checked_add(digit) {
                Some(v) => v,
                None => {
                    return false;
                },
            },
            None => {
                return false;
            },
        };
        *cur = v;
        *is_digit_last = true;
        assert(ident@ == Seq::<u8>::empty());
        true
    } else {
        ident.push(c);
        *is_digit_last = false;
        true
    }
}

/// The duration of a unit code read by `from_human`.
fn unit_code(ident: &Vec<u8>) -> (r: Option<(i128, u32)>)
    ensures
        r == unit_value(ident@),
        r matches Some(v) ==> dec_ok(v),
{
    let n = ident.len();
    if n == 1 && ident[0] == 119 {
        assert(ident@ == seq![119u8]);
        Some((604800, 0))
    } else if n == 1 && ident[0] == 100 {
        assert(ident@ == seq![100u8]);
        Some((86400, 0))
    } else if n == 1 && ident[0] == 104 {
        assert(ident@ == seq![104u8]);
        Some((3600, 0))
    } else if n == 1 && ident[0] == 109 {
        assert(ident@ == seq![109u8]);
        Some((60, 0))
    } else if n == 1 && ident[0] == 115 {
        assert(ident@ == seq![115u8]);
        Some((1, 0))
    } else if n == 2 && ident[1] == 115 && ident[0] == 109 {
        assert(ident@ == seq![109u8, 115u8]);
        Some((1, 3))
    } else if n == 2 && ident[1] == 115 && ident[0] == 117 {
        assert(ident@ == seq![117u8, 115u8]);
        Some((1, 6))
    } else if n == 2 && ident[1] == 115 && ident[0] == 110 {
        assert(ident@ == seq![110u8, 115u8]);
        Some((1, 9))
    } else if n == 2 && ident[1] == 115 && ident[0] == 112 {
        assert(ident@ == seq![112u8, 115u8]);
        Some((1, 12))
    } else if n == 2 && ident[1] == 115 && ident[0] == 102 {
        assert(ident@ == seq![102u8, 115u8]);
        Some((1, 15))
    } else if n == 2 && ident[1] == 115 && ident[0] == 97 {
        assert(ident@ == seq![97u8, 115u8]);
        Some((1, 18))
    } else {
        None
    }
}

} // verus!

verus! {

/// How two durations compare: by value.
pub open spec fn duration_order(a: (i128, u32), b: (i128, u32)) -> Ordering {
    if dec_less(a, b) {
        Ordering::Less
    } else if dec_same(a, b) {
        Ordering::Equal
    } else {
        Ordering::Greater
    }
}

impl PartialOrdSpecImpl for Duration {
    open spec fn obeys_partial_cmp_spec() -> bool {
        true
    }

    open spec fn partial_cmp_spec(&self, other: &Self) -> Option<Ordering> {
        Some(duration_order(self@, other@))
    }
}

impl PartialOrd for Duration {
    fn partial_cmp(&self, other: &Self) -> (r: Option<Ordering>) {
        let o = dec_order(self.parts(), other.parts());
        Some(o)
    }
}

impl Default for Duration {
    fn default() -> (r: Self)
        ensures
            r@ == (0i128, 0u32),
    {
        Self::zero()
    }
}

impl NegSpecImpl for Duration {
    open spec fn obeys_neg_spec() -> bool {
        true
    }

    open spec fn neg_req(self) -> bool {
        true
    }

    open spec fn neg_spec(self) -> Duration {
        duration_of(((-self@.0) as i128, self@.1))
    }
}

impl Neg for Duration {
    type Output = Duration;

    fn neg(self) -> (r: Duration) {
        let (m, s) = self.parts();
        Duration { m: -m, s }
    }
}

impl AddSpecImpl for Duration {
    open spec fn obeys_add_spec() -> bool {
        true
    }

    open spec fn add_req(self, rhs: Duration) -> bool {
        decimal_sum(self@, rhs@) is Some
    }

    open spec fn add_spec(self, rhs: Duration) -> Duration {
        duration_of(normal_form(decimal_sum(self@, rhs@).unwrap()))
    }
}

impl Add for Duration {
    type Output = Duration;

    fn add(self, rhs: Duration) -> (r: Duration) {
        let v = dec_add(self.parts(), rhs.parts()).unwrap();
        let r = Duration::from_parts(v);
        proof {
            lemma_duration_of(r@);
        }
        r
    }
}

impl SubSpecImpl for Duration {
    open spec fn obeys_sub_spec() -> bool {
        true
    }

    open spec fn sub_req(self, rhs: Duration) -> bool {
        decimal_difference(self@, rhs@) is Some
    }

    open spec fn sub_spec(self, rhs: Duration) -> Duration {
        duration_of(normal_form(decimal_difference(self@, rhs@).unwrap()))
    }
}

impl Sub for Duration {
    type Output = Duration;

    fn sub(self, rhs: Duration) -> (r: Duration) {
        let v = dec_sub(self.parts(), rhs.parts()).unwrap();
        let r = Duration::from_parts(v);
        proof {
            lemma_duration_of(r@);
        }
        r
    }
}

impl MulSpecImpl<i64> for Duration {
    open spec fn obeys_mul_spec() -> bool {
        true
    }

    open spec fn mul_req(self, rhs: i64) -> bool {
        decimal_product(self@, (rhs as i128, 0u32)) is Some
    }

    open spec fn mul_spec(self, rhs: i64) -> Duration {
        duration_of(normal_form(decimal_product(self@, (rhs as i128, 0u32)).unwrap()))
    }
}

impl Mul<i64> for Duration {
    type Output = Duration;

    fn mul(self, rhs: i64) -> (r: Duration) {
        let v = dec_mul(self.parts(), (rhs as i128, 0)).unwrap();
        let r = Duration::from_parts(v);
        proof {
            lemma_duration_of(r@);
        }
        r
    }
}

impl MulSpecImpl<Duration> for i64 {
    open spec fn obeys_mul_spec() -> bool {
        true
    }

    open spec fn mul_req(self, rhs: Duration) -> bool {
        decimal_product(rhs@, (self as i128, 0u32)) is Some
    }

    open spec fn mul_spec(self, rhs: Duration) -> Duration {
        duration_of(normal_form(decimal_product(rhs@, (self as i128, 0u32)).unwrap()))
    }
}

impl Mul<Duration> for i64 {
    type Output = Duration;

    fn mul(self, rhs: Duration) -> (r: Duration) {
        rhs * self
    }
}

impl DivSpecImpl for Duration {
    open spec fn obeys_div_spec() -> bool {
        true
    }

    open spec fn div_req(self, rhs: Duration) -> bool {
        decimal_quotient(self@, rhs@) is Some
    }

    open spec fn div_spec(self, rhs: Duration) -> Decimal {
        decimal_from_parts(decimal_quotient(self@, rhs@).unwrap())
    }
}

impl Div for Duration {
    type Output = Decimal;

    /// How many times `rhs` this duration is.
    fn div(self, rhs: Duration) -> (r: Decimal) {
        decimal_of(dec_div(self.parts(), rhs.parts()).unwrap())
    }
}

impl MulSpecImpl<Decimal> for Duration {
    open spec fn obeys_mul_spec() -> bool {
        true
    }

    open spec fn mul_req(self, rhs: Decimal) -> bool {
        decimal_product(self@, decimal_parts_of(rhs)) is Some
    }

    open spec fn mul_spec(self, rhs: Decimal) -> Duration {
        duration_of(normal_form(decimal_product(self@, decimal_parts_of(rhs)).unwrap()))
    }
}

impl Mul<Decimal> for Duration {
    type Output = Duration;

    fn mul(self, rhs: Decimal) -> (r: Duration) {
        let r = Duration::from_parts(dec_mul(self.parts(), decimal_parts(&rhs)).unwrap());
        proof {
            lemma_duration_of(r@);
        }
        r
    }
}

impl MulSpecImpl<Duration> for Decimal {
    open spec fn obeys_mul_spec() -> bool {
        true
    }

    open spec fn mul_req(self, rhs: Duration) -> bool {
        decimal_product(rhs@, decimal_parts_of(self)) is Some
    }

    open spec fn mul_spec(self, rhs: Duration) -> Duration {
        duration_of(normal_form(decimal_product(rhs@, decimal_parts_of(self)).unwrap()))
    }
}

impl Mul<Duration> for Decimal {
    type Output = Duration;

    fn mul(self, rhs: Duration) -> (r: Duration) {
        rhs * self
    }
}

impl DivSpecImpl<i64> for Duration {
    open spec fn obeys_div_spec() -> bool {
        true
    }

    open spec fn div_req(self, rhs: i64) -> bool {
        decimal_quotient(self@, (rhs as i128, 0u32)) is Some
    }

    open spec fn div_spec(self, rhs: i64) -> Duration {
        duration_of(normal_form(decimal_quotient(self@, (rhs as i128, 0u32)).unwrap()))
    }
}

impl Div<i64> for Duration {
    type Output = Duration;

    fn div(self, rhs: i64) -> (r: Duration) {
        let r = Duration::from_parts(dec_div(self.parts(), (rhs as i128, 0)).unwrap());
        proof {
            lemma_duration_of(r@);
        }
        r
    }
}

impl DivSpecImpl<Decimal> for Duration {
    open spec fn obeys_div_spec() -> bool {
        true
    }

    open spec fn div_req(self, rhs: Decimal) -> bool {
        decimal_quotient(self@, decimal_parts_of(rhs)) is Some
    }

    open spec fn div_spec(self, rhs: Decimal) -> Duration {
        duration_of(normal_form(decimal_quotient(self@, decimal_parts_of(rhs)).unwrap()))
    }
}

impl Div<Decimal> for Duration {
    type Output = Duration;

    fn div(self, rhs: Decimal) -> (r: Duration) {
        let r = Duration::from_parts(dec_div(self.parts(), decimal_parts(&rhs)).unwrap());
        proof {
            lemma_duration_of(r@);
        }
        r
    }
}

/// The whole seconds, rounded toward zero, and the nanoseconds of the rest,
/// rounded toward zero, of a duration that is not negative, where the decimal
/// operations succeed and these fit.
pub open spec fn std_parts(v: (i128, u32)) -> Option<(u64, u32)> {
    let t = dec_trunc(v);
    match decimal_difference(v, t) {
        Some(f) => match decimal_product(f, (1000000000i128, 0u32)) {
            Some(p) => {
                let n = dec_trunc(p).0;
                if 0 <= v.0 && t.0 <= u64::MAX && 0 <= n < 1000000000 {
                    Some((t.0 as u64, n as u32))
                } else {
                    None
                }
            },
            None => None,
        },
        None => None,
    }
}

impl Duration {
    /// The number of seconds' integer part, rounded toward zero, where it
    /// fits an `i64`.
    pub fn to_i64(&self) -> (r: Option<i64>)
        ensures
            r == (if i64::MIN <= dec_trunc(self@).0 <= i64::MAX {
                Some(dec_trunc(self@).0 as i64)
            } else {
                None::<i64>
            }),
    {
        dec_to_i64(self.parts())
    }

    /// The number of seconds' integer part where the duration is not
    /// negative and the part fits a `u64`.
    pub fn to_u64(&self) -> (r: Option<u64>)
        ensures
            r == (if 0 <= self@.0 && dec_trunc(self@).0 <= u64::MAX {
                Some(dec_trunc(self@).0 as u64)
            } else {
                None::<u64>
            }),
    {
        dec_to_u64(self.parts())
    }

    /// The duration as a `std::time::Duration`, to the nanosecond toward
    /// zero; `None` where it is negative or too long.
    pub fn to_chrono(&self) -> (r: Option<std::time::Duration>)
        ensures
            match std_parts(self@) {
                Some(p) => r == Some(std_duration_of(p.0 as int, p.1 as int)),
                None => r is None,
            },
    {
        let v = self.parts();
        let t = dec_truncate(v);
        let f = match dec_sub(v, t) {
            Some(f) => f,
            None => {
                return None;
            },
        };
        let p = match dec_mul(f, (1000000000, 0)) {
            Some(p) => p,
            None => {
                return None;
            },
        };
        let n = dec_truncate(p).0;
        if v.0 < 0 || t.0 > u64::MAX as i128 || n < 0 || n >= 1000000000 {
            return None;
        }
        Some(std_duration_new(t.0 as u64, n as u32))
    }
}

impl EndpointConversion for Decimal {
    /// An open endpoint one step of the smallest decimal, 10^-28, before (on
    /// the left) or after (on the right) holds the same numbers as a closed
    /// one here.
    open spec fn open_value(&self, side: EndpointSide) -> Option<Self> {
        let v = match side {
            EndpointSide::Left => decimal_difference(decimal_parts_of(*self), ulp()),
            EndpointSide::Right => decimal_sum(decimal_parts_of(*self), ulp()),
        };
        match v {
            Some(p) => Some(decimal_from_parts(p)),
            None => None,
        }
    }

    /// A closed endpoint one step of 10^-28 after (on the left) or before (on
    /// the right) holds the same numbers as an open one here.
    open spec fn closed_value(&self, side: EndpointSide) -> Option<Self> {
        let v = match side {
            EndpointSide::Left => decimal_sum(decimal_parts_of(*self), ulp()),
            EndpointSide::Right => decimal_difference(decimal_parts_of(*self), ulp()),
        };
        match v {
            Some(p) => Some(decimal_from_parts(p)),
            None => None,
        }
    }

    fn to_open(&self, side: EndpointSide) -> (r: Option<Self>) {
        let p = decimal_parts(self);
        let v = match side {
            EndpointSide::Left => dec_sub(p, (1, 28)),
            EndpointSide::Right => dec_add(p, (1, 28)),
        };
        match v {
            Some(q) => Some(decimal_of(q)),
            None => None,
        }
    }

    fn to_closed(&self, side: EndpointSide) -> (r: Option<Self>) {
        let p = decimal_parts(self);
        let v = match side {
            EndpointSide::Left => dec_add(p, (1, 28)),
            EndpointSide::Right => dec_sub(p, (1, 28)),
        };
        match v {
            Some(q) => Some(decimal_of(q)),
            None => None,
        }
    }
}

impl EndpointConversion for Duration {
    /// An open endpoint one step of 10^-28 seconds before (on the left) or
    /// after (on the right) holds the same durations as a closed one here.
    open spec fn open_value(&self, side: EndpointSide) -> Option<Self> {
        match side {
            EndpointSide::Left => match decimal_difference(self@, ulp()) {
                Some(v) => Some(duration_of(normal_form(v))),
                None => None,
            },
            EndpointSide::Right => match decimal_sum(self@, ulp()) {
                Some(v) => Some(duration_of(normal_form(v))),
                None => None,
            },
        }
    }

    /// A closed endpoint one step of 10^-28 seconds after (on the left) or
    /// before (on the right) holds the same durations as an open one here.
    open spec fn closed_value(&self, side: EndpointSide) -> Option<Self> {
        match side {
            EndpointSide::Left => match decimal_sum(self@, ulp()) {
                Some(v) => Some(duration_of(normal_form(v))),
                None => None,
            },
            EndpointSide::Right => match decimal_difference(self@, ulp()) {
                Some(v) => Some(duration_of(normal_form(v))),
                None => None,
            },
        }
    }

    fn to_open(&self, side: EndpointSide) -> (r: Option<Self>) {
        let v = match side {
            EndpointSide::Left => dec_sub(self.parts(), (1, 28)),
            EndpointSide::Right => dec_add(self.parts(), (1, 28)),
        };
        match v {
            Some(v) => {
                let r = Duration::from_parts(v);
                proof {
                    lemma_duration_of(r@);
                }
                Some(r)
            },
            None => None,
        }
    }

    fn to_closed(&self, side: EndpointSide) -> (r: Option<Self>) {
        let v = match side {
            EndpointSide::Left => dec_add(self.parts(), (1, 28)),
            EndpointSide::Right => dec_sub(self.parts(), (1, 28)),
        };
        match v {
            Some(v) => {
                let r = Duration::from_parts(v);
                proof {
                    lemma_duration_of(r@);
                }
                Some(r)
            },
            None => None,
        }
    }
}

impl FromStr for Duration {
    type Err = Error;

    fn from_str(s: &str) -> Result<Duration> {
        Duration::from_human(s)
    }
}

} // verus!
