use std::cmp::Ordering;
use std::ops::Mul;
use std::str::FromStr;

use vstd::prelude::*;
use vstd::std_specs::cmp::PartialOrdSpecImpl;
use vstd::std_specs::ops::MulSpecImpl;
use vstd::string::StringSliceAdditionalSpecFns;

use crate::duration::{dec_ok, normal_form, Duration};
use crate::error::{Error, Result};
use crate::op::{date_op_of, lemma_date_op_of, DOp, DateOp, TOp, TimeOp, TimeStep};
use crate::time::{step_holds, step_ok, Time};
use crate::parse::{ascii_lower, is_digit, parse_i16, parsed_i16};

verus! {

/// Frequency. For now this should be representable as at most two lowercase
/// English letters and be case insensitive.
#[derive(Debug, Eq, PartialEq, Structural, Hash, Copy, Clone, Ord, PartialOrd)]
pub enum SemanticFreq {
    Millisecond,
    Second,
    Minute,
    Hour,
    Day,
    Week,
    Month,
    Year,
}

/// The approximate length of one unit, in milliseconds: a month counts as 30
/// days and a year as 365.
pub open spec fn approx_millis_of(f: SemanticFreq) -> int {
    match f {
        SemanticFreq::Millisecond => 1int,
        SemanticFreq::Second => 1000int,
        SemanticFreq::Minute => 60 * 1000int,
        SemanticFreq::Hour => 60 * 60 * 1000int,
        SemanticFreq::Day => 24 * 60 * 60 * 1000int,
        SemanticFreq::Week => 7 * 24 * 60 * 60 * 1000int,
        SemanticFreq::Month => 30 * 24 * 60 * 60 * 1000int,
        SemanticFreq::Year => 365 * 24 * 60 * 60 * 1000int,
    }
}

/// The time operation that adds one unit (weeks are added as days).
pub open spec fn top_of(f: SemanticFreq) -> TOp {
    match f {
        SemanticFreq::Millisecond => TOp::AddMillis,
        SemanticFreq::Second => TOp::AddSecs,
        SemanticFreq::Minute => TOp::AddMins,
        SemanticFreq::Hour => TOp::AddHours,
        SemanticFreq::Day => TOp::AddDays,
        SemanticFreq::Week => TOp::AddDays,
        SemanticFreq::Month => TOp::AddMonths,
        SemanticFreq::Year => TOp::AddYears,
    }
}

/// The short code of a unit, as it is written and read.
pub open spec fn code_of(f: SemanticFreq) -> Seq<u8> {
    match f {
        SemanticFreq::Millisecond => seq![109u8, 115u8],
        SemanticFreq::Second => seq![115u8],
        SemanticFreq::Minute => seq![109u8],
        SemanticFreq::Hour => seq![104u8],
        SemanticFreq::Day => seq![100u8],
        SemanticFreq::Week => seq![119u8],
        SemanticFreq::Month => seq![109u8, 111u8],
        SemanticFreq::Year => seq![121u8],
    }
}

/// The unit whose code is `b`, ignoring ASCII case.
pub open spec fn unit_of(b: Seq<u8>) -> Option<SemanticFreq> {
    let l = b.map_values(|c: u8| ascii_lower(c));
    if l == code_of(SemanticFreq::Millisecond) {
        Some(SemanticFreq::Millisecond)
    } else if l == code_of(SemanticFreq::Second) {
        Some(SemanticFreq::Second)
    } else if l == code_of(SemanticFreq::Minute) {
        Some(SemanticFreq::Minute)
    } else if l == code_of(SemanticFreq::Hour) {
        Some(SemanticFreq::Hour)
    } else if l == code_of(SemanticFreq::Day) {
        Some(SemanticFreq::Day)
    } else if l == code_of(SemanticFreq::Week) {
        Some(SemanticFreq::Week)
    } else if l == code_of(SemanticFreq::Month) {
        Some(SemanticFreq::Month)
    } else if l == code_of(SemanticFreq::Year) {
        Some(SemanticFreq::Year)
    } else {
        None
    }
}

/// Units in order from the shortest to the longest.
pub open spec fn rank_of(f: SemanticFreq) -> int {
    match f {
        SemanticFreq::Millisecond => 0,
        SemanticFreq::Second => 1,
        SemanticFreq::Minute => 2,
        SemanticFreq::Hour => 3,
        SemanticFreq::Day => 4,
        SemanticFreq::Week => 5,
        SemanticFreq::Month => 6,
        SemanticFreq::Year => 7,
    }
}

impl SemanticFreq {
    pub fn approx_millis(&self) -> (r: i64)
        ensures
            r == approx_millis_of(*self),
    {
        match *self {
            SemanticFreq::Millisecond => 1,
            SemanticFreq::Second => 1000,
            SemanticFreq::Minute => 60 * 1000,
            SemanticFreq::Hour => 60 * 60 * 1000,
            SemanticFreq::Day => 24 * 60 * 60 * 1000,
            SemanticFreq::Week => 7 * 24 * 60 * 60 * 1000,
            SemanticFreq::Month => 30 * 24 * 60 * 60 * 1000,
            SemanticFreq::Year => 365 * 24 * 60 * 60 * 1000,
        }
    }

    pub fn to_top(&self) -> (r: TOp)
        ensures
            r == top_of(*self),
    {
        match *self {
            SemanticFreq::Millisecond => TOp::AddMillis,
            SemanticFreq::Second => TOp::AddSecs,
            SemanticFreq::Minute => TOp::AddMins,
            SemanticFreq::Hour => TOp::AddHours,
            SemanticFreq::Day | SemanticFreq::Week => TOp::AddDays,
            SemanticFreq::Month => TOp::AddMonths,
            SemanticFreq::Year => TOp::AddYears,
        }
    }

    /// The short code of the unit: "ms", "s", "m", "h", "d", "w", "mo" or "y".
    pub fn code(&self) -> (r: Vec<u8>)
        ensures
            r@ == code_of(*self),
    {
        match *self {
            SemanticFreq::Millisecond => vec![109u8, 115u8],
            SemanticFreq::Second => vec![115u8],
            SemanticFreq::Minute => vec![109u8],
            SemanticFreq::Hour => vec![104u8],
            SemanticFreq::Day => vec![100u8],
            SemanticFreq::Week => vec![119u8],
            SemanticFreq::Month => vec![109u8, 111u8],
            SemanticFreq::Year => vec![121u8],
        }
    }

    /// Reads a unit from its code, ignoring ASCII case.
    pub fn from_code(b: &[u8]) -> (r: Result<SemanticFreq>)
        ensures
            match unit_of(b@) {
                Some(f) => r == Ok::<SemanticFreq, Error>(f),
                None => r matches Err(Error::StrumParse(_)),
            },
    {
        let mut l: Vec<u8> = Vec::new();
        let mut i: usize = 0;
        while i < b.len()
            invariant
                i <= b@.len(),
                l@ == b@.subrange(0, i as int).map_values(|c: u8| ascii_lower(c)),
            decreases b@.len() - i,
        {
            let c = b[i];
            let lc = if 65 <= c && c <= 90 {
                c + 32
            } else {
                c
            };
            l.push(lc);
            i += 1;
            assert(l@ == b@.subrange(0, i as int).map_values(|c: u8| ascii_lower(c)));
        }
        assert(b@.subrange(0, b@.len() as int) == b@);
        let ghost lv = b@.map_values(|c: u8| ascii_lower(c));
        assert(l@ == lv);
        let n = l.len();
        if n == 2 && l[0] == 109 && l[1] == 115 {
            assert(lv == code_of(SemanticFreq::Millisecond));
            Ok(SemanticFreq::Millisecond)
        } else if n == 1 && l[0] == 115 {
            assert(lv == code_of(SemanticFreq::Second));
            Ok(SemanticFreq::Second)
        } else if n == 1 && l[0] == 109 {
            assert(lv == code_of(SemanticFreq::Minute));
            Ok(SemanticFreq::Minute)
        } else if n == 1 && l[0] == 104 {
            assert(lv == code_of(SemanticFreq::Hour));
            Ok(SemanticFreq::Hour)
        } else if n == 1 && l[0] == 100 {
            assert(lv == code_of(SemanticFreq::Day));
            Ok(SemanticFreq::Day)
        } else if n == 1 && l[0] == 119 {
            assert(lv == code_of(SemanticFreq::Week));
            Ok(SemanticFreq::Week)
        } else if n == 2 && l[0] == 109 && l[1] == 111 {
            assert(lv == code_of(SemanticFreq::Month));
            Ok(SemanticFreq::Month)
        } else if n == 1 && l[0] == 121 {
            assert(lv == code_of(SemanticFreq::Year));
            Ok(SemanticFreq::Year)
        } else {
            Err(Error::StrumParse("Matching variant not found".to_owned()))
        }
    }
}

/// A count of semantic units.
#[derive(Debug, Copy, Clone, Hash, PartialEq, Eq, Structural)]
pub struct Freq {
    /// Use i16 since this type is mainly intended for simple semantic
    /// frequencies and want to keep the storage size low.
    count: i16,
    base: SemanticFreq,
}

impl View for Freq {
    type V = (i16, SemanticFreq);

    /// The count and the unit.
    closed spec fn view(&self) -> (i16, SemanticFreq) {
        (self.count, self.base)
    }
}

/// How `Freq` values compare: by unit then by count, reversed, so that the
/// finer frequency is the greater.
pub open spec fn freq_order(a: (i16, SemanticFreq), b: (i16, SemanticFreq)) -> Ordering {
    if rank_of(b.1) < rank_of(a.1) {
        Ordering::Less
    } else if rank_of(b.1) > rank_of(a.1) {
        Ordering::Greater
    } else if b.0 < a.0 {
        Ordering::Less
    } else if b.0 > a.0 {
        Ordering::Greater
    } else {
        Ordering::Equal
    }
}

/// Where a frequency string splits into its count and its unit: before the
/// last two bytes when the second last is not a digit, else before the last.
pub open spec fn freq_split(b: Seq<u8>) -> int {
    if b.len() >= 2 && !is_digit(b[b.len() - 2]) {
        b.len() - 2
    } else {
        b.len() - 1
    }
}

impl Freq {
    pub fn new(count: i16, base: SemanticFreq) -> (r: Self)
        ensures
            r@ == (count, base),
    {
        Self { count, base }
    }

    pub fn count(&self) -> (r: i16)
        ensures
            r == self@.0,
    {
        self.count
    }

    pub fn base(&self) -> (r: SemanticFreq)
        ensures
            r == self@.1,
    {
        self.base
    }

    pub fn millis(count: i16) -> (r: Self)
        ensures
            r@ == (count, SemanticFreq::Millisecond),
    {
        Self::new(count, SemanticFreq::Millisecond)
    }

    pub fn secs(count: i16) -> (r: Self)
        ensures
            r@ == (count, SemanticFreq::Second),
    {
        Self::new(count, SemanticFreq::Second)
    }

    pub fn mins(count: i16) -> (r: Self)
        ensures
            r@ == (count, SemanticFreq::Minute),
    {
        Self::new(count, SemanticFreq::Minute)
    }

    pub fn hours(count: i16) -> (r: Self)
        ensures
            r@ == (count, SemanticFreq::Hour),
    {
        Self::new(count, SemanticFreq::Hour)
    }

    pub fn days(count: i16) -> (r: Self)
        ensures
            r@ == (count, SemanticFreq::Day),
    {
        Self::new(count, SemanticFreq::Day)
    }

    pub fn weeks(count: i16) -> (r: Self)
        ensures
            r@ == (count, SemanticFreq::Week),
    {
        Self::new(count, SemanticFreq::Week)
    }

    pub fn months(count: i16) -> (r: Self)
        ensures
            r@ == (count, SemanticFreq::Month),
    {
        Self::new(count, SemanticFreq::Month)
    }

    pub fn years(count: i16) -> (r: Self)
        ensures
            r@ == (count, SemanticFreq::Year),
    {
        Self::new(count, SemanticFreq::Year)
    }

    /// The time operation that moves a time on by this frequency.
    pub fn to_timeop(&self) -> (r: TimeOp)
        ensures
            r@.0 == top_of(self@.1),
            r@.1 == (if self@.1 == SemanticFreq::Week {
                7 * self@.0
            } else {
                self@.0 as int
            }),
    {
        let mul: i64 = if matches!(self.base, SemanticFreq::Week) {
            7
        } else {
            1
        };
        TimeOp::new(self.base.to_top(), mul * (self.count as i64))
    }

    /// The approximate length of one cycle, in milliseconds.
    pub fn approx_cycle_millis(&self) -> (r: i64)
        ensures
            r == self@.0 * approx_millis_of(self@.1),
    {
        let m = self.base.approx_millis();
        assert(-32768 * 31536000000 <= self.count * m <= 32767 * 31536000000) by (nonlinear_arith)
            requires
                -32768 <= self.count <= 32767,
                1 <= m <= 31536000000,
        ;
        (self.count as i64) * m
    }

    /// The approximate length of one cycle.
    pub fn approx_cycle_duration(&self) -> (r: Duration)
        ensures
            r@ == normal_form(((self@.0 * approx_millis_of(self@.1)) as i128, 3u32)),
    {
        let ms = self.approx_cycle_millis();
        assert(dec_ok((ms as i128, 3u32)));
        Duration::from_parts((ms as i128, 3))
    }

    /// Reads a frequency such as "1d", "15m" or "2mo": a count, then a unit
    /// code in any ASCII case.
    pub fn parse(s: &str) -> (r: Result<Freq>)
        ensures
            ({
                let b = s.spec_bytes();
                let k = freq_split(b);
                if b.len() == 0 {
                    r matches Err(Error::FrequencyParse(_))
                } else if parsed_i16(b.subrange(0, k)) is None {
                    r matches Err(Error::IntParse(_))
                } else if unit_of(b.subrange(k, b.len() as int)) is None {
                    r matches Err(Error::StrumParse(_))
                } else {
                    r is Ok && r.unwrap()@ == (
                        parsed_i16(b.subrange(0, k)).unwrap(),
                        unit_of(b.subrange(k, b.len() as int)).unwrap(),
                    )
                }
            }),
    {
        let b = s.as_bytes();
        let n = b.len();
        if n == 0 {
            return Err(Error::FrequencyParse("empty string".to_owned()));
        }
        let k = if n >= 2 && !(48 <= b[n - 2] && b[n - 2] <= 57) {
            n - 2
        } else {
            n - 1
        };
        let count = match parse_i16(&b[0..k]) {
            Some(c) => c,
            None => {
                return Err(Error::IntParse("invalid digit found in string".to_owned()));
            },
        };
        let base = match SemanticFreq::from_code(&b[k..n]) {
            Ok(f) => f,
            Err(e) => {
                return Err(e);
            },
        };
        Ok(Freq::new(count, base))
    }
}

/// `r` moves a time by `k` units of `base`: days, weeks, months and years
/// move the date and keep the time of day.
pub open spec fn is_freq_step(k: int, base: SemanticFreq, r: TimeStep) -> bool {
    match base {
        SemanticFreq::Millisecond => r == TimeStep::AddMillis(k as i64),
        SemanticFreq::Second => r == TimeStep::AddSecs(k as i64),
        SemanticFreq::Minute => r == TimeStep::AddMins(k as i64),
        SemanticFreq::Hour => r == TimeStep::AddHours(k as i64),
        SemanticFreq::Day => r matches TimeStep::OnDate(d) && d@ == (DOp::AddDays, k as i64),
        SemanticFreq::Week => r matches TimeStep::OnDate(d) && d@ == (DOp::AddDays, (7 * k) as i64),
        SemanticFreq::Month => r matches TimeStep::OnDate(d) && d@ == (DOp::AddMonths, k as i64),
        SemanticFreq::Year => r matches TimeStep::OnDate(d) && d@ == (DOp::AddYears, k as i64),
    }
}

/// The step that moves a time by `k` units of `base`.
pub open spec fn freq_step(k: int, base: SemanticFreq) -> TimeStep {
    match base {
        SemanticFreq::Millisecond => TimeStep::AddMillis(k as i64),
        SemanticFreq::Second => TimeStep::AddSecs(k as i64),
        SemanticFreq::Minute => TimeStep::AddMins(k as i64),
        SemanticFreq::Hour => TimeStep::AddHours(k as i64),
        SemanticFreq::Day => TimeStep::OnDate(date_op_of(DOp::AddDays, k as i64)),
        SemanticFreq::Week => TimeStep::OnDate(date_op_of(DOp::AddDays, (7 * k) as i64)),
        SemanticFreq::Month => TimeStep::OnDate(date_op_of(DOp::AddMonths, k as i64)),
        SemanticFreq::Year => TimeStep::OnDate(date_op_of(DOp::AddYears, k as i64)),
    }
}

impl Freq {
    /// The time one cycle after `t`: milliseconds, seconds, minutes and hours
    /// move the instant; days, weeks, months and years move the date and keep
    /// the wall-clock time.
    pub fn next(&self, t: &Time) -> (r: Time)
        requires
            step_ok(*t, freq_step(self@.0 as int, self@.1)),
        ensures
            step_holds(*t, freq_step(self@.0 as int, self@.1), r),
    {
        t.apply_step(self.next_step())
    }

    /// The time one cycle before `t`.
    pub fn prev(&self, t: &Time) -> (r: Time)
        requires
            self@.0 > i16::MIN,
            step_ok(*t, freq_step(-self@.0, self@.1)),
        ensures
            step_holds(*t, freq_step(-self@.0, self@.1), r),
    {
        t.apply_step(self.prev_step())
    }

    /// How `next` moves a time: forwards by one cycle.
    pub fn next_step(&self) -> (r: TimeStep)
        ensures
            is_freq_step(self@.0 as int, self@.1, r),
            r == freq_step(self@.0 as int, self@.1),
    {
        Self::step_by(self.count as i32, self.base)
    }

    /// How `prev` moves a time: backwards by one cycle.
    pub fn prev_step(&self) -> (r: TimeStep)
        requires
            self@.0 > i16::MIN,
        ensures
            is_freq_step(-self@.0, self@.1, r),
            r == freq_step(-self@.0, self@.1),
    {
        Self::step_by(-(self.count as i32), self.base)
    }

    /// Moving a time by `k` units of `base`.
    fn step_by(k: i32, base: SemanticFreq) -> (r: TimeStep)
        requires
            -32768 <= k <= 32768,
        ensures
            is_freq_step(k as int, base, r),
            r == freq_step(k as int, base),
    {
        let k64 = k as i64;
        let r = match base {
            SemanticFreq::Millisecond => TimeStep::AddMillis(k64),
            SemanticFreq::Second => TimeStep::AddSecs(k64),
            SemanticFreq::Minute => TimeStep::AddMins(k64),
            SemanticFreq::Hour => TimeStep::AddHours(k64),
            SemanticFreq::Day => TimeStep::OnDate(DateOp::add_days(k64)),
            SemanticFreq::Week => TimeStep::OnDate(DateOp::add_days(7 * k64)),
            SemanticFreq::Month => TimeStep::OnDate(DateOp::add_months(k64)),
            SemanticFreq::Year => TimeStep::OnDate(DateOp::add_years(k64)),
        };
        proof {
            if let TimeStep::OnDate(d) = r {
                lemma_date_op_of(d);
            }
        }
        r
    }
}

/// The frequency of `count` units of `base`.
pub closed spec fn freq_of(count: i16, base: SemanticFreq) -> Freq {
    Freq { count, base }
}

/// A frequency is made of its count and base.
pub broadcast proof fn lemma_freq_of(count: i16, base: SemanticFreq)
    ensures
        #[trigger] freq_of(count, base)@ == (count, base),
{
}

impl MulSpecImpl<i64> for Freq {
    open spec fn obeys_mul_spec() -> bool {
        true
    }

    /// The factor is a count, and the product too.
    open spec fn mul_req(self, rhs: i64) -> bool {
        i16::MIN <= rhs <= i16::MAX && i16::MIN <= self@.0 * rhs <= i16::MAX
    }

    open spec fn mul_spec(self, rhs: i64) -> Freq {
        freq_of((self@.0 * rhs) as i16, self@.1)
    }
}

impl Mul<i64> for Freq {
    type Output = Freq;

    /// The frequency with its count multiplied by `rhs`.
    fn mul(self, rhs: i64) -> (r: Freq) {
        Freq { count: self.count * (rhs as i16), base: self.base }
    }
}

impl MulSpecImpl<Freq> for i64 {
    open spec fn obeys_mul_spec() -> bool {
        true
    }

    open spec fn mul_req(self, rhs: Freq) -> bool {
        i16::MIN <= self <= i16::MAX && i16::MIN <= rhs@.0 * self <= i16::MAX
    }

    open spec fn mul_spec(self, rhs: Freq) -> Freq {
        freq_of((rhs@.0 * self) as i16, rhs@.1)
    }
}

impl Mul<Freq> for i64 {
    type Output = Freq;

    fn mul(self, rhs: Freq) -> (r: Freq) {
        rhs * self
    }
}

impl FromStr for Freq {
    type Err = Error;

    fn from_str(s: &str) -> Result<Freq> {
        Freq::parse(s)
    }
}

impl PartialOrdSpecImpl for Freq {
    open spec fn obeys_partial_cmp_spec() -> bool {
        true
    }

    open spec fn partial_cmp_spec(&self, other: &Self) -> Option<Ordering> {
        Some(freq_order(self@, other@))
    }
}

impl PartialOrd for Freq {
    fn partial_cmp(&self, other: &Self) -> (r: Option<Ordering>) {
        let ra = self.base.rank();
        let rb = other.base.rank();
        if rb < ra {
            Some(Ordering::Less)
        } else if rb > ra {
            Some(Ordering::Greater)
        } else if other.count < self.count {
            Some(Ordering::Less)
        } else if other.count > self.count {
            Some(Ordering::Greater)
        } else {
            Some(Ordering::Equal)
        }
    }
}

impl SemanticFreq {
    /// The position of the unit from the shortest to the longest.
    fn rank(&self) -> (r: u8)
        ensures
            r == rank_of(*self),
    {
        match *self {
            SemanticFreq::Millisecond => 0,
            SemanticFreq::Second => 1,
            SemanticFreq::Minute => 2,
            SemanticFreq::Hour => 3,
            SemanticFreq::Day => 4,
            SemanticFreq::Week => 5,
            SemanticFreq::Month => 6,
            SemanticFreq::Year => 7,
        }
    }
}

} // verus!
