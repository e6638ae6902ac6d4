use std::cmp::Ordering;
use std::ops::{Div, Mul};
use std::str::FromStr;

use rust_decimal::Decimal;
use vstd::prelude::*;
use vstd::std_specs::cmp::{PartialEqSpecImpl, PartialOrdSpecImpl};
use vstd::std_specs::ops::{DivSpecImpl, MulSpecImpl};
use vstd::string::StringSliceAdditionalSpecFns;

use crate::cycles::{cycles_of, Cycles};
use crate::duration::{
    bases_view, dec_div, dec_mul, dec_ok, dec_order, dec_same, decimal_from_parts, decimal_of,
    decimal_parts, decimal_parts_of, decimal_product, decimal_quotient, decimal_text,
    duration_of, duration_order, from_human_spec, human_text, lemma_duration_is_of_view,
    lemma_normal_form, normal_form, push_count, Duration,
};
use crate::error::{Error, Result};
use crate::parse::push_text;

verus! {

/// What `Decimal::from_str` reads from the text with bytes `b`: the parts of
/// the number, if it reads one.
pub uninterp spec fn decimal_read(b: Seq<u8>) -> Option<(i128, u32)>;

/// `Decimal::from_str` on the text with bytes `b`; `None` where the bytes are
/// not a text or rust_decimal cannot read a number from it.
#[verifier::external_body]
fn dec_read(b: &[u8]) -> (r: Option<(i128, u32)>)
    ensures
        r == decimal_read(b@),
        r matches Some(v) ==> dec_ok(v),
{
    match std::str::from_utf8(b) {
        Ok(s) => match Decimal::from_str(s) {
            Ok(d) => Some((d.mantissa(), d.scale())),
            Err(_) => None,
        },
        Err(_) => None,
    }
}

/// An ASCII white space byte, as `char::is_whitespace` has them.
pub open spec fn is_ascii_white(c: u8) -> bool {
    c == 32 || (9 <= c <= 13)
}

/// The three bytes are the UTF-8 form of a white space character that
/// `char::is_whitespace` has: U+1680, U+2000 to U+200A, U+2028, U+2029,
/// U+202F, U+205F or U+3000.
pub open spec fn is_white3(x: u8, y: u8, z: u8) -> bool {
    ||| x == 0xE1 && y == 0x9A && z == 0x80
    ||| x == 0xE2 && y == 0x80 && ((0x80 <= z <= 0x8A) || z == 0xA8 || z == 0xA9 || z == 0xAF)
    ||| x == 0xE2 && y == 0x81 && z == 0x9F
    ||| x == 0xE3 && y == 0x80 && z == 0x80
}

/// The two bytes are the UTF-8 form of U+0085 or U+00A0.
pub open spec fn is_white2(x: u8, y: u8) -> bool {
    x == 0xC2 && (y == 0x85 || y == 0xA0)
}

/// The length in bytes of the white space character (as
/// `char::is_whitespace` has them) that starts at `i` in `s`; 0 where none
/// does.
pub open spec fn white_len_at(s: Seq<u8>, i: int) -> int {
    if 0 <= i < s.len() && is_ascii_white(s[i]) {
        1
    } else if 0 <= i && i + 1 < s.len() && is_white2(s[i], s[i + 1]) {
        2
    } else if 0 <= i && i + 2 < s.len() && is_white3(s[i], s[i + 1], s[i + 2]) {
        3
    } else {
        0
    }
}

/// The length in bytes of the white space character that ends just before
/// `j` in `s`; 0 where none does.
pub open spec fn white_len_end(s: Seq<u8>, j: int) -> int {
    if 1 <= j <= s.len() && is_ascii_white(s[j - 1]) {
        1
    } else if 2 <= j <= s.len() && is_white2(s[j - 2], s[j - 1]) {
        2
    } else if 3 <= j <= s.len() && is_white3(s[j - 3], s[j - 2], s[j - 1]) {
        3
    } else {
        0
    }
}

/// The first position at or after `i` where no white space character starts.
pub open spec fn skip_white_from(b: Seq<u8>, i: int) -> int
    decreases b.len() - i,
{
    if i < 0 || i >= b.len() {
        b.len() as int
    } else if white_len_at(b, i) == 0 {
        i
    } else {
        skip_white_from(b, i + white_len_at(b, i))
    }
}

/// The end of the part of `b` before `j` once white space characters at its
/// end are left out.
pub open spec fn trim_end_at(b: Seq<u8>, j: int) -> int
    decreases j,
{
    if j <= 0 || j > b.len() {
        0
    } else if white_len_end(b, j) == 0 {
        j
    } else {
        trim_end_at(b, j - white_len_end(b, j))
    }
}

/// `b` without white space characters (as `str::trim` has them) at its
/// start and then at its end.
pub open spec fn trim_bytes(b: Seq<u8>) -> Seq<u8> {
    let rest = b.subrange(skip_white_from(b, 0), b.len() as int);
    rest.subrange(0, trim_end_at(rest, rest.len() as int))
}

/// The first position of a colon in `b` at or after `i`.
pub open spec fn colon_from(b: Seq<u8>, i: int) -> int
    decreases b.len() - i,
{
    if i >= b.len() {
        b.len() as int
    } else if b[i] == 58 {
        i
    } else {
        colon_from(b, i + 1)
    }
}

/// What `from_human` reads from the bytes `b`: the number of cycles and the
/// duration they take, `count:duration` or a duration alone for one cycle.
pub open spec fn freq_text_parts(b: Seq<u8>) -> (Option<(i128, u32)>, Option<(i128, u32)>) {
    let i = colon_from(b, 0);
    if i < b.len() {
        (
            decimal_read(trim_bytes(b.subrange(0, i))),
            from_human_spec(trim_bytes(b.subrange(i + 1, b.len() as int))),
        )
    } else {
        (Some((1i128, 0u32)), from_human_spec(b))
    }
}

/// The length of the white space character starting at `i` in `t`.
fn white_len_at_exec(t: &Vec<u8>, i: usize) -> (r: usize)
    ensures
        r == white_len_at(t@, i as int),
{
    let n = t.len();
    if i < n && (t[i] == 32 || (9 <= t[i] && t[i] <= 13)) {
        1
    } else if i < n && n - i > 1 && t[i] == 0xC2 && (t[i + 1] == 0x85 || t[i + 1] == 0xA0) {
        2
    } else if i < n && n - i > 2 && is_white3_exec(t[i], t[i + 1], t[i + 2]) {
        3
    } else {
        0
    }
}

/// The length of the white space character ending just before `j` in `t`.
fn white_len_end_exec(t: &Vec<u8>, j: usize) -> (r: usize)
    ensures
        r == white_len_end(t@, j as int),
{
    let n = t.len();
    if 1 <= j && j <= n && (t[j - 1] == 32 || (9 <= t[j - 1] && t[j - 1] <= 13)) {
        1
    } else if 2 <= j && j <= n && t[j - 2] == 0xC2 && (t[j - 1] == 0x85 || t[j - 1] == 0xA0) {
        2
    } else if 3 <= j && j <= n && is_white3_exec(t[j - 3], t[j - 2], t[j - 1]) {
        3
    } else {
        0
    }
}

/// The three bytes are the UTF-8 form of a white space character.
fn is_white3_exec(x: u8, y: u8, z: u8) -> (r: bool)
    ensures
        r == is_white3(x, y, z),
{
    (x == 0xE1 && y == 0x9A && z == 0x80) || (x == 0xE2 && y == 0x80 && ((0x80 <= z && z
        <= 0x8A) || z == 0xA8 || z == 0xA9 || z == 0xAF)) || (x == 0xE2 && y == 0x81 && z
        == 0x9F) || (x == 0xE3 && y == 0x80 && z == 0x80)
}

/// A copy of `b[a..e]`.
fn copy_range(b: &[u8], a: usize, e: usize) -> (r: Vec<u8>)
    requires
        a <= e <= b@.len(),
    ensures
        r@ == b@.subrange(a as int, e as int),
{
    let mut out: Vec<u8> = Vec::new();
    let mut k = a;
    while k < e
        invariant
            a <= k <= e <= b@.len(),
            out@ == b@.subrange(a as int, k as int),
        decreases e - k,
    {
        out.push(b[k]);
        k += 1;
    }
    out
}

/// The bytes of `b` from `a` to `e` without white space characters at
/// either end.
fn trim_slice(b: &[u8], a: usize, e: usize) -> (r: Vec<u8>)
    requires
        a <= e <= b@.len(),
    ensures
        r@ == trim_bytes(b@.subrange(a as int, e as int)),
{
    let t = copy_range(b, a, e);
    let mut i: usize = 0;
    while i < t.len() && white_len_at_exec(&t, i) != 0
        invariant
            0 <= i <= t@.len(),
            skip_white_from(t@, 0) == skip_white_from(t@, i as int),
        decreases t@.len() - i,
    {
        i += white_len_at_exec(&t, i);
    }
    let rest = copy_range(t.as_slice(), i, t.len());
    let mut j: usize = rest.len();
    while j > 0 && white_len_end_exec(&rest, j) != 0
        invariant
            0 <= j <= rest@.len(),
            trim_end_at(rest@, rest@.len() as int) == trim_end_at(rest@, j as int),
        decreases j,
    {
        j -= white_len_end_exec(&rest, j);
    }
    copy_range(rest.as_slice(), 0, j)
}


/// A frequency: a number of cycles per a duration, held as the parts of two
/// decimal numbers, neither of them zero.
#[derive(Debug, Copy, Clone, Eq)]
pub struct FixedFreq {
    nm: i128,
    ns: u32,
    dm: i128,
    ds: u32,
}

impl View for FixedFreq {
    type V = ((i128, u32), (i128, u32));

    /// The parts of the number of cycles and of the duration in seconds.
    closed spec fn view(&self) -> ((i128, u32), (i128, u32)) {
        ((self.nm, self.ns), (self.dm, self.ds))
    }
}

/// The frequency of `num` cycles per `denom` seconds.
pub closed spec fn fixed_freq_of(num: (i128, u32), denom: (i128, u32)) -> FixedFreq {
    FixedFreq { nm: num.0, ns: num.1, dm: denom.0, ds: denom.1 }
}

/// The view of the frequency of some parts is those parts.
pub proof fn lemma_fixed_freq_of(num: (i128, u32), denom: (i128, u32))
    ensures
        #[trigger] fixed_freq_of(num, denom)@ == (num, denom),
{
}

/// The cross products that compare two frequencies: the first's cycles times
/// the second's duration, and the second's cycles times the first's duration.
pub open spec fn cross(a: ((i128, u32), (i128, u32)), b: ((i128, u32), (i128, u32))) -> (
    Option<(i128, u32)>,
    Option<(i128, u32)>,
) {
    (decimal_product(a.0, b.1), decimal_product(b.0, a.1))
}

impl FixedFreq {
    #[verifier::type_invariant]
    spec fn inv(self) -> bool {
        dec_ok((self.nm, self.ns)) && dec_ok((self.dm, self.ds)) && self.nm != 0 && self.dm != 0
    }

    /// The frequency of `num` cycles per `denom` seconds.
    fn from_parts(num: (i128, u32), denom: (i128, u32)) -> (r: Self)
        requires
            dec_ok(num),
            dec_ok(denom),
            num.0 != 0,
            denom.0 != 0,
        ensures
            r == fixed_freq_of(num, denom),
    {
        FixedFreq { nm: num.0, ns: num.1, dm: denom.0, ds: denom.1 }
    }

    /// The parts of the cycles and the duration.
    pub fn parts(&self) -> (r: ((i128, u32), (i128, u32)))
        ensures
            r == self@,
            dec_ok(r.0) && dec_ok(r.1) && r.0.0 != 0 && r.1.0 != 0,
    {
        proof {
            use_type_invariant(self);
        }
        ((self.nm, self.ns), (self.dm, self.ds))
    }

    /// `hz` cycles per second.
    pub fn from_hz(hz: Decimal) -> (r: Self)
        requires
            decimal_parts_of(hz).0 != 0,
        ensures
            r@ == (decimal_parts_of(hz), (1i128, 0u32)),
    {
        FixedFreq::from_parts(decimal_parts(&hz), (1, 0))
    }

    /// `hz` cycles per second, where `hz` is not zero: a zero frequency has
    /// no cycle duration, so the type holds none.
    pub fn try_from_hz(hz: Decimal) -> (r: Option<Self>)
        ensures
            decimal_parts_of(hz).0 != 0 ==> (r matches Some(f) && f@ == (
                decimal_parts_of(hz),
                (1i128, 0u32),
            )),
            decimal_parts_of(hz).0 == 0 ==> r is None,
    {
        let p = decimal_parts(&hz);
        if p.0 == 0 {
            None
        } else {
            Some(FixedFreq::from_hz(hz))
        }
    }

    /// `cyc` cycles per `dur`.
    pub fn new(cyc: Cycles, dur: Duration) -> (r: Self)
        requires
            cyc@.0 != 0,
            dur@.0 != 0,
        ensures
            r == fixed_freq_of(cyc@, dur@),
    {
        FixedFreq::from_parts(cyc.count_parts(), dur.parts())
    }

    /// The number of cycles.
    pub fn num(&self) -> (r: Decimal)
        ensures
            r == decimal_from_parts(self@.0),
    {
        decimal_of(self.parts().0)
    }

    /// The duration of the cycles, in seconds.
    pub fn denom(&self) -> (r: Decimal)
        ensures
            r == decimal_from_parts(self@.1),
    {
        decimal_of(self.parts().1)
    }

    /// The duration of one cycle.
    pub fn cycle_duration(&self) -> (r: Duration)
        requires
            decimal_quotient(self@.1, self@.0) is Some,
        ensures
            r@ == normal_form(decimal_quotient(self@.1, self@.0).unwrap()),
    {
        let (n, d) = self.parts();
        Duration::from_parts(dec_div(d, n).unwrap())
    }

    /// Cycles per second.
    pub fn hz(&self) -> (r: Decimal)
        requires
            decimal_quotient(self@.0, self@.1) is Some,
        ensures
            r == decimal_from_parts(decimal_quotient(self@.0, self@.1).unwrap()),
    {
        let (n, d) = self.parts();
        decimal_of(dec_div(n, d).unwrap())
    }

    /// The duration of one cycle; `None` where the quotient overflows.
    pub fn checked_cycle_duration(&self) -> (r: Option<Duration>)
        ensures
            match decimal_quotient(self@.1, self@.0) {
                Some(q) => r is Some && r.unwrap()@ == normal_form(q),
                None => r is None,
            },
    {
        let (n, d) = self.parts();
        match dec_div(d, n) {
            Some(_) => Some(self.cycle_duration()),
            None => None,
        }
    }

    /// Cycles per second; `None` where the quotient overflows.
    pub fn checked_hz(&self) -> (r: Option<Decimal>)
        ensures
            match decimal_quotient(self@.0, self@.1) {
                Some(q) => r == Some(decimal_from_parts(q)),
                None => r is None,
            },
    {
        let (n, d) = self.parts();
        match dec_div(n, d) {
            Some(_) => Some(self.hz()),
            None => None,
        }
    }

    /// The frequency written as its duration in the standard units, after its
    /// number of cycles and a colon where that number is not one.
    pub fn human(&self) -> (r: Result<String>)
        ensures
            match human_text(normal_form(self@.1), crate::duration::std_bases()) {
                Some(t) => r is Ok && r.unwrap()@ == (if dec_same(self@.0, (1i128, 0u32)) {
                    t
                } else {
                    decimal_text(self@.0) + ":"@ + t
                }),
                None => r matches Err(Error::DurationParse(_)),
            },
    {
        let bases = Duration::bases();
        self.human_bases(bases.as_slice())
    }

    /// The frequency written as its duration in the units of `bases`, after
    /// its number of cycles and a colon where that number is not one.
    pub fn human_bases(&self, bases: &[(&str, Duration)]) -> (r: Result<String>)
        ensures
            match human_text(normal_form(self@.1), bases_view(bases@)) {
                Some(t) => r is Ok && r.unwrap()@ == (if dec_same(self@.0, (1i128, 0u32)) {
                    t
                } else {
                    decimal_text(self@.0) + ":"@ + t
                }),
                None => r matches Err(Error::DurationParse(_)),
            },
    {
        let (n, d) = self.parts();
        let dur_human = match Duration::from_parts(d).human_bases(bases) {
            Ok(t) => t,
            Err(e) => {
                return Err(e);
            },
        };
        match dec_order(n, (1, 0)) {
            Ordering::Equal => Ok(dur_human),
            _ => {
                let mut out = String::new();
                push_count(&mut out, n, ":");
                push_text(&mut out, dur_human.as_str());
                Ok(out)
            },
        }
    }

    /// Reads a frequency written as `count:duration`, as in `2:1s`, or as a
    /// duration alone for one cycle per that duration; white space around
    /// the count and the duration is left out.
    pub fn from_human(human: &str) -> (r: Result<FixedFreq>)
        ensures
            match freq_text_parts(human.spec_bytes()) {
                (None, _) => r matches Err(Error::DecimalParse(_)),
                (Some(_), None) => r matches Err(Error::DurationParse(_)),
                (Some(n), Some(d)) => if n.0 == 0 || d.0 == 0 {
                    r matches Err(Error::FrequencyParse(_))
                } else {
                    r is Ok && r.unwrap() == fixed_freq_of(n, d)
                },
            },
    {
        FixedFreq::from_human_bytes(human.as_bytes())
    }

    /// Reads a frequency from the bytes of its text (see `from_human`).
    pub fn from_human_bytes(b: &[u8]) -> (r: Result<FixedFreq>)
        ensures
            match freq_text_parts(b@) {
                (None, _) => r matches Err(Error::DecimalParse(_)),
                (Some(_), None) => r matches Err(Error::DurationParse(_)),
                (Some(n), Some(d)) => if n.0 == 0 || d.0 == 0 {
                    r matches Err(Error::FrequencyParse(_))
                } else {
                    r is Ok && r.unwrap() == fixed_freq_of(n, d)
                },
            },
    {
        let len = b.len();
        let mut i: usize = 0;
        while i < len && b[i] != 58
            invariant
                i <= len,
                len == b@.len(),
                colon_from(b@, 0) == colon_from(b@, i as int),
            decreases len - i,
        {
            i += 1;
        }
        let (num, dur): ((i128, u32), Duration) = if i < len {
            let num_text = trim_slice(b, 0, i);
            let dur_text = trim_slice(b, i + 1, len);
            let num = match dec_read(num_text.as_slice()) {
                Some(v) => v,
                None => {
                    return Err(Error::DecimalParse("invalid count".to_owned()));
                },
            };
            let dur = match Duration::from_human_bytes(dur_text.as_slice()) {
                Ok(d) => d,
                Err(e) => {
                    return Err(e);
                },
            };
            (num, dur)
        } else {
            let dur = match Duration::from_human_bytes(b) {
                Ok(d) => d,
                Err(e) => {
                    return Err(e);
                },
            };
            ((1, 0), dur)
        };
        if num.0 == 0 {
            return Err(Error::FrequencyParse("frequency numerator cannot be zero".to_owned()));
        }
        if dur.is_zero() {
            return Err(Error::FrequencyParse("frequency duration cannot be zero".to_owned()));
        }
        let r = FixedFreq::from_parts(num, dur.parts());
        Ok(r)
    }

    /// One cycle per attosecond.
    pub fn atto() -> (r: Self)
        ensures
            r@ == ((1i128, 0u32), (1i128, 18u32)),
    {
        FixedFreq::from_parts((1, 0), (1, 18))
    }

    /// One cycle per femtosecond.
    pub fn femto() -> (r: Self)
        ensures
            r@ == ((1i128, 0u32), (1i128, 15u32)),
    {
        FixedFreq::from_parts((1, 0), (1, 15))
    }

    /// One cycle per picosecond.
    pub fn pico() -> (r: Self)
        ensures
            r@ == ((1i128, 0u32), (1i128, 12u32)),
    {
        FixedFreq::from_parts((1, 0), (1, 12))
    }

    /// One cycle per nanosecond.
    pub fn nano() -> (r: Self)
        ensures
            r@ == ((1i128, 0u32), (1i128, 9u32)),
    {
        FixedFreq::from_parts((1, 0), (1, 9))
    }

    /// One cycle per microsecond.
    pub fn micro() -> (r: Self)
        ensures
            r@ == ((1i128, 0u32), (1i128, 6u32)),
    {
        FixedFreq::from_parts((1, 0), (1, 6))
    }

    /// One cycle per millisecond.
    pub fn milli() -> (r: Self)
        ensures
            r@ == ((1i128, 0u32), (1i128, 3u32)),
    {
        FixedFreq::from_parts((1, 0), (1, 3))
    }

    /// One cycle per second.
    pub fn sec() -> (r: Self)
        ensures
            r@ == ((1i128, 0u32), (1i128, 0u32)),
    {
        FixedFreq::from_parts((1, 0), (1, 0))
    }

    /// One cycle per minute.
    pub fn min() -> (r: Self)
        ensures
            r@ == ((1i128, 0u32), (60i128, 0u32)),
    {
        FixedFreq::from_parts((1, 0), (60, 0))
    }

    /// One cycle per hour.
    pub fn hourly() -> (r: Self)
        ensures
            r@ == ((1i128, 0u32), (3600i128, 0u32)),
    {
        FixedFreq::from_parts((1, 0), (3600, 0))
    }

    /// One cycle per day.
    pub fn daily() -> (r: Self)
        ensures
            r@ == ((1i128, 0u32), (86400i128, 0u32)),
    {
        FixedFreq::from_parts((1, 0), (86400, 0))
    }

    /// One cycle per week.
    pub fn weekly() -> (r: Self)
        ensures
            r@ == ((1i128, 0u32), (604800i128, 0u32)),
    {
        FixedFreq::from_parts((1, 0), (604800, 0))
    }
}

impl PartialEqSpecImpl for FixedFreq {
    open spec fn obeys_eq_spec() -> bool {
        true
    }

    /// Frequencies are equal when their cross products have the same value;
    /// where a cross product overflows they are taken as unequal.
    open spec fn eq_spec(&self, other: &Self) -> bool {
        match cross(self@, other@) {
            (Some(a), Some(b)) => dec_same(a, b),
            _ => false,
        }
    }
}

impl PartialEq for FixedFreq {
    fn eq(&self, other: &Self) -> (r: bool) {
        let (an, ad) = self.parts();
        let (bn, bd) = other.parts();
        match (dec_mul(an, bd), dec_mul(bn, ad)) {
            (Some(a), Some(b)) => match dec_order(a, b) {
                Ordering::Equal => true,
                _ => false,
            },
            _ => false,
        }
    }
}

impl PartialOrdSpecImpl for FixedFreq {
    open spec fn obeys_partial_cmp_spec() -> bool {
        true
    }

    /// Frequencies compare as their cross products; where a cross product
    /// overflows they do not compare.
    open spec fn partial_cmp_spec(&self, other: &Self) -> Option<Ordering> {
        match cross(self@, other@) {
            (Some(a), Some(b)) => Some(duration_order(a, b)),
            _ => None,
        }
    }
}

impl PartialOrd for FixedFreq {
    fn partial_cmp(&self, other: &Self) -> (r: Option<Ordering>) {
        let (an, ad) = self.parts();
        let (bn, bd) = other.parts();
        match (dec_mul(an, bd), dec_mul(bn, ad)) {
            (Some(a), Some(b)) => Some(dec_order(a, b)),
            _ => None,
        }
    }
}

/// The ratio of two frequencies, by way of their cross products.
pub open spec fn freq_ratio(a: ((i128, u32), (i128, u32)), b: ((i128, u32), (i128, u32))) -> Option<
    (i128, u32),
> {
    match cross(a, b) {
        (Some(x), Some(y)) => decimal_quotient(x, y),
        _ => None,
    }
}

impl DivSpecImpl for FixedFreq {
    open spec fn obeys_div_spec() -> bool {
        true
    }

    open spec fn div_req(self, rhs: FixedFreq) -> bool {
        freq_ratio(self@, rhs@) is Some
    }

    open spec fn div_spec(self, rhs: FixedFreq) -> Decimal {
        decimal_from_parts(freq_ratio(self@, rhs@).unwrap())
    }
}

impl Div for FixedFreq {
    type Output = Decimal;

    /// How many times `rhs` this frequency is.
    fn div(self, rhs: FixedFreq) -> (r: Decimal) {
        let (an, ad) = self.parts();
        let (bn, bd) = rhs.parts();
        let x = dec_mul(an, bd).unwrap();
        let y = dec_mul(bn, ad).unwrap();
        decimal_of(dec_div(x, y).unwrap())
    }
}

/// The count `c` times the duration `d` over the count `n`.
pub open spec fn scaled(c: (i128, u32), d: (i128, u32), n: (i128, u32)) -> Option<(i128, u32)> {
    match decimal_product(c, d) {
        Some(p) => decimal_quotient(p, n),
        None => None,
    }
}

impl DivSpecImpl<FixedFreq> for Cycles {
    open spec fn obeys_div_spec() -> bool {
        true
    }

    open spec fn div_req(self, rhs: FixedFreq) -> bool {
        scaled(self@, rhs@.1, rhs@.0) is Some
    }

    open spec fn div_spec(self, rhs: FixedFreq) -> Duration {
        duration_of(normal_form(scaled(self@, rhs@.1, rhs@.0).unwrap()))
    }
}

impl Div<FixedFreq> for Cycles {
    type Output = Duration;

    /// How long this many cycles take at the frequency `rhs`.
    fn div(self, rhs: FixedFreq) -> (r: Duration) {
        let (n, d) = rhs.parts();
        let p = dec_mul(self.count_parts(), d).unwrap();
        let r = Duration::from_parts(dec_div(p, n).unwrap());
        proof {
            lemma_duration_is_of_view(r);
        }
        r
    }
}

impl MulSpecImpl<Duration> for FixedFreq {
    open spec fn obeys_mul_spec() -> bool {
        true
    }

    open spec fn mul_req(self, rhs: Duration) -> bool {
        scaled(rhs@, self@.0, self@.1) is Some
    }

    open spec fn mul_spec(self, rhs: Duration) -> Cycles {
        cycles_of(normal_form(scaled(rhs@, self@.0, self@.1).unwrap()))
    }
}

impl Mul<Duration> for FixedFreq {
    type Output = Cycles;

    /// How many cycles happen in `rhs` at this frequency.
    fn mul(self, rhs: Duration) -> (r: Cycles) {
        let (n, d) = self.parts();
        let p = dec_mul(rhs.parts(), n).unwrap();
        Cycles::from_parts(dec_div(p, d).unwrap())
    }
}

impl MulSpecImpl<FixedFreq> for Duration {
    open spec fn obeys_mul_spec() -> bool {
        true
    }

    open spec fn mul_req(self, rhs: FixedFreq) -> bool {
        scaled(self@, rhs@.0, rhs@.1) is Some
    }

    open spec fn mul_spec(self, rhs: FixedFreq) -> Cycles {
        cycles_of(normal_form(scaled(self@, rhs@.0, rhs@.1).unwrap()))
    }
}

impl Mul<FixedFreq> for Duration {
    type Output = Cycles;

    fn mul(self, rhs: FixedFreq) -> (r: Cycles) {
        rhs * self
    }
}

impl MulSpecImpl<Cycles> for FixedFreq {
    open spec fn obeys_mul_spec() -> bool {
        true
    }

    open spec fn mul_req(self, rhs: Cycles) -> bool {
        scaled(rhs@, self@.1, self@.0) is Some
    }

    open spec fn mul_spec(self, rhs: Cycles) -> Duration {
        duration_of(normal_form(scaled(rhs@, self@.1, self@.0).unwrap()))
    }
}

impl Mul<Cycles> for FixedFreq {
    type Output = Duration;

    /// How long `rhs` cycles take at this frequency.
    fn mul(self, rhs: Cycles) -> (r: Duration) {
        rhs / self
    }
}

impl MulSpecImpl<FixedFreq> for Cycles {
    open spec fn obeys_mul_spec() -> bool {
        true
    }

    open spec fn mul_req(self, rhs: FixedFreq) -> bool {
        scaled(self@, rhs@.1, rhs@.0) is Some
    }

    open spec fn mul_spec(self, rhs: FixedFreq) -> Duration {
        duration_of(normal_form(scaled(self@, rhs@.1, rhs@.0).unwrap()))
    }
}

impl Mul<FixedFreq> for Cycles {
    type Output = Duration;

    fn mul(self, rhs: FixedFreq) -> (r: Duration) {
        self / rhs
    }
}

impl MulSpecImpl<i64> for FixedFreq {
    open spec fn obeys_mul_spec() -> bool {
        true
    }

    /// The product of the cycles and the factor is a nonzero number.
    open spec fn mul_req(self, rhs: i64) -> bool {
        decimal_product(self@.0, (rhs as i128, 0u32)) matches Some(v) && v.0 != 0
    }

    open spec fn mul_spec(self, rhs: i64) -> FixedFreq {
        fixed_freq_of(decimal_product(self@.0, (rhs as i128, 0u32)).unwrap(), self@.1)
    }
}

impl Mul<i64> for FixedFreq {
    type Output = FixedFreq;

    /// The frequency with `rhs` times the cycles.
    fn mul(self, rhs: i64) -> (r: FixedFreq) {
        let (n, d) = self.parts();
        FixedFreq::from_parts(dec_mul(n, (rhs as i128, 0)).unwrap(), d)
    }
}

impl DivSpecImpl<i64> for FixedFreq {
    open spec fn obeys_div_spec() -> bool {
        true
    }

    /// The product of the duration and the divisor is a nonzero number.
    open spec fn div_req(self, rhs: i64) -> bool {
        decimal_product(self@.1, (rhs as i128, 0u32)) matches Some(v) && v.0 != 0
    }

    open spec fn div_spec(self, rhs: i64) -> FixedFreq {
        fixed_freq_of(self@.0, decimal_product(self@.1, (rhs as i128, 0u32)).unwrap())
    }
}

impl Div<i64> for FixedFreq {
    type Output = FixedFreq;

    /// The frequency with `rhs` times the duration.
    fn div(self, rhs: i64) -> (r: FixedFreq) {
        let (n, d) = self.parts();
        FixedFreq::from_parts(n, dec_mul(d, (rhs as i128, 0)).unwrap())
    }
}

impl FromStr for FixedFreq {
    type Err = Error;

    fn from_str(s: &str) -> Result<FixedFreq> {
        FixedFreq::from_human(s)
    }
}

} // verus!
