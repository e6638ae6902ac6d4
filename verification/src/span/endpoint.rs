use std::cmp::Ordering;
use std::ops::{Add, Bound, Sub};

use vstd::prelude::*;
use vstd::std_specs::cmp::{PartialEqSpec, PartialEqSpecImpl, PartialOrdSpec, PartialOrdSpecImpl};
use vstd::std_specs::ops::{AddSpec, AddSpecImpl, SubSpec, SubSpecImpl};

use crate::parse::push_text;

verus! {

/// `std::ops::Bound`, whose variants the endpoint conversions build and read.
#[verifier::external_type_specification]
#[verifier::reject_recursive_types(T)]
pub struct ExBound<T>(Bound<T>);

/// Which side of a span an endpoint sits on.
#[derive(Debug, Eq, PartialEq, Structural, Hash, Copy, Clone)]
pub enum EndpointSide {
    Left,
    Right,
}

/// Represents an endpoint of a span. For comparison, endpoints behave as closed
/// points - that is, an open endpoint should be compared with >= and <=.
#[derive(Debug, Eq, PartialEq, Hash, Copy, Clone)]
pub enum Endpoint<T> {
    /// `side` is whether this endpoint ends on the left or the right side.
    Open { p: T, side: EndpointSide },
    Closed { p: T, side: EndpointSide },
    Unbounded { side: EndpointSide },
}

/// How an endpoint is written around the text `p` of its point: `(p` or
/// `p)` where it is open, `[p` or `p]` where it is closed, and `(-inf` or
/// `+inf)` where it is unbounded.
pub open spec fn endpoint_text<T>(e: Endpoint<T>, p: Seq<char>) -> Seq<char> {
    match e {
        Endpoint::Open { side, .. } => if side == EndpointSide::Left {
            "("@ + p
        } else {
            p + ")"@
        },
        Endpoint::Closed { side, .. } => if side == EndpointSide::Left {
            "["@ + p
        } else {
            p + "]"@
        },
        Endpoint::Unbounded { side } => if side == EndpointSide::Left {
            "(-inf"@
        } else {
            "+inf)"@
        },
    }
}

impl<T> Endpoint<T> {
    /// The endpoint written around `p`, the text of its point.
    pub fn written(&self, p: &str) -> (r: String)
        ensures
            r@ == endpoint_text(*self, p@),
    {
        match self {
            Endpoint::Open { side, .. } => match side {
                EndpointSide::Left => {
                    let mut out = "(".to_owned();
                    push_text(&mut out, p);
                    out
                },
                EndpointSide::Right => {
                    let mut out = p.to_owned();
                    push_text(&mut out, ")");
                    out
                },
            },
            Endpoint::Closed { side, .. } => match side {
                EndpointSide::Left => {
                    let mut out = "[".to_owned();
                    push_text(&mut out, p);
                    out
                },
                EndpointSide::Right => {
                    let mut out = p.to_owned();
                    push_text(&mut out, "]");
                    out
                },
            },
            Endpoint::Unbounded { side } => match side {
                EndpointSide::Left => "(-inf".to_owned(),
                EndpointSide::Right => "+inf)".to_owned(),
            },
        }
    }
}

/// The side an endpoint sits on.
pub open spec fn side_of<T>(e: Endpoint<T>) -> EndpointSide {
    match e {
        Endpoint::Open { side, .. } => side,
        Endpoint::Closed { side, .. } => side,
        Endpoint::Unbounded { side } => side,
    }
}

/// The ordering of two endpoints, following the rule that endpoints compare as
/// closed points: an open left endpoint sits just after its point, an open right
/// endpoint just before it, and unbounded endpoints sit beyond every point.
pub open spec fn endpoint_order<T: PartialOrd>(a: Endpoint<T>, b: Endpoint<T>) -> Option<Ordering> {
    match (a, b) {
        (Endpoint::Open { p: p1, side: s1 }, Endpoint::Open { p: p2, side: s2 }) => {
            match p1.partial_cmp_spec(&p2) {
                Some(Ordering::Equal) => Some(
                    if s1 == s2 {
                        Ordering::Equal
                    } else if s1 == EndpointSide::Left {
                        Ordering::Greater
                    } else {
                        Ordering::Less
                    },
                ),
                x => x,
            }
        },
        (Endpoint::Open { p: p1, side }, Endpoint::Closed { p: p2, .. }) => {
            match p1.partial_cmp_spec(&p2) {
                Some(Ordering::Equal) => Some(
                    if side == EndpointSide::Left {
                        Ordering::Greater
                    } else {
                        Ordering::Less
                    },
                ),
                x => x,
            }
        },
        (Endpoint::Closed { p: p1, .. }, Endpoint::Open { p: p2, side }) => {
            match p1.partial_cmp_spec(&p2) {
                Some(Ordering::Equal) => Some(
                    if side == EndpointSide::Left {
                        Ordering::Less
                    } else {
                        Ordering::Greater
                    },
                ),
                x => x,
            }
        },
        (Endpoint::Closed { p: p1, .. }, Endpoint::Closed { p: p2, .. }) => p1.partial_cmp_spec(
            &p2,
        ),
        (Endpoint::Unbounded { side: s1 }, Endpoint::Unbounded { side: s2 }) => Some(
            if s1 == s2 {
                Ordering::Equal
            } else if s1 == EndpointSide::Left {
                Ordering::Less
            } else {
                Ordering::Greater
            },
        ),
        (Endpoint::Unbounded { side }, _) => Some(
            if side == EndpointSide::Left {
                Ordering::Less
            } else {
                Ordering::Greater
            },
        ),
        (_, Endpoint::Unbounded { side }) => Some(
            if side == EndpointSide::Left {
                Ordering::Greater
            } else {
                Ordering::Less
            },
        ),
    }
}

/// The ordering of an endpoint against a point.
pub open spec fn endpoint_point_order<T: PartialOrd>(a: Endpoint<T>, t: T) -> Option<Ordering> {
    match a {
        Endpoint::Open { p, side } => match p.partial_cmp_spec(&t) {
            Some(Ordering::Equal) => Some(
                if side == EndpointSide::Left {
                    Ordering::Greater
                } else {
                    Ordering::Less
                },
            ),
            x => x,
        },
        Endpoint::Closed { p, .. } => p.partial_cmp_spec(&t),
        Endpoint::Unbounded { side } => Some(
            if side == EndpointSide::Left {
                Ordering::Less
            } else {
                Ordering::Greater
            },
        ),
    }
}

/// Whether an endpoint equals a point: only a closed endpoint at that point does.
pub open spec fn endpoint_point_eq<T: PartialEq>(a: Endpoint<T>, t: T) -> bool {
    match a {
        Endpoint::Closed { p, .. } => p.eq_spec(&t),
        _ => false,
    }
}

/// The std bound an endpoint corresponds to.
pub open spec fn bound_of<T>(e: Endpoint<T>) -> Bound<T> {
    match e {
        Endpoint::Open { p, .. } => Bound::Excluded(p),
        Endpoint::Closed { p, .. } => Bound::Included(p),
        Endpoint::Unbounded { .. } => Bound::Unbounded,
    }
}

impl<T> Endpoint<T> {
    pub fn from_bound(bound: Bound<T>, side: EndpointSide) -> (r: Self)
        ensures
            side_of(r) == side,
            bound_of(r) == bound,
    {
        match bound {
            Bound::Included(p) => Self::Closed { p, side },
            Bound::Excluded(p) => Self::Open { p, side },
            Bound::Unbounded => Self::Unbounded { side },
        }
    }

    pub fn bound(&self) -> (r: Bound<&T>)
        ensures
            match *self {
                Endpoint::Open { p, .. } => r == Bound::Excluded(&p),
                Endpoint::Closed { p, .. } => r == Bound::Included(&p),
                Endpoint::Unbounded { .. } => r == Bound::<&T>::Unbounded,
            },
    {
        match self {
            Endpoint::Open { p, .. } => Bound::Excluded(p),
            Endpoint::Closed { p, .. } => Bound::Included(p),
            Endpoint::Unbounded { .. } => Bound::Unbounded,
        }
    }

    pub fn value(&self) -> (r: Option<&T>)
        ensures
            match *self {
                Endpoint::Open { p, .. } => r == Some(&p),
                Endpoint::Closed { p, .. } => r == Some(&p),
                Endpoint::Unbounded { .. } => r == Option::<&T>::None,
            },
    {
        match self {
            Endpoint::Closed { p, .. } => Some(p),
            Endpoint::Open { p, .. } => Some(p),
            Endpoint::Unbounded { .. } => None,
        }
    }

    pub fn is_left(&self) -> (r: bool)
        ensures
            r == (side_of(*self) == EndpointSide::Left),
    {
        match self {
            Endpoint::Open { side, .. } => matches!(side, EndpointSide::Left),
            Endpoint::Closed { side, .. } => matches!(side, EndpointSide::Left),
            Endpoint::Unbounded { side } => matches!(side, EndpointSide::Left),
        }
    }

    pub fn is_right(&self) -> (r: bool)
        ensures
            r == (side_of(*self) == EndpointSide::Right),
    {
        !self.is_left()
    }

    pub fn is_left_unbounded(&self) -> (r: bool)
        ensures
            r == (*self == Endpoint::<T>::Unbounded { side: EndpointSide::Left }),
    {
        match self {
            Endpoint::Unbounded { side } => matches!(side, EndpointSide::Left),
            _ => false,
        }
    }

    pub fn is_right_unbounded(&self) -> (r: bool)
        ensures
            r == (*self == Endpoint::<T>::Unbounded { side: EndpointSide::Right }),
    {
        match self {
            Endpoint::Unbounded { side } => matches!(side, EndpointSide::Right),
            _ => false,
        }
    }

    pub fn is_open(&self) -> (r: bool)
        ensures
            r == (*self is Open),
    {
        matches!(self, Endpoint::Open { .. })
    }

    pub fn is_closed(&self) -> (r: bool)
        ensures
            r == (*self is Closed),
    {
        matches!(self, Endpoint::Closed { .. })
    }

    pub fn is_unbounded(&self) -> (r: bool)
        ensures
            r == (*self is Unbounded),
    {
        matches!(self, Endpoint::Unbounded { .. })
    }
}

impl<T: Copy> Endpoint<T> {
    /// The std bound this endpoint corresponds to, with the point copied out.
    pub fn to_bound(&self) -> (r: Bound<T>)
        ensures
            r == bound_of(*self),
    {
        match self {
            Endpoint::Open { p, .. } => Bound::Excluded(*p),
            Endpoint::Closed { p, .. } => Bound::Included(*p),
            Endpoint::Unbounded { .. } => Bound::Unbounded,
        }
    }
}

impl<T: PartialOrd> PartialOrdSpecImpl for Endpoint<T> {
    open spec fn obeys_partial_cmp_spec() -> bool {
        T::obeys_partial_cmp_spec()
    }

    open spec fn partial_cmp_spec(&self, other: &Self) -> Option<Ordering> {
        endpoint_order(*self, *other)
    }
}

impl<T: PartialOrd> PartialOrd for Endpoint<T> {
    fn partial_cmp(&self, other: &Endpoint<T>) -> (r: Option<Ordering>) {
        match (self, other) {
            (Endpoint::Open { p: p1, side: s1 }, Endpoint::Open { p: p2, side: s2 }) => {
                match p1.partial_cmp(p2) {
                    Some(Ordering::Equal) => Some(
                        match (s1, s2) {
                            (EndpointSide::Left, EndpointSide::Left) => Ordering::Equal,
                            (EndpointSide::Right, EndpointSide::Right) => Ordering::Equal,
                            (EndpointSide::Left, EndpointSide::Right) => Ordering::Greater,
                            (EndpointSide::Right, EndpointSide::Left) => Ordering::Less,
                        },
                    ),
                    x => x,
                }
            },
            (Endpoint::Open { p: p1, side }, Endpoint::Closed { p: p2, .. }) => {
                match p1.partial_cmp(p2) {
                    Some(Ordering::Equal) => Some(
                        match side {
                            EndpointSide::Left => Ordering::Greater,
                            EndpointSide::Right => Ordering::Less,
                        },
                    ),
                    x => x,
                }
            },
            (Endpoint::Open { .. }, Endpoint::Unbounded { side }) => Some(
                match side {
                    EndpointSide::Left => Ordering::Greater,
                    EndpointSide::Right => Ordering::Less,
                },
            ),
            (Endpoint::Closed { .. }, Endpoint::Unbounded { side }) => Some(
                match side {
                    EndpointSide::Left => Ordering::Greater,
                    EndpointSide::Right => Ordering::Less,
                },
            ),
            (Endpoint::Closed { p: p1, .. }, Endpoint::Open { p: p2, side }) => {
                match p1.partial_cmp(p2) {
                    Some(Ordering::Equal) => Some(
                        match side {
                            EndpointSide::Left => Ordering::Less,
                            EndpointSide::Right => Ordering::Greater,
                        },
                    ),
                    x => x,
                }
            },
            (Endpoint::Closed { p: p1, .. }, Endpoint::Closed { p: p2, .. }) => p1.partial_cmp(p2),
            (Endpoint::Unbounded { side }, Endpoint::Open { .. }) => Some(
                match side {
                    EndpointSide::Left => Ordering::Less,
                    EndpointSide::Right => Ordering::Greater,
                },
            ),
            (Endpoint::Unbounded { side }, Endpoint::Closed { .. }) => Some(
                match side {
                    EndpointSide::Left => Ordering::Less,
                    EndpointSide::Right => Ordering::Greater,
                },
            ),
            (Endpoint::Unbounded { side: s1 }, Endpoint::Unbounded { side: s2 }) => Some(
                match (s1, s2) {
                    (EndpointSide::Left, EndpointSide::Left) => Ordering::Equal,
                    (EndpointSide::Right, EndpointSide::Right) => Ordering::Equal,
                    (EndpointSide::Left, EndpointSide::Right) => Ordering::Less,
                    (EndpointSide::Right, EndpointSide::Left) => Ordering::Greater,
                },
            ),
        }
    }
}

impl<T: PartialEq> PartialEqSpecImpl<T> for Endpoint<T> {
    open spec fn obeys_eq_spec() -> bool {
        T::obeys_eq_spec()
    }

    open spec fn eq_spec(&self, other: &T) -> bool {
        endpoint_point_eq(*self, *other)
    }
}

impl<T: PartialEq> PartialEq<T> for Endpoint<T> {
    fn eq(&self, other: &T) -> (r: bool) {
        match self {
            Endpoint::Closed { p, .. } => p == other,
            // If open, can't be equal to any closed point.
            _ => false,
        }
    }
}

impl<T: PartialOrd> PartialOrdSpecImpl<T> for Endpoint<T> {
    open spec fn obeys_partial_cmp_spec() -> bool {
        T::obeys_partial_cmp_spec()
    }

    open spec fn partial_cmp_spec(&self, other: &T) -> Option<Ordering> {
        endpoint_point_order(*self, *other)
    }
}

impl<T: PartialOrd> PartialOrd<T> for Endpoint<T> {
    fn partial_cmp(&self, other: &T) -> (r: Option<Ordering>) {
        match self {
            Endpoint::Open { p, side } => match p.partial_cmp(other) {
                Some(Ordering::Equal) => Some(
                    match side {
                        EndpointSide::Left => Ordering::Greater,
                        EndpointSide::Right => Ordering::Less,
                    },
                ),
                x => x,
            },
            Endpoint::Closed { p, .. } => p.partial_cmp(other),
            Endpoint::Unbounded { side } => Some(
                match side {
                    EndpointSide::Left => Ordering::Less,
                    EndpointSide::Right => Ordering::Greater,
                },
            ),
        }
    }
}

impl<T: PartialOrd> Endpoint<T> {
    /// Total comparison of two endpoints; defined where the points compare.
    pub fn cmp(&self, other: &Self) -> (r: Ordering)
        requires
            T::obeys_partial_cmp_spec(),
            endpoint_order(*self, *other) is Some,
        ensures
            Some(r) == endpoint_order(*self, *other),
    {
        match self.partial_cmp(other) {
            Some(o) => o,
            None => Ordering::Equal,
        }
    }
}

impl<U, T: Add<U, Output = T>> AddSpecImpl<U> for Endpoint<T> {
    open spec fn obeys_add_spec() -> bool {
        T::obeys_add_spec()
    }

    open spec fn add_req(self, rhs: U) -> bool {
        match self {
            Endpoint::Open { p, .. } => p.add_req(rhs),
            Endpoint::Closed { p, .. } => p.add_req(rhs),
            Endpoint::Unbounded { .. } => true,
        }
    }

    open spec fn add_spec(self, rhs: U) -> Endpoint<T> {
        match self {
            Endpoint::Open { p, side } => Endpoint::Open { p: p.add_spec(rhs), side },
            Endpoint::Closed { p, side } => Endpoint::Closed { p: p.add_spec(rhs), side },
            Endpoint::Unbounded { side } => Endpoint::Unbounded { side },
        }
    }
}

impl<U, T: Add<U, Output = T>> Add<U> for Endpoint<T> {
    type Output = Endpoint<T>;

    /// Shifts the endpoint's point; an unbounded endpoint stays unbounded.
    fn add(self, other: U) -> (r: Self::Output) {
        match self {
            Endpoint::Open { p, side } => Endpoint::Open { p: p + other, side },
            Endpoint::Closed { p, side } => Endpoint::Closed { p: p + other, side },
            Endpoint::Unbounded { side } => Endpoint::Unbounded { side },
        }
    }
}

impl<U, T: Sub<U, Output = T>> SubSpecImpl<U> for Endpoint<T> {
    open spec fn obeys_sub_spec() -> bool {
        T::obeys_sub_spec()
    }

    open spec fn sub_req(self, rhs: U) -> bool {
        match self {
            Endpoint::Open { p, .. } => p.sub_req(rhs),
            Endpoint::Closed { p, .. } => p.sub_req(rhs),
            Endpoint::Unbounded { .. } => true,
        }
    }

    open spec fn sub_spec(self, rhs: U) -> Endpoint<T> {
        match self {
            Endpoint::Open { p, side } => Endpoint::Open { p: p.sub_spec(rhs), side },
            Endpoint::Closed { p, side } => Endpoint::Closed { p: p.sub_spec(rhs), side },
            Endpoint::Unbounded { side } => Endpoint::Unbounded { side },
        }
    }
}

impl<U, T: Sub<U, Output = T>> Sub<U> for Endpoint<T> {
    type Output = Endpoint<T>;

    /// Shifts the endpoint's point back; an unbounded endpoint stays unbounded.
    fn sub(self, other: U) -> (r: Self::Output) {
        match self {
            Endpoint::Open { p, side } => Endpoint::Open { p: p - other, side },
            Endpoint::Closed { p, side } => Endpoint::Closed { p: p - other, side },
            Endpoint::Unbounded { side } => Endpoint::Unbounded { side },
        }
    }
}

/// Moving a point across an endpoint: the open endpoint that excludes exactly
/// what a closed one at this point includes, and back.
pub trait EndpointConversion: Sized {
    /// The point an open endpoint on `side` must have to bound the same set
    /// as a closed endpoint at this point, if it exists.
    spec fn open_value(&self, side: EndpointSide) -> Option<Self>;

    /// The point a closed endpoint on `side` must have to bound the same set
    /// as an open endpoint at this point, if it exists.
    spec fn closed_value(&self, side: EndpointSide) -> Option<Self>;

    fn to_open(&self, side: EndpointSide) -> (r: Option<Self>)
        ensures
            r == self.open_value(side),
    ;

    fn to_closed(&self, side: EndpointSide) -> (r: Option<Self>)
        ensures
            r == self.closed_value(side),
    ;
}

impl EndpointConversion for i8 {
    open spec fn open_value(&self, side: EndpointSide) -> Option<i8> {
        match side {
            EndpointSide::Left => if *self > i8::MIN { Some((*self - 1) as i8) } else { None },
            EndpointSide::Right => if *self < i8::MAX { Some((*self + 1) as i8) } else { None },
        }
    }

    open spec fn closed_value(&self, side: EndpointSide) -> Option<i8> {
        match side {
            EndpointSide::Left => if *self < i8::MAX { Some((*self + 1) as i8) } else { None },
            EndpointSide::Right => if *self > i8::MIN { Some((*self - 1) as i8) } else { None },
        }
    }

    fn to_open(&self, side: EndpointSide) -> (r: Option<i8>) {
        match side {
            EndpointSide::Left => self.checked_sub(1),
            EndpointSide::Right => self.checked_add(1),
        }
    }

    fn to_closed(&self, side: EndpointSide) -> (r: Option<i8>) {
        match side {
            EndpointSide::Left => self.checked_add(1),
            EndpointSide::Right => self.checked_sub(1),
        }
    }
}

impl EndpointConversion for i16 {
    open spec fn open_value(&self, side: EndpointSide) -> Option<i16> {
        match side {
            EndpointSide::Left => if *self > i16::MIN { Some((*self - 1) as i16) } else { None },
            EndpointSide::Right => if *self < i16::MAX { Some((*self + 1) as i16) } else { None },
        }
    }

    open spec fn closed_value(&self, side: EndpointSide) -> Option<i16> {
        match side {
            EndpointSide::Left => if *self < i16::MAX { Some((*self + 1) as i16) } else { None },
            EndpointSide::Right => if *self > i16::MIN { Some((*self - 1) as i16) } else { None },
        }
    }

    fn to_open(&self, side: EndpointSide) -> (r: Option<i16>) {
        match side {
            EndpointSide::Left => self.checked_sub(1),
            EndpointSide::Right => self.checked_add(1),
        }
    }

    fn to_closed(&self, side: EndpointSide) -> (r: Option<i16>) {
        match side {
            EndpointSide::Left => self.checked_add(1),
            EndpointSide::Right => self.checked_sub(1),
        }
    }
}

impl EndpointConversion for i32 {
    open spec fn open_value(&self, side: EndpointSide) -> Option<i32> {
        match side {
            EndpointSide::Left => if *self > i32::MIN { Some((*self - 1) as i32) } else { None },
            EndpointSide::Right => if *self < i32::MAX { Some((*self + 1) as i32) } else { None },
        }
    }

    open spec fn closed_value(&self, side: EndpointSide) -> Option<i32> {
        match side {
            EndpointSide::Left => if *self < i32::MAX { Some((*self + 1) as i32) } else { None },
            EndpointSide::Right => if *self > i32::MIN { Some((*self - 1) as i32) } else { None },
        }
    }

    fn to_open(&self, side: EndpointSide) -> (r: Option<i32>) {
        match side {
            EndpointSide::Left => self.checked_sub(1),
            EndpointSide::Right => self.checked_add(1),
        }
    }

    fn to_closed(&self, side: EndpointSide) -> (r: Option<i32>) {
        match side {
            EndpointSide::Left => self.checked_add(1),
            EndpointSide::Right => self.checked_sub(1),
        }
    }
}

impl EndpointConversion for i64 {
    open spec fn open_value(&self, side: EndpointSide) -> Option<i64> {
        match side {
            EndpointSide::Left => if *self > i64::MIN { Some((*self - 1) as i64) } else { None },
            EndpointSide::Right => if *self < i64::MAX { Some((*self + 1) as i64) } else { None },
        }
    }

    open spec fn closed_value(&self, side: EndpointSide) -> Option<i64> {
        match side {
            EndpointSide::Left => if *self < i64::MAX { Some((*self + 1) as i64) } else { None },
            EndpointSide::Right => if *self > i64::MIN { Some((*self - 1) as i64) } else { None },
        }
    }

    fn to_open(&self, side: EndpointSide) -> (r: Option<i64>) {
        match side {
            EndpointSide::Left => self.checked_sub(1),
            EndpointSide::Right => self.checked_add(1),
        }
    }

    fn to_closed(&self, side: EndpointSide) -> (r: Option<i64>) {
        match side {
            EndpointSide::Left => self.checked_add(1),
            EndpointSide::Right => self.checked_sub(1),
        }
    }
}

impl EndpointConversion for i128 {
    open spec fn open_value(&self, side: EndpointSide) -> Option<i128> {
        match side {
            EndpointSide::Left => if *self > i128::MIN { Some((*self - 1) as i128) } else { None },
            EndpointSide::Right => if *self < i128::MAX { Some((*self + 1) as i128) } else { None },
        }
    }

    open spec fn closed_value(&self, side: EndpointSide) -> Option<i128> {
        match side {
            EndpointSide::Left => if *self < i128::MAX { Some((*self + 1) as i128) } else { None },
            EndpointSide::Right => if *self > i128::MIN { Some((*self - 1) as i128) } else { None },
        }
    }

    fn to_open(&self, side: EndpointSide) -> (r: Option<i128>) {
        match side {
            EndpointSide::Left => self.checked_sub(1),
            EndpointSide::Right => self.checked_add(1),
        }
    }

    fn to_closed(&self, side: EndpointSide) -> (r: Option<i128>) {
        match side {
            EndpointSide::Left => self.checked_add(1),
            EndpointSide::Right => self.checked_sub(1),
        }
    }
}

impl EndpointConversion for isize {
    open spec fn open_value(&self, side: EndpointSide) -> Option<isize> {
        match side {
            EndpointSide::Left => if *self > isize::MIN { Some((*self - 1) as isize) } else { None },
            EndpointSide::Right => if *self < isize::MAX { Some((*self + 1) as isize) } else { None },
        }
    }

    open spec fn closed_value(&self, side: EndpointSide) -> Option<isize> {
        match side {
            EndpointSide::Left => if *self < isize::MAX { Some((*self + 1) as isize) } else { None },
            EndpointSide::Right => if *self > isize::MIN { Some((*self - 1) as isize) } else { None },
        }
    }

    fn to_open(&self, side: EndpointSide) -> (r: Option<isize>) {
        match side {
            EndpointSide::Left => self.checked_sub(1),
            EndpointSide::Right => self.checked_add(1),
        }
    }

    fn to_closed(&self, side: EndpointSide) -> (r: Option<isize>) {
        match side {
            EndpointSide::Left => self.checked_add(1),
            EndpointSide::Right => self.checked_sub(1),
        }
    }
}

impl EndpointConversion for u8 {
    open spec fn open_value(&self, side: EndpointSide) -> Option<u8> {
        match side {
            EndpointSide::Left => if *self > u8::MIN { Some((*self - 1) as u8) } else { None },
            EndpointSide::Right => if *self < u8::MAX { Some((*self + 1) as u8) } else { None },
        }
    }

    open spec fn closed_value(&self, side: EndpointSide) -> Option<u8> {
        match side {
            EndpointSide::Left => if *self < u8::MAX { Some((*self + 1) as u8) } else { None },
            EndpointSide::Right => if *self > u8::MIN { Some((*self - 1) as u8) } else { None },
        }
    }

    fn to_open(&self, side: EndpointSide) -> (r: Option<u8>) {
        match side {
            EndpointSide::Left => self.checked_sub(1),
            EndpointSide::Right => self.checked_add(1),
        }
    }

    fn to_closed(&self, side: EndpointSide) -> (r: Option<u8>) {
        match side {
            EndpointSide::Left => self.checked_add(1),
            EndpointSide::Right => self.checked_sub(1),
        }
    }
}

impl EndpointConversion for u16 {
    open spec fn open_value(&self, side: EndpointSide) -> Option<u16> {
        match side {
            EndpointSide::Left => if *self > u16::MIN { Some((*self - 1) as u16) } else { None },
            EndpointSide::Right => if *self < u16::MAX { Some((*self + 1) as u16) } else { None },
        }
    }

    open spec fn closed_value(&self, side: EndpointSide) -> Option<u16> {
        match side {
            EndpointSide::Left => if *self < u16::MAX { Some((*self + 1) as u16) } else { None },
            EndpointSide::Right => if *self > u16::MIN { Some((*self - 1) as u16) } else { None },
        }
    }

    fn to_open(&self, side: EndpointSide) -> (r: Option<u16>) {
        match side {
            EndpointSide::Left => self.checked_sub(1),
            EndpointSide::Right => self.checked_add(1),
        }
    }

    fn to_closed(&self, side: EndpointSide) -> (r: Option<u16>) {
        match side {
            EndpointSide::Left => self.checked_add(1),
            EndpointSide::Right => self.checked_sub(1),
        }
    }
}

impl EndpointConversion for u32 {
    open spec fn open_value(&self, side: EndpointSide) -> Option<u32> {
        match side {
            EndpointSide::Left => if *self > u32::MIN { Some((*self - 1) as u32) } else { None },
            EndpointSide::Right => if *self < u32::MAX { Some((*self + 1) as u32) } else { None },
        }
    }

    open spec fn closed_value(&self, side: EndpointSide) -> Option<u32> {
        match side {
            EndpointSide::Left => if *self < u32::MAX { Some((*self + 1) as u32) } else { None },
            EndpointSide::Right => if *self > u32::MIN { Some((*self - 1) as u32) } else { None },
        }
    }

    fn to_open(&self, side: EndpointSide) -> (r: Option<u32>) {
        match side {
            EndpointSide::Left => self.checked_sub(1),
            EndpointSide::Right => self.checked_add(1),
        }
    }

    fn to_closed(&self, side: EndpointSide) -> (r: Option<u32>) {
        match side {
            EndpointSide::Left => self.checked_add(1),
            EndpointSide::Right => self.checked_sub(1),
        }
    }
}

impl EndpointConversion for u64 {
    open spec fn open_value(&self, side: EndpointSide) -> Option<u64> {
        match side {
            EndpointSide::Left => if *self > u64::MIN { Some((*self - 1) as u64) } else { None },
            EndpointSide::Right => if *self < u64::MAX { Some((*self + 1) as u64) } else { None },
        }
    }

    open spec fn closed_value(&self, side: EndpointSide) -> Option<u64> {
        match side {
            EndpointSide::Left => if *self < u64::MAX { Some((*self + 1) as u64) } else { None },
            EndpointSide::Right => if *self > u64::MIN { Some((*self - 1) as u64) } else { None },
        }
    }

    fn to_open(&self, side: EndpointSide) -> (r: Option<u64>) {
        match side {
            EndpointSide::Left => self.checked_sub(1),
            EndpointSide::Right => self.checked_add(1),
        }
    }

    fn to_closed(&self, side: EndpointSide) -> (r: Option<u64>) {
        match side {
            EndpointSide::Left => self.checked_add(1),
            EndpointSide::Right => self.checked_sub(1),
        }
    }
}

impl EndpointConversion for u128 {
    open spec fn open_value(&self, side: EndpointSide) -> Option<u128> {
        match side {
            EndpointSide::Left => if *self > u128::MIN { Some((*self - 1) as u128) } else { None },
            EndpointSide::Right => if *self < u128::MAX { Some((*self + 1) as u128) } else { None },
        }
    }

    open spec fn closed_value(&self, side: EndpointSide) -> Option<u128> {
        match side {
            EndpointSide::Left => if *self < u128::MAX { Some((*self + 1) as u128) } else { None },
            EndpointSide::Right => if *self > u128::MIN { Some((*self - 1) as u128) } else { None },
        }
    }

    fn to_open(&self, side: EndpointSide) -> (r: Option<u128>) {
        match side {
            EndpointSide::Left => self.checked_sub(1),
            EndpointSide::Right => self.checked_add(1),
        }
    }

    fn to_closed(&self, side: EndpointSide) -> (r: Option<u128>) {
        match side {
            EndpointSide::Left => self.checked_add(1),
            EndpointSide::Right => self.checked_sub(1),
        }
    }
}

impl EndpointConversion for usize {
    open spec fn open_value(&self, side: EndpointSide) -> Option<usize> {
        match side {
            EndpointSide::Left => if *self > usize::MIN { Some((*self - 1) as usize) } else { None },
            EndpointSide::Right => if *self < usize::MAX { Some((*self + 1) as usize) } else { None },
        }
    }

    open spec fn closed_value(&self, side: EndpointSide) -> Option<usize> {
        match side {
            EndpointSide::Left => if *self < usize::MAX { Some((*self + 1) as usize) } else { None },
            EndpointSide::Right => if *self > usize::MIN { Some((*self - 1) as usize) } else { None },
        }
    }

    fn to_open(&self, side: EndpointSide) -> (r: Option<usize>) {
        match side {
            EndpointSide::Left => self.checked_sub(1),
            EndpointSide::Right => self.checked_add(1),
        }
    }

    fn to_closed(&self, side: EndpointSide) -> (r: Option<usize>) {
        match side {
            EndpointSide::Left => self.checked_add(1),
            EndpointSide::Right => self.checked_sub(1),
        }
    }
}

/// The point an endpoint corresponds to when made open on its side.
pub open spec fn endpoint_open_point<T: EndpointConversion>(e: Endpoint<T>) -> Option<T> {
    match e {
        Endpoint::Open { p, .. } => Some(p),
        Endpoint::Closed { p, side } => p.open_value(side),
        Endpoint::Unbounded { .. } => None,
    }
}

/// The point an endpoint corresponds to when made closed on its side.
pub open spec fn endpoint_closed_point<T: EndpointConversion>(e: Endpoint<T>) -> Option<T> {
    match e {
        Endpoint::Open { p, side } => p.closed_value(side),
        Endpoint::Closed { p, .. } => Some(p),
        Endpoint::Unbounded { .. } => None,
    }
}

impl<T: EndpointConversion + Copy> Endpoint<T> {
    pub fn to_open(&self) -> (r: Option<T>)
        ensures
            r == endpoint_open_point(*self),
    {
        match self {
            Endpoint::Open { p, .. } => Some(*p),
            Endpoint::Closed { p, side } => p.to_open(*side),
            Endpoint::Unbounded { .. } => None,
        }
    }

    pub fn to_closed(&self) -> (r: Option<T>)
        ensures
            r == endpoint_closed_point(*self),
    {
        match self {
            Endpoint::Open { p, side } => p.to_closed(*side),
            Endpoint::Closed { p, .. } => Some(*p),
            Endpoint::Unbounded { .. } => None,
        }
    }
}

} // verus!
