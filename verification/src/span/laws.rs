use std::cmp::Ordering;

use vstd::prelude::*;
use vstd::std_specs::cmp::{PartialOrdIs, PartialOrdSpec};

use crate::span::any::{any_contains, any_is_empty, any_meet, SpanAny};
use crate::span::endpoint::{endpoint_order, Endpoint, EndpointConversion, EndpointSide};
use crate::span::exc::{max_of, min_of, exc_contains, exc_cover, exc_is_empty, exc_meet, SpanExc};
use crate::span::inc::{inc_contains, inc_is_empty, inc_meet, SpanInc};

verus! {

/// `T`'s comparison is a total order that agrees with equality.
pub open spec fn total_order<T: PartialOrd>() -> bool {
    &&& T::obeys_partial_cmp_spec()
    &&& forall|a: T, b: T| #[trigger] a.partial_cmp_spec(&b) is Some
    &&& forall|a: T, b: T| #[trigger] a.partial_cmp_spec(&b) == Some(Ordering::Equal) <==> a == b
    &&& forall|a: T, b: T|
        #[trigger] a.partial_cmp_spec(&b) == Some(Ordering::Less) <==> b.partial_cmp_spec(&a)
            == Some(Ordering::Greater)
    &&& forall|a: T, b: T, c: T|
        #![trigger a.partial_cmp_spec(&b), b.partial_cmp_spec(&c)]
        a.partial_cmp_spec(&b) == Some(Ordering::Less) && b.partial_cmp_spec(&c) == Some(
            Ordering::Less,
        ) ==> a.partial_cmp_spec(&c) == Some(Ordering::Less)
}

/// The reverse of an optional ordering.
pub open spec fn reversed(o: Option<Ordering>) -> Option<Ordering> {
    match o {
        Some(Ordering::Less) => Some(Ordering::Greater),
        Some(Ordering::Greater) => Some(Ordering::Less),
        x => x,
    }
}

/// Under a total order, any two points compare one way or the other.
pub proof fn lemma_trichotomy<T: PartialOrd>(a: T, b: T)
    requires
        total_order::<T>(),
    ensures
        a.is_lt(&b) || a == b || a.is_gt(&b),
        a.is_lt(&b) <==> b.is_gt(&a),
        a.is_le(&b) <==> !a.is_gt(&b),
        a.is_ge(&b) <==> !a.is_lt(&b),
        a.is_le(&b) <==> b.is_ge(&a),
{
    assert(a.partial_cmp_spec(&b) is Some);
    assert(b.partial_cmp_spec(&a) is Some);
    if a.partial_cmp_spec(&b) == Some(Ordering::Equal) {
        assert(a == b);
        assert(b.partial_cmp_spec(&a) == Some(Ordering::Equal));
    } else if a.partial_cmp_spec(&b) == Some(Ordering::Greater) {
        assert(b.partial_cmp_spec(&a) == Some(Ordering::Less));
    }
    if b.partial_cmp_spec(&a) == Some(Ordering::Equal) {
        assert(a == b);
    }
}

/// Under a total order, `<=` is transitive, and strict where either step is.
pub proof fn lemma_le_trans<T: PartialOrd>(a: T, b: T, c: T)
    requires
        total_order::<T>(),
    ensures
        a.is_le(&b) && b.is_le(&c) ==> a.is_le(&c),
        a.is_lt(&b) && b.is_le(&c) ==> a.is_lt(&c),
        a.is_le(&b) && b.is_lt(&c) ==> a.is_lt(&c),
{
    lemma_trichotomy(a, b);
    lemma_trichotomy(b, c);
    lemma_trichotomy(a, c);
    if a.is_lt(&b) && b.is_lt(&c) {
        assert(a.partial_cmp_spec(&c) == Some(Ordering::Less));
    }
}

/// The minimum of two points does not depend on their order, and a point is
/// below the minimum exactly when it is below both.
proof fn lemma_min_of<T: PartialOrd>(a: T, b: T, t: T)
    requires
        total_order::<T>(),
    ensures
        min_of(a, b) == min_of(b, a),
        min_of(a, b).is_gt(&t) <==> a.is_gt(&t) && b.is_gt(&t),
        min_of(a, b).is_ge(&t) <==> a.is_ge(&t) && b.is_ge(&t),
        min_of(a, b).is_le(&a) && min_of(a, b).is_le(&b),
{
    lemma_trichotomy(a, b);
    lemma_trichotomy(a, t);
    lemma_trichotomy(b, t);
    lemma_trichotomy(a, a);
    lemma_trichotomy(b, b);
    lemma_le_trans(t, a, b);
    lemma_le_trans(t, b, a);
    lemma_le_trans(b, a, t);
    lemma_le_trans(a, b, t);
}

/// The maximum of two points does not depend on their order, and a point is
/// above the maximum exactly when it is above both.
proof fn lemma_max_of<T: PartialOrd>(a: T, b: T, t: T)
    requires
        total_order::<T>(),
    ensures
        max_of(a, b) == max_of(b, a),
        max_of(a, b).is_le(&t) <==> a.is_le(&t) && b.is_le(&t),
        max_of(a, b).is_lt(&t) <==> a.is_lt(&t) && b.is_lt(&t),
        max_of(a, b).is_ge(&a) && max_of(a, b).is_ge(&b),
{
    lemma_trichotomy(a, b);
    lemma_trichotomy(a, t);
    lemma_trichotomy(b, t);
    lemma_trichotomy(a, a);
    lemma_trichotomy(b, b);
    lemma_le_trans(a, b, t);
    lemma_le_trans(b, a, t);
    lemma_le_trans(t, a, b);
    lemma_le_trans(t, b, a);
}

/// The machine integers are totally ordered.
pub proof fn lemma_i64_total_order()
    ensures
        total_order::<i64>(),
{
}

/// Endpoints compare antisymmetrically: comparing `b` with `a` gives the
/// reverse of comparing `a` with `b`.
pub proof fn lemma_endpoint_order_antisymmetric<T: PartialOrd>(a: Endpoint<T>, b: Endpoint<T>)
    requires
        total_order::<T>(),
    ensures
        endpoint_order(b, a) == reversed(endpoint_order(a, b)),
{
    match (a, b) {
        (Endpoint::Open { p: p1, .. }, Endpoint::Open { p: p2, .. }) => {
            assert(p1.partial_cmp_spec(&p2) is Some);
            assert(p2.partial_cmp_spec(&p1) is Some);
        },
        (Endpoint::Open { p: p1, .. }, Endpoint::Closed { p: p2, .. }) => {
            assert(p1.partial_cmp_spec(&p2) is Some);
            assert(p2.partial_cmp_spec(&p1) is Some);
        },
        (Endpoint::Closed { p: p1, .. }, Endpoint::Open { p: p2, .. }) => {
            assert(p1.partial_cmp_spec(&p2) is Some);
            assert(p2.partial_cmp_spec(&p1) is Some);
        },
        (Endpoint::Closed { p: p1, .. }, Endpoint::Closed { p: p2, .. }) => {
            assert(p1.partial_cmp_spec(&p2) is Some);
            assert(p2.partial_cmp_spec(&p1) is Some);
        },
        _ => {},
    }
}

/// Where an endpoint sits: below every point (0), at a point (1), or beyond
/// every point (2).
pub open spec fn endpoint_band<T>(e: Endpoint<T>) -> int {
    match e {
        Endpoint::Unbounded { side: EndpointSide::Left } => 0,
        Endpoint::Unbounded { side: EndpointSide::Right } => 2,
        _ => 1,
    }
}

/// How an endpoint at a point sits next to it: an open left endpoint just
/// after it (1), a closed endpoint on it (0), an open right endpoint just
/// before it (-1).
pub open spec fn endpoint_tie<T>(e: Endpoint<T>) -> int {
    match e {
        Endpoint::Open { side: EndpointSide::Left, .. } => 1,
        Endpoint::Open { side: EndpointSide::Right, .. } => -1,
        _ => 0,
    }
}

/// The point of a bounded endpoint.
pub open spec fn endpoint_point<T>(e: Endpoint<T>) -> T
    recommends
        !(e is Unbounded),
{
    match e {
        Endpoint::Open { p, .. } => p,
        Endpoint::Closed { p, .. } => p,
        Endpoint::Unbounded { .. } => arbitrary(),
    }
}

/// How two integers compare.
pub open spec fn int_order(a: int, b: int) -> Ordering {
    if a < b {
        Ordering::Less
    } else if a == b {
        Ordering::Equal
    } else {
        Ordering::Greater
    }
}

/// Endpoints compared by key: first where they sit (below every point, at a
/// point, beyond every point), then by their points, then by how they sit
/// next to their points.
pub open spec fn endpoint_key_order<T: PartialOrd>(a: Endpoint<T>, b: Endpoint<T>) -> Option<
    Ordering,
> {
    if endpoint_band(a) != endpoint_band(b) {
        Some(int_order(endpoint_band(a), endpoint_band(b)))
    } else if endpoint_band(a) != 1 {
        Some(Ordering::Equal)
    } else {
        match endpoint_point(a).partial_cmp_spec(&endpoint_point(b)) {
            Some(Ordering::Equal) => Some(int_order(endpoint_tie(a), endpoint_tie(b))),
            x => x,
        }
    }
}

/// Endpoints compare by their keys.
pub proof fn lemma_endpoint_order_by_key<T: PartialOrd>(a: Endpoint<T>, b: Endpoint<T>)
    ensures
        endpoint_order(a, b) == endpoint_key_order(a, b),
{
}

/// Under a total order of points, any two endpoints compare, and the order
/// of endpoints is transitive.
pub proof fn lemma_endpoint_order_transitive<T: PartialOrd>(
    a: Endpoint<T>,
    b: Endpoint<T>,
    c: Endpoint<T>,
)
    requires
        total_order::<T>(),
    ensures
        endpoint_order(a, b) is Some,
        endpoint_order(a, b) == Some(Ordering::Less) && endpoint_order(b, c) == Some(Ordering::Less)
            ==> endpoint_order(a, c) == Some(Ordering::Less),
        endpoint_order(a, b) == Some(Ordering::Equal) && endpoint_order(b, c) == Some(
            Ordering::Equal,
        ) ==> endpoint_order(a, c) == Some(Ordering::Equal),
{
    lemma_endpoint_order_by_key(a, b);
    lemma_endpoint_order_by_key(b, c);
    lemma_endpoint_order_by_key(a, c);
    if endpoint_band(a) == 1 && endpoint_band(b) == 1 && endpoint_band(c) == 1 {
        let (pa, pb, pc) = (endpoint_point(a), endpoint_point(b), endpoint_point(c));
        lemma_trichotomy(pa, pb);
        lemma_trichotomy(pb, pc);
        lemma_trichotomy(pa, pc);
        lemma_le_trans(pa, pb, pc);
        assert(pa.partial_cmp_spec(&pb) is Some);
        assert(pb.partial_cmp_spec(&pc) is Some);
        assert(pa.partial_cmp_spec(&pc) is Some);
    } else if endpoint_band(a) == 1 && endpoint_band(b) == 1 {
        assert(endpoint_point(a).partial_cmp_spec(&endpoint_point(b)) is Some);
    }
}

/// A point lies in the intersection of two exclusive spans exactly when it
/// lies in both; an empty intersection holds no point of both.
pub proof fn lemma_exc_intersect_contains<T: PartialOrd>(a: SpanExc<T>, b: SpanExc<T>, t: T)
    requires
        total_order::<T>(),
    ensures
        (!exc_is_empty(exc_meet(a, b)) && exc_contains(exc_meet(a, b), t)) <==> (exc_contains(a, t)
            && exc_contains(b, t)),
{
    lemma_max_of(a.st, b.st, t);
    lemma_min_of(a.en, b.en, t);
    lemma_trichotomy(t, a.st);
    lemma_trichotomy(t, b.st);
    let m = exc_meet(a, b);
    lemma_trichotomy(m.st, m.en);
    lemma_trichotomy(m.st, t);
    lemma_trichotomy(m.en, t);
    lemma_le_trans(m.st, t, m.en);
}

/// Intersecting exclusive spans does not depend on their order.
pub proof fn lemma_exc_intersect_commutative<T: PartialOrd>(a: SpanExc<T>, b: SpanExc<T>)
    requires
        total_order::<T>(),
    ensures
        exc_meet(a, b) == exc_meet(b, a),
{
    lemma_max_of(a.st, b.st, a.st);
    lemma_min_of(a.en, b.en, a.en);
}

/// The cover of two non-empty exclusive spans contains both.
pub proof fn lemma_exc_cover_contains<T: PartialOrd>(a: SpanExc<T>, b: SpanExc<T>)
    requires
        total_order::<T>(),
        !exc_is_empty(a),
        !exc_is_empty(b),
    ensures
        ({
            let c = exc_cover(a, b);
            &&& c.st.is_le(&a.st) && c.en.is_ge(&a.en)
            &&& c.st.is_le(&b.st) && c.en.is_ge(&b.en)
        }),
{
    lemma_min_of(a.st, b.st, a.st);
    lemma_max_of(a.en, b.en, a.en);
}

/// A point lies in the intersection of two inclusive spans exactly when it
/// lies in both.
pub proof fn lemma_inc_intersect_contains<T: PartialOrd>(a: SpanInc<T>, b: SpanInc<T>, t: T)
    requires
        total_order::<T>(),
    ensures
        (!inc_is_empty(inc_meet(a, b)) && inc_contains(inc_meet(a, b), t)) <==> (inc_contains(a, t)
            && inc_contains(b, t)),
{
    lemma_max_of(a.st, b.st, t);
    lemma_min_of(a.en, b.en, t);
    let m = inc_meet(a, b);
    lemma_trichotomy(m.st, m.en);
    lemma_trichotomy(m.st, t);
    lemma_trichotomy(m.en, t);
    lemma_le_trans(m.st, t, m.en);
}

/// Over the integers, the exclusive span made from `[st, en]` holds exactly
/// the points from `st` to `en`.
pub proof fn lemma_exc_inc_i64(st: i64, en: i64, t: i64)
    requires
        en < i64::MAX,
    ensures
        exc_contains(SpanExc { st, en: (en + 1) as i64 }, t) <==> st <= t <= en,
        en.open_value(EndpointSide::Right) == Some((en + 1) as i64),
{
}

/// Over the integers, converting an exclusive span to an inclusive one and back
/// gives the span again.
pub proof fn lemma_exc_inc_round_trip_i64(s: SpanExc<i64>)
    requires
        s.en > i64::MIN,
    ensures
        s.en.closed_value(EndpointSide::Right) matches Some(e) && e.open_value(EndpointSide::Right)
            == Some(s.en),
{
}

/// Over `i8`, the open form of a closed endpoint's point, taken back to
/// its closed form on the same side, is the point again, and the other way
/// round; so an exclusive span made inclusive and back (or inclusive made
/// exclusive and back) is the same span.
pub proof fn lemma_endpoint_round_trip_i8(v: i8, side: EndpointSide)
    ensures
        v.open_value(side) matches Some(o) ==> o.closed_value(side) == Some(v),
        v.closed_value(side) matches Some(c) ==> c.open_value(side) == Some(v),
{
}

/// Over `i16`, the open form of a closed endpoint's point, taken back to
/// its closed form on the same side, is the point again, and the other way
/// round; so an exclusive span made inclusive and back (or inclusive made
/// exclusive and back) is the same span.
pub proof fn lemma_endpoint_round_trip_i16(v: i16, side: EndpointSide)
    ensures
        v.open_value(side) matches Some(o) ==> o.closed_value(side) == Some(v),
        v.closed_value(side) matches Some(c) ==> c.open_value(side) == Some(v),
{
}

/// Over `i32`, the open form of a closed endpoint's point, taken back to
/// its closed form on the same side, is the point again, and the other way
/// round; so an exclusive span made inclusive and back (or inclusive made
/// exclusive and back) is the same span.
pub proof fn lemma_endpoint_round_trip_i32(v: i32, side: EndpointSide)
    ensures
        v.open_value(side) matches Some(o) ==> o.closed_value(side) == Some(v),
        v.closed_value(side) matches Some(c) ==> c.open_value(side) == Some(v),
{
}

/// Over `i64`, the open form of a closed endpoint's point, taken back to
/// its closed form on the same side, is the point again, and the other way
/// round; so an exclusive span made inclusive and back (or inclusive made
/// exclusive and back) is the same span.
pub proof fn lemma_endpoint_round_trip_i64(v: i64, side: EndpointSide)
    ensures
        v.open_value(side) matches Some(o) ==> o.closed_value(side) == Some(v),
        v.closed_value(side) matches Some(c) ==> c.open_value(side) == Some(v),
{
}

/// Over `i128`, the open form of a closed endpoint's point, taken back to
/// its closed form on the same side, is the point again, and the other way
/// round; so an exclusive span made inclusive and back (or inclusive made
/// exclusive and back) is the same span.
pub proof fn lemma_endpoint_round_trip_i128(v: i128, side: EndpointSide)
    ensures
        v.open_value(side) matches Some(o) ==> o.closed_value(side) == Some(v),
        v.closed_value(side) matches Some(c) ==> c.open_value(side) == Some(v),
{
}

/// Over `isize`, the open form of a closed endpoint's point, taken back to
/// its closed form on the same side, is the point again, and the other way
/// round; so an exclusive span made inclusive and back (or inclusive made
/// exclusive and back) is the same span.
pub proof fn lemma_endpoint_round_trip_isize(v: isize, side: EndpointSide)
    ensures
        v.open_value(side) matches Some(o) ==> o.closed_value(side) == Some(v),
        v.closed_value(side) matches Some(c) ==> c.open_value(side) == Some(v),
{
}

/// Over `u8`, the open form of a closed endpoint's point, taken back to
/// its closed form on the same side, is the point again, and the other way
/// round; so an exclusive span made inclusive and back (or inclusive made
/// exclusive and back) is the same span.
pub proof fn lemma_endpoint_round_trip_u8(v: u8, side: EndpointSide)
    ensures
        v.open_value(side) matches Some(o) ==> o.closed_value(side) == Some(v),
        v.closed_value(side) matches Some(c) ==> c.open_value(side) == Some(v),
{
}

/// Over `u16`, the open form of a closed endpoint's point, taken back to
/// its closed form on the same side, is the point again, and the other way
/// round; so an exclusive span made inclusive and back (or inclusive made
/// exclusive and back) is the same span.
pub proof fn lemma_endpoint_round_trip_u16(v: u16, side: EndpointSide)
    ensures
        v.open_value(side) matches Some(o) ==> o.closed_value(side) == Some(v),
        v.closed_value(side) matches Some(c) ==> c.open_value(side) == Some(v),
{
}

/// Over `u32`, the open form of a closed endpoint's point, taken back to
/// its closed form on the same side, is the point again, and the other way
/// round; so an exclusive span made inclusive and back (or inclusive made
/// exclusive and back) is the same span.
pub proof fn lemma_endpoint_round_trip_u32(v: u32, side: EndpointSide)
    ensures
        v.open_value(side) matches Some(o) ==> o.closed_value(side) == Some(v),
        v.closed_value(side) matches Some(c) ==> c.open_value(side) == Some(v),
{
}

/// Over `u64`, the open form of a closed endpoint's point, taken back to
/// its closed form on the same side, is the point again, and the other way
/// round; so an exclusive span made inclusive and back (or inclusive made
/// exclusive and back) is the same span.
pub proof fn lemma_endpoint_round_trip_u64(v: u64, side: EndpointSide)
    ensures
        v.open_value(side) matches Some(o) ==> o.closed_value(side) == Some(v),
        v.closed_value(side) matches Some(c) ==> c.open_value(side) == Some(v),
{
}

/// Over `u128`, the open form of a closed endpoint's point, taken back to
/// its closed form on the same side, is the point again, and the other way
/// round; so an exclusive span made inclusive and back (or inclusive made
/// exclusive and back) is the same span.
pub proof fn lemma_endpoint_round_trip_u128(v: u128, side: EndpointSide)
    ensures
        v.open_value(side) matches Some(o) ==> o.closed_value(side) == Some(v),
        v.closed_value(side) matches Some(c) ==> c.open_value(side) == Some(v),
{
}

/// Over `usize`, the open form of a closed endpoint's point, taken back to
/// its closed form on the same side, is the point again, and the other way
/// round; so an exclusive span made inclusive and back (or inclusive made
/// exclusive and back) is the same span.
pub proof fn lemma_endpoint_round_trip_usize(v: usize, side: EndpointSide)
    ensures
        v.open_value(side) matches Some(o) ==> o.closed_value(side) == Some(v),
        v.closed_value(side) matches Some(c) ==> c.open_value(side) == Some(v),
{
}

} // verus!
