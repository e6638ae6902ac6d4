use std::ops::Bound;

use vstd::prelude::*;
use vstd::std_specs::cmp::{PartialOrdIs, PartialOrdSpec};

use crate::error::Result;
use crate::seq::inner::SeriesInner;
use crate::span::any::{any_cover, any_is_empty, left_unbounded, right_unbounded, SpanAny};
use crate::span::endpoint::Endpoint;
use crate::span::laws::{lemma_le_trans, lemma_trichotomy, total_order};
use crate::span::ops::ordered;

verus! {

/// The length of the longest prefix of `s` whose elements satisfy `p`.
pub open spec fn leading<A>(s: Seq<A>, p: spec_fn(A) -> bool) -> nat
    decreases s.len(),
{
    if s.len() == 0 {
        0
    } else if p(s[0]) {
        1 + leading(s.drop_first(), p)
    } else {
        0
    }
}

/// The elements satisfying `p` all come before those that do not.
pub open spec fn partitioned<A>(s: Seq<A>, p: spec_fn(A) -> bool) -> bool {
    forall|i: int, j: int| 0 <= i <= j < s.len() && #[trigger] p(s[j]) ==> #[trigger] p(s[i])
}

/// `leading` is the point where a partitioned sequence changes from elements
/// satisfying `p` to elements that do not.
pub proof fn lemma_leading_exact<A>(s: Seq<A>, p: spec_fn(A) -> bool, k: int)
    requires
        0 <= k <= s.len(),
        forall|i: int| 0 <= i < k ==> #[trigger] p(s[i]),
        k < s.len() ==> !p(s[k]),
    ensures
        leading(s, p) == k,
    decreases k,
{
    if k > 0 {
        assert(p(s[0]));
        let t = s.drop_first();
        assert forall|i: int| 0 <= i < k - 1 implies #[trigger] p(t[i]) by {
            assert(t[i] == s[i + 1]);
        }
        if k < s.len() {
            assert(t[k - 1] == s[k]);
        }
        lemma_leading_exact(t, p, k - 1);
    }
}

/// How a lookup probes a stored value.
pub enum Probe<X> {
    /// The probe point is at or after the value's X.
    KeyAtMost(X),
    /// The value's X is before the probe point.
    KeyBelow(X),
    /// The probe endpoint is after the start of the value's span.
    StartBefore(Endpoint<X>),
    /// The probe endpoint is at or after the end of the value's span.
    EndAtMost(Endpoint<X>),
}

/// Whether a stored value, sitting at `key` and taking up `ext`, passes a probe.
pub open spec fn probe_holds<X: PartialOrd>(p: Probe<X>, key: X, ext: SpanAny<X>) -> bool {
    match p {
        Probe::KeyAtMost(x) => x.is_ge(&key),
        Probe::KeyBelow(x) => key.is_lt(&x),
        Probe::StartBefore(e) => e.is_gt(&ext.st),
        Probe::EndAtMost(e) => e.is_ge(&ext.en),
    }
}

/// Probe as a predicate on stored values.
pub open spec fn probe_pred<V, X: PartialOrd>(
    p: Probe<X>,
    key: spec_fn(V) -> X,
    ext: spec_fn(V) -> SpanAny<X>,
) -> spec_fn(V) -> bool {
    |v: V| probe_holds(p, key(v), ext(v))
}

/// The values are in order of their X.
pub open spec fn sorted_by_key<V, X: PartialOrd>(s: Seq<V>, key: spec_fn(V) -> X) -> bool {
    forall|i: int, j: int| #![trigger s[i], s[j]] 0 <= i <= j < s.len() ==> key(s[i]).is_le(&key(s[j]))
}

/// The count of leading values that pass a probe.
pub open spec fn probe_count<V, X: PartialOrd>(
    s: Seq<V>,
    p: Probe<X>,
    key: spec_fn(V) -> X,
    ext: spec_fn(V) -> SpanAny<X>,
) -> int {
    leading(s, probe_pred(p, key, ext)) as int
}

/// The first index at or past `k`, if there is one.
pub open spec fn index_below(k: int, len: int) -> Option<usize> {
    if k < len {
        Some(k as usize)
    } else {
        None
    }
}

/// The index `span_before_idx` finds: the record before the first one at or
/// after `x`, or that record itself when its span ends before `x`.
pub open spec fn span_before_spec<V, X: PartialOrd>(
    s: Seq<V>,
    x: X,
    key: spec_fn(V) -> X,
    ext: spec_fn(V) -> SpanAny<X>,
) -> Option<usize> {
    if s.len() == 0 {
        None
    } else {
        let lb = probe_count(s, Probe::KeyBelow(x), key, ext);
        let idx = if lb < s.len() {
            lb
        } else {
            s.len() - 1
        };
        if ext(s[idx]).en.is_ge(&x) {
            if idx == 0 {
                None
            } else {
                Some((idx - 1) as usize)
            }
        } else {
            Some(idx as usize)
        }
    }
}

/// The index `span_at_or_before_idx` finds: the first record starting after
/// `x` when its span ends at or before `x`, else the record before it (the
/// last record starting at or before `x`).
pub open spec fn span_at_or_before_spec<V, X: PartialOrd>(
    s: Seq<V>,
    x: X,
    key: spec_fn(V) -> X,
    ext: spec_fn(V) -> SpanAny<X>,
) -> Option<usize> {
    let ub = probe_count(s, Probe::KeyAtMost(x), key, ext);
    if ub < s.len() && ext(s[ub]).en.is_le(&x) {
        Some(ub as usize)
    } else if ub == 0 {
        None
    } else {
        Some((ub - 1) as usize)
    }
}

/// The index `span_at_or_after_idx` finds: the first record at or after `x`,
/// or the one after it when its span ends before `x`.
pub open spec fn span_at_or_after_spec<V, X: PartialOrd>(
    s: Seq<V>,
    x: X,
    key: spec_fn(V) -> X,
    ext: spec_fn(V) -> SpanAny<X>,
) -> Option<usize> {
    let idx = probe_count(s, Probe::KeyBelow(x), key, ext);
    if idx >= s.len() {
        None
    } else if ext(s[idx]).en.is_ge(&x) {
        Some(idx as usize)
    } else if idx + 1 < s.len() {
        Some((idx + 1) as usize)
    } else {
        None
    }
}

/// The index `span_after_idx` finds: the first record after `x`, or the one
/// after it when its span does not end after `x`.
pub open spec fn span_after_spec<V, X: PartialOrd>(
    s: Seq<V>,
    x: X,
    key: spec_fn(V) -> X,
    ext: spec_fn(V) -> SpanAny<X>,
) -> Option<usize> {
    let idx = probe_count(s, Probe::KeyAtMost(x), key, ext);
    if idx >= s.len() {
        None
    } else if ext(s[idx]).en.is_gt(&x) {
        Some(idx as usize)
    } else if idx + 1 < s.len() {
        Some((idx + 1) as usize)
    } else {
        None
    }
}

/// The element at an index found by a lookup.
pub open spec fn at_index<'a, A>(s: Seq<A>, idx: Option<usize>) -> Option<&'a A> {
    match idx {
        Some(i) => if i < s.len() {
            Some(&s[i as int])
        } else {
            None
        },
        None => None,
    }
}

/// Where `subseq` and `subseq_series` cut the values for the span `span`.
pub open spec fn subseq_cut<V, X: PartialOrd>(
    s: Seq<V>,
    span: SpanAny<X>,
    key: spec_fn(V) -> X,
    ext: spec_fn(V) -> SpanAny<X>,
) -> (int, int) {
    (
        if span.st == left_unbounded::<X>() {
            0
        } else {
            probe_count(s, Probe::StartBefore(span.st), key, ext)
        },
        if span.en == right_unbounded::<X>() {
            s.len() as int
        } else {
            probe_count(s, Probe::EndAtMost(span.en), key, ext)
        },
    )
}

/// The cuts of `subseq` are meaningful: the values are in order of their
/// spans' starts and of their spans' ends, so that each probe splits them into
/// a run that passes it and a run that does not.
pub open spec fn subseq_well_cut<V, X: PartialOrd>(
    s: Seq<V>,
    span: SpanAny<X>,
    key: spec_fn(V) -> X,
    ext: spec_fn(V) -> SpanAny<X>,
) -> bool {
    &&& span.st == left_unbounded::<X>() || partitioned(
        s,
        probe_pred(Probe::StartBefore(span.st), key, ext),
    )
    &&& span.en == right_unbounded::<X>() || partitioned(
        s,
        probe_pred(Probe::EndAtMost(span.en), key, ext),
    )
}

/// The values `subseq` gives for the span `span`: those from the start cut
/// up to the end cut; none where the start cut is past the end cut, as for an
/// empty span or one inside a single value's span.
pub open spec fn subseq_run<V, X: PartialOrd>(
    s: Seq<V>,
    span: SpanAny<X>,
    key: spec_fn(V) -> X,
    ext: spec_fn(V) -> SpanAny<X>,
) -> Seq<V> {
    let c = subseq_cut(s, span, key, ext);
    if c.0 <= c.1 {
        s.subrange(c.0, c.1)
    } else {
        Seq::empty()
    }
}

/// Where an index range `range` cuts a sequence of length `len`.
pub open spec fn index_cut(len: int, range: (Bound<usize>, Bound<usize>)) -> (int, int) {
    (
        match range.0 {
            Bound::Included(s) => s as int,
            Bound::Excluded(s) => s + 1,
            Bound::Unbounded => 0,
        },
        match range.1 {
            Bound::Included(e) => e + 1,
            Bound::Excluded(e) => e as int,
            Bound::Unbounded => len,
        },
    )
}

/// The position at which `push` puts `elt`: after every value at or before
/// its X.
pub open spec fn push_position<V, X: PartialOrd>(
    s: Seq<V>,
    elt: V,
    key: spec_fn(V) -> X,
    ext: spec_fn(V) -> SpanAny<X>,
) -> int {
    probe_count(s, Probe::KeyAtMost(key(elt)), key, ext)
}

/// The point where the values stop passing the test `f` (the partition point),
/// by binary search. Where `good` holds, `f` computes `pred`.
pub fn search<V, F: Fn(&V) -> bool>(
    data: &[V],
    f: F,
    Ghost(pred): Ghost<spec_fn(V) -> bool>,
    Ghost(good): Ghost<bool>,
) -> (r: usize)
    requires
        forall|v: &V| #[trigger] f.requires((v,)),
        good ==> forall|v: &V, b: bool| #[trigger] f.ensures((v,), b) ==> b == pred(*v),
    ensures
        r <= data@.len(),
        good && partitioned(data@, pred) ==> r == leading(data@, pred),
{
    let ghost ok = good && partitioned(data@, pred);
    let mut lo: usize = 0;
    let mut hi: usize = data.len();
    while lo < hi
        invariant
            lo <= hi <= data@.len(),
            forall|v: &V| #[trigger] f.requires((v,)),
            good ==> forall|v: &V, b: bool| #[trigger] f.ensures((v,), b) ==> b == pred(*v),
            ok == (good && partitioned(data@, pred)),
            ok ==> forall|i: int| 0 <= i < lo ==> #[trigger] pred(data@[i]),
            ok ==> forall|i: int| hi <= i < data@.len() ==> !#[trigger] pred(data@[i]),
        decreases hi - lo,
    {
        let mid = lo + (hi - lo) / 2;
        let b = f(&data[mid]);
        if b {
            proof {
                if ok {
                    assert(pred(data@[mid as int]));
                    assert forall|i: int| 0 <= i < mid + 1 implies #[trigger] pred(data@[i]) by {
                        assert(pred(data@[mid as int]));
                    }
                }
            }
            lo = mid + 1;
        } else {
            proof {
                if ok {
                    assert(!pred(data@[mid as int]));
                    assert forall|i: int| mid <= i < data@.len() implies !#[trigger] pred(
                        data@[i],
                    ) by {
                        if pred(data@[i]) {
                            assert(pred(data@[mid as int]));
                        }
                    }
                }
            }
            hi = mid;
        }
    }
    proof {
        if ok {
            lemma_leading_exact(data@, pred, lo as int);
        }
    }
    lo
}

/// Values sorted by their X are partitioned by the probes on their X.
pub proof fn lemma_sorted_partitioned<V, X: PartialOrd>(
    s: Seq<V>,
    x: X,
    key: spec_fn(V) -> X,
    ext: spec_fn(V) -> SpanAny<X>,
)
    requires
        total_order::<X>(),
        sorted_by_key(s, key),
    ensures
        partitioned(s, probe_pred(Probe::KeyAtMost(x), key, ext)),
        partitioned(s, probe_pred(Probe::KeyBelow(x), key, ext)),
{
    let p1 = probe_pred(Probe::KeyAtMost(x), key, ext);
    let p2 = probe_pred(Probe::KeyBelow(x), key, ext);
    assert forall|i: int, j: int| 0 <= i <= j < s.len() && #[trigger] p1(s[j]) implies #[trigger] p1(
        s[i],
    ) by {
        assert(key(s[i]).is_le(&key(s[j])));
        lemma_trichotomy(x, key(s[j]));
        lemma_trichotomy(x, key(s[i]));
        lemma_le_trans(key(s[i]), key(s[j]), x);
    }
    assert forall|i: int, j: int| 0 <= i <= j < s.len() && #[trigger] p2(s[j]) implies #[trigger] p2(
        s[i],
    ) by {
        assert(key(s[i]).is_le(&key(s[j])));
        lemma_le_trans(key(s[i]), key(s[j]), x);
    }
}

/// In a partitioned sequence, the values before `leading` pass the test and
/// the values from it on do not.
pub proof fn lemma_leading_split<A>(s: Seq<A>, p: spec_fn(A) -> bool)
    requires
        partitioned(s, p),
    ensures
        0 <= leading(s, p) <= s.len(),
        forall|i: int| 0 <= i < leading(s, p) ==> #[trigger] p(s[i]),
        forall|i: int| leading(s, p) <= i < s.len() ==> !#[trigger] p(s[i]),
    decreases s.len(),
{
    if s.len() > 0 && p(s[0]) {
        let t = s.drop_first();
        assert forall|i: int, j: int| 0 <= i <= j < t.len() && #[trigger] p(t[j]) implies #[trigger] p(
            t[i],
        ) by {
            assert(p(s[j + 1]));
        }
        lemma_leading_split(t, p);
        assert forall|i: int| 0 <= i < leading(s, p) implies #[trigger] p(s[i]) by {
            if i > 0 {
                assert(p(t[i - 1]));
            }
        }
        assert forall|i: int| leading(s, p) <= i < s.len() implies !#[trigger] p(s[i]) by {
            assert(!p(t[i - 1]));
        }
    } else if s.len() > 0 {
        assert forall|i: int| 0 <= i < s.len() implies !#[trigger] p(s[i]) by {
            if p(s[i]) {
                assert(p(s[0]));
            }
        }
    }
}

/// Pushing into a sorted series: the value goes right after the last value
/// whose X is at or before its own (every value before the push position
/// has X at most the new X, every value from it on a larger X), so values
/// with the same X keep the order they were pushed in, and the values stay
/// sorted by their X.
pub proof fn lemma_push_sorted<V, X: PartialOrd>(
    s: Seq<V>,
    elt: V,
    key: spec_fn(V) -> X,
    ext: spec_fn(V) -> SpanAny<X>,
)
    requires
        total_order::<X>(),
        sorted_by_key(s, key),
    ensures
        0 <= push_position(s, elt, key, ext) <= s.len(),
        sorted_by_key(s.insert(push_position(s, elt, key, ext), elt), key),
        forall|i: int|
            0 <= i < push_position(s, elt, key, ext) ==> key(#[trigger] s[i]).is_le(&key(elt)),
        forall|i: int|
            push_position(s, elt, key, ext) <= i < s.len() ==> key(#[trigger] s[i]).is_gt(&key(elt)),
{
    let x = key(elt);
    let p = probe_pred(Probe::KeyAtMost(x), key, ext);
    lemma_sorted_partitioned(s, x, key, ext);
    lemma_leading_split(s, p);
    let k = push_position(s, elt, key, ext);
    assert forall|i: int| 0 <= i < k implies key(#[trigger] s[i]).is_le(&x) by {
        assert(p(s[i]));
        lemma_trichotomy(x, key(s[i]));
    }
    assert forall|i: int| k <= i < s.len() implies key(#[trigger] s[i]).is_gt(&x) by {
        assert(!p(s[i]));
        lemma_trichotomy(x, key(s[i]));
    }
    let t = s.insert(k, elt);
    lemma_trichotomy(x, x);
    assert forall|i: int, j: int| #![trigger t[i], t[j]] 0 <= i <= j < t.len() implies key(
        t[i],
    ).is_le(&key(t[j])) by {
        if i < k && j < k {
            assert(t[i] == s[i] && t[j] == s[j]);
        } else if i < k && j == k {
            assert(t[i] == s[i]);
        } else if i < k {
            assert(t[i] == s[i] && t[j] == s[j - 1]);
            assert(key(s[i]).is_le(&x));
            assert(key(s[j - 1]).is_gt(&x));
            lemma_trichotomy(key(s[j - 1]), x);
            lemma_le_trans(key(s[i]), x, key(s[j - 1]));
        } else if i == k && j == k {
        } else if i == k {
            assert(t[j] == s[j - 1]);
            assert(key(s[j - 1]).is_gt(&x));
            lemma_trichotomy(key(s[j - 1]), x);
        } else {
            assert(t[i] == s[i - 1] && t[j] == s[j - 1]);
        }
    }
}

/// After a push, the last value at or before the pushed value's X is the
/// pushed value: `lower_bound_last` finds it.
pub proof fn lemma_push_then_lower_bound_last<V, X: PartialOrd>(
    s: Seq<V>,
    elt: V,
    key: spec_fn(V) -> X,
    ext: spec_fn(V) -> SpanAny<X>,
)
    requires
        total_order::<X>(),
        sorted_by_key(s, key),
    ensures
        ({
            let k = push_position(s, elt, key, ext);
            let t = s.insert(k, elt);
            &&& probe_count(t, Probe::KeyAtMost(key(elt)), key, ext) == k + 1
            &&& t[k] == elt
        }),
{
    lemma_push_sorted(s, elt, key, ext);
    let x = key(elt);
    let k = push_position(s, elt, key, ext);
    let t = s.insert(k, elt);
    let p = probe_pred(Probe::KeyAtMost(x), key, ext);
    assert forall|i: int| 0 <= i < k + 1 implies #[trigger] p(t[i]) by {
        if i < k {
            assert(t[i] == s[i]);
            assert(key(s[i]).is_le(&x));
        }
        lemma_trichotomy(x, key(t[i]));
    }
    if k + 1 < t.len() {
        assert(t[k + 1] == s[k]);
        assert(key(s[k]).is_gt(&x));
        lemma_trichotomy(x, key(s[k]));
    }
    lemma_leading_exact(t, p, k + 1);
}

/// A series of values, each sitting at an X and taking up a span of X values,
/// kept in order of X. Lookup, subsequence and push go by the order of X.
pub trait Series: Sized {
    /// X coordinate value. Must be sortable.
    type X: PartialOrd + Copy;
    /// Value.
    type Y;
    /// Type for storage.
    type V: Copy;

    /// The X each stored value sits at.
    spec fn key_of() -> spec_fn(Self::V) -> Self::X;

    /// The span of X values each stored value takes up.
    spec fn extent_of() -> spec_fn(Self::V) -> SpanAny<Self::X>;

    /// The Y of a stored value.
    spec fn value_of(v: Self::V) -> Self::Y;

    /// The stored values, in order.
    spec fn values(&self) -> Seq<Self::V>;

    /// Returns the `SeriesInner` for this series.
    fn inner(&self) -> (r: &SeriesInner<Self::V>)
        ensures
            r.wf(),
            r@ == self.values(),
            total_order::<Self::X>() ==> sorted_by_key(self.values(), Self::key_of()),
    ;

    /// Returns a new `Series` of the underlying type from the given `SeriesInner`.
    fn make_from_inner(&self, inner: SeriesInner<Self::V>) -> (r: Self)
        requires
            inner.wf(),
            total_order::<Self::X>() ==> sorted_by_key(inner@, Self::key_of()),
        ensures
            r.values() == inner@,
    ;

    /// Returns a representative X value for the given value.
    fn x(v: &Self::V) -> (r: Self::X)
        ensures
            r == Self::key_of()(*v),
    ;

    /// Returns the Y value for the given value.
    fn y(v: &Self::V) -> (r: &Self::Y)
        ensures
            *r == Self::value_of(*v),
    ;

    /// Returns span of X values that the given value takes up.
    fn span_of(v: &Self::V) -> (r: SpanAny<Self::X>)
        ensures
            r == Self::extent_of()(*v),
    ;

    /// Pushes a new value into the series, after every value at or before
    /// its X and before every value after it.
    fn push(&mut self, elt: Self::V) -> (r: Result<()>)
        ensures
            r is Ok,
            total_order::<Self::X>() ==> final(self).values() == old(self).values().insert(
                push_position(old(self).values(), elt, Self::key_of(), Self::extent_of()),
                elt,
            ),
    ;

    fn slice(&self) -> (r: &[Self::V])
        ensures
            r@ == self.values(),
            total_order::<Self::X>() ==> sorted_by_key(self.values(), Self::key_of()),
    {
        self.inner().slice()
    }

    /// The X value of every value, in order.
    fn xs(&self) -> (r: Vec<Self::X>)
        ensures
            r@.len() == self.values().len(),
            forall|i: int| 0 <= i < r@.len() ==> #[trigger] r@[i] == Self::key_of()(self.values()[i]),
    {
        let s = self.slice();
        let mut out: Vec<Self::X> = Vec::new();
        let mut i: usize = 0;
        while i < s.len()
            invariant
                i <= s@.len(),
                s@ == self.values(),
                out@.len() == i,
                forall|j: int| 0 <= j < i ==> #[trigger] out@[j] == Self::key_of()(s@[j]),
            decreases s@.len() - i,
        {
            out.push(Self::x(&s[i]));
            i += 1;
        }
        out
    }

    /// The Y value of every value, in order.
    fn ys(&self) -> (r: Vec<&Self::Y>)
        ensures
            r@.len() == self.values().len(),
            forall|i: int| 0 <= i < r@.len() ==> *#[trigger] r@[i] == Self::value_of(self.values()[i]),
    {
        let s = self.slice();
        let mut out: Vec<&Self::Y> = Vec::new();
        let mut i: usize = 0;
        while i < s.len()
            invariant
                i <= s@.len(),
                s@ == self.values(),
                out@.len() == i,
                forall|j: int| 0 <= j < i ==> *#[trigger] out@[j] == Self::value_of(s@[j]),
            decreases s@.len() - i,
        {
            out.push(Self::y(&s[i]));
            i += 1;
        }
        out
    }

    fn get(&self, idx: usize) -> (r: Option<&Self::V>)
        ensures
            r == (if idx < self.values().len() {
                Some(&self.values()[idx as int])
            } else {
                None
            }),
    {
        let s = self.slice();
        if idx < s.len() {
            Some(&s[idx])
        } else {
            None
        }
    }

    fn get_y(&self, idx: usize) -> (r: Option<&Self::Y>)
        ensures
            r == (if idx < self.values().len() {
                Some(&Self::value_of(self.values()[idx as int]))
            } else {
                None
            }),
    {
        match self.get(idx) {
            Some(v) => Some(Self::y(v)),
            None => None,
        }
    }

    fn first(&self) -> (r: Option<&Self::V>)
        ensures
            r == (if self.values().len() > 0 {
                Some(&self.values()[0])
            } else {
                None
            }),
    {
        self.get(0)
    }

    fn last(&self) -> (r: Option<&Self::V>)
        ensures
            r == (if self.values().len() > 0 {
                Some(&self.values().last())
            } else {
                None
            }),
    {
        let n = self.len();
        if n == 0 {
            None
        } else {
            self.get(n - 1)
        }
    }

    fn len(&self) -> (r: usize)
        ensures
            r == self.values().len(),
    {
        self.slice().len()
    }

    fn is_empty(&self) -> (r: bool)
        ensures
            r == (self.values().len() == 0),
    {
        self.len() == 0
    }

    /// The number of leading values at or before `x`: where a value with X
    /// equal to `x` would be pushed.
    fn upper_bound_count(&self, x: Self::X) -> (r: usize)
        ensures
            r <= self.values().len(),
            total_order::<Self::X>() ==> r == probe_count(
                self.values(),
                Probe::KeyAtMost(x),
                Self::key_of(),
                Self::extent_of(),
            ),
    {
        let data = self.slice();
        proof {
            if total_order::<Self::X>() {
                lemma_sorted_partitioned(data@, x, Self::key_of(), Self::extent_of());
            }
        }
        let f = |v: &Self::V| -> (b: bool)
            ensures
                ordered::<Self::X>() ==> b == probe_holds(
                    Probe::KeyAtMost(x),
                    Self::key_of()(*v),
                    Self::extent_of()(*v),
                ),
            { x >= Self::x(v) };
        search(
            data,
            f,
            Ghost(probe_pred(Probe::KeyAtMost(x), Self::key_of(), Self::extent_of())),
            Ghost(ordered::<Self::X>()),
        )
    }

    /// The number of leading values before `x`.
    fn lower_bound_count(&self, x: Self::X) -> (r: usize)
        ensures
            r <= self.values().len(),
            total_order::<Self::X>() ==> r == probe_count(
                self.values(),
                Probe::KeyBelow(x),
                Self::key_of(),
                Self::extent_of(),
            ),
    {
        let data = self.slice();
        proof {
            if total_order::<Self::X>() {
                lemma_sorted_partitioned(data@, x, Self::key_of(), Self::extent_of());
            }
        }
        let f = |v: &Self::V| -> (b: bool)
            ensures
                ordered::<Self::X>() ==> b == probe_holds(
                    Probe::KeyBelow(x),
                    Self::key_of()(*v),
                    Self::extent_of()(*v),
                ),
            { Self::x(v) < x };
        search(
            data,
            f,
            Ghost(probe_pred(Probe::KeyBelow(x), Self::key_of(), Self::extent_of())),
            Ghost(ordered::<Self::X>()),
        )
    }

    /// Find the first thing greater than |x|
    fn upper_bound_idx(&self, x: Self::X) -> (r: Option<usize>)
        ensures
            r matches Some(i) ==> i < self.values().len(),
            total_order::<Self::X>() ==> r == index_below(
                probe_count(self.values(), Probe::KeyAtMost(x), Self::key_of(), Self::extent_of()),
                self.values().len() as int,
            ),
    {
        let idx = self.upper_bound_count(x);
        if idx < self.len() {
            Some(idx)
        } else {
            None
        }
    }

    /// Find the first thing not less than |x|
    fn lower_bound_idx(&self, x: Self::X) -> (r: Option<usize>)
        ensures
            r matches Some(i) ==> i < self.values().len(),
            total_order::<Self::X>() ==> r == index_below(
                probe_count(self.values(), Probe::KeyBelow(x), Self::key_of(), Self::extent_of()),
                self.values().len() as int,
            ),
    {
        let idx = self.lower_bound_count(x);
        if idx < self.len() {
            Some(idx)
        } else {
            None
        }
    }

    /// Find the first thing not less than |x| (>= x).
    fn lower_bound(&self, x: Self::X) -> (r: Option<&Self::V>)
        ensures
            total_order::<Self::X>() ==> r == at_index(
                self.values(),
                index_below(
                    probe_count(
                        self.values(),
                        Probe::KeyBelow(x),
                        Self::key_of(),
                        Self::extent_of(),
                    ),
                    self.values().len() as int,
                ),
            ),
    {
        match self.lower_bound_idx(x) {
            Some(idx) => self.get(idx),
            None => None,
        }
    }

    /// Find the last element less than or equal to x
    fn lower_bound_last_idx(&self, x: Self::X) -> (r: Option<usize>)
        ensures
            total_order::<Self::X>() ==> r == (if probe_count(
                self.values(),
                Probe::KeyAtMost(x),
                Self::key_of(),
                Self::extent_of(),
            ) > 0 {
                Some(
                    (probe_count(
                        self.values(),
                        Probe::KeyAtMost(x),
                        Self::key_of(),
                        Self::extent_of(),
                    ) - 1) as usize,
                )
            } else {
                None
            }),
    {
        let idx = self.upper_bound_count(x);
        idx.checked_sub(1)
    }

    /// Find the last element less than or equal to x
    fn lower_bound_last(&self, x: Self::X) -> (r: Option<&Self::V>)
        ensures
            total_order::<Self::X>() ==> r == at_index(
                self.values(),
                if probe_count(
                    self.values(),
                    Probe::KeyAtMost(x),
                    Self::key_of(),
                    Self::extent_of(),
                ) > 0 {
                    Some(
                        (probe_count(
                            self.values(),
                            Probe::KeyAtMost(x),
                            Self::key_of(),
                            Self::extent_of(),
                        ) - 1) as usize,
                    )
                } else {
                    None
                },
            ),
    {
        match self.lower_bound_last_idx(x) {
            Some(idx) => self.get(idx),
            None => None,
        }
    }

    /// Lookup the index of the record which comes before |x|.
    fn span_before_idx(&self, x: Self::X) -> (r: Option<usize>)
        ensures
            total_order::<Self::X>() ==> r == span_before_spec(
                self.values(),
                x,
                Self::key_of(),
                Self::extent_of(),
            ),
    {
        let n = self.len();
        if n == 0 {
            return None;
        }
        let idx = match self.lower_bound_idx(x) {
            Some(i) => i,
            None => n - 1,
        };
        let v = self.get(idx).unwrap();
        if Self::span_of(v).en >= x {
            idx.checked_sub(1)
        } else {
            Some(idx)
        }
    }

    /// Lookup the record which comes before |x|.
    fn span_before(&self, x: Self::X) -> (r: Option<&Self::V>)
        ensures
            total_order::<Self::X>() ==> r == at_index(
                self.values(),
                span_before_spec(self.values(), x, Self::key_of(), Self::extent_of()),
            ),
    {
        match self.span_before_idx(x) {
            Some(idx) => self.get(idx),
            None => None,
        }
    }

    /// Lookup the index of the record which contains |x|. If no such record
    /// exists, look up the record which is immediately before |x|,
    /// if it exists.
    fn span_at_or_before_idx(&self, x: Self::X) -> (r: Option<usize>)
        ensures
            total_order::<Self::X>() ==> r == span_at_or_before_spec(
                self.values(),
                x,
                Self::key_of(),
                Self::extent_of(),
            ),
    {
        let n = self.len();
        let idx = self.upper_bound_count(x);
        if idx < n && Self::span_of(self.get(idx).unwrap()).en <= x {
            Some(idx)
        } else {
            idx.checked_sub(1)
        }
    }

    /// Lookup the record which contains |x|. If no such record exists, look up
    /// the record which is immediately before |x|, if it exists.
    fn span_at_or_before(&self, x: Self::X) -> (r: Option<&Self::V>)
        ensures
            total_order::<Self::X>() ==> r == at_index(
                self.values(),
                span_at_or_before_spec(self.values(), x, Self::key_of(), Self::extent_of()),
            ),
    {
        match self.span_at_or_before_idx(x) {
            Some(idx) => self.get(idx),
            None => None,
        }
    }

    /// Lookup the index of the record which contains |x|. If no such record
    /// exists, look up the record which is immediately after |x|,
    /// if it exists.
    fn span_at_or_after_idx(&self, x: Self::X) -> (r: Option<usize>)
        ensures
            total_order::<Self::X>() ==> r == span_at_or_after_spec(
                self.values(),
                x,
                Self::key_of(),
                Self::extent_of(),
            ),
    {
        let n = self.len();
        match self.lower_bound_idx(x) {
            None => None,
            Some(idx) => {
                let v = self.get(idx).unwrap();
                if Self::span_of(v).en >= x {
                    Some(idx)
                } else if idx + 1 < n {
                    Some(idx + 1)
                } else {
                    None
                }
            },
        }
    }

    /// Lookup the record which contains |x|. If no such record exists, look up
    /// the record which is immediately after |x|, if it exists.
    fn span_at_or_after(&self, x: Self::X) -> (r: Option<&Self::V>)
        ensures
            total_order::<Self::X>() ==> r == at_index(
                self.values(),
                span_at_or_after_spec(self.values(), x, Self::key_of(), Self::extent_of()),
            ),
    {
        match self.span_at_or_after_idx(x) {
            Some(idx) => self.get(idx),
            None => None,
        }
    }

    /// Lookup the index of the record which comes after |x|.
    fn span_after_idx(&self, x: Self::X) -> (r: Option<usize>)
        ensures
            total_order::<Self::X>() ==> r == span_after_spec(
                self.values(),
                x,
                Self::key_of(),
                Self::extent_of(),
            ),
    {
        let n = self.len();
        match self.upper_bound_idx(x) {
            None => None,
            Some(idx) => {
                let v = self.get(idx).unwrap();
                if Self::span_of(v).en > x {
                    Some(idx)
                } else if idx + 1 < n {
                    Some(idx + 1)
                } else {
                    None
                }
            },
        }
    }

    /// Lookup the record which comes after |x|.
    fn span_after(&self, x: Self::X) -> (r: Option<&Self::V>)
        ensures
            total_order::<Self::X>() ==> r == at_index(
                self.values(),
                span_after_spec(self.values(), x, Self::key_of(), Self::extent_of()),
            ),
    {
        match self.span_after_idx(x) {
            Some(idx) => self.get(idx),
            None => None,
        }
    }

    /// The cut points of `subseq` for the span `s`.
    fn subseq_cut(&self, s: &SpanAny<Self::X>) -> (r: (usize, usize))
        ensures
            r.0 <= self.values().len(),
            r.1 <= self.values().len(),
            ordered::<Self::X>() && subseq_well_cut(
                self.values(),
                *s,
                Self::key_of(),
                Self::extent_of(),
            ) ==> (r.0 as int, r.1 as int) == subseq_cut(
                self.values(),
                *s,
                Self::key_of(),
                Self::extent_of(),
            ),
    {
        let data = self.slice();
        let sp = *s;
        let st = if sp.st.is_left_unbounded() {
            0
        } else {
            let f = |v: &Self::V| -> (b: bool)
                ensures
                    ordered::<Self::X>() ==> b == probe_holds(
                        Probe::StartBefore(sp.st),
                        Self::key_of()(*v),
                        Self::extent_of()(*v),
                    ),
                { sp.st > Self::span_of(v).st };
            search(
                data,
                f,
                Ghost(probe_pred(Probe::StartBefore(sp.st), Self::key_of(), Self::extent_of())),
                Ghost(ordered::<Self::X>()),
            )
        };
        let en = if sp.en.is_right_unbounded() {
            data.len()
        } else {
            let f = |v: &Self::V| -> (b: bool)
                ensures
                    ordered::<Self::X>() ==> b == probe_holds(
                        Probe::EndAtMost(sp.en),
                        Self::key_of()(*v),
                        Self::extent_of()(*v),
                    ),
                { sp.en >= Self::span_of(v).en };
            search(
                data,
                f,
                Ghost(probe_pred(Probe::EndAtMost(sp.en), Self::key_of(), Self::extent_of())),
                Ghost(ordered::<Self::X>()),
            )
        };
        (st, en)
    }

    /// Returns (cheaply) a subsequence of the series which contains all
    /// elements fully contained within the given span.
    fn subseq(&self, s: SpanAny<Self::X>) -> (r: &[Self::V])
        requires
            ordered::<Self::X>(),
            subseq_well_cut(self.values(), s, Self::key_of(), Self::extent_of()),
        ensures
            r@ == subseq_run(self.values(), s, Self::key_of(), Self::extent_of()),
    {
        let (st, en) = self.subseq_cut(&s);
        if st > en {
            return &self.slice()[st..st];
        }
        &self.slice()[st..en]
    }

    /// Returns (cheaply) a subsequence of the series which contains all
    /// elements fully contained within the given span.
    fn subseq_series(&self, s: SpanAny<Self::X>) -> (r: Self)
        requires
            ordered::<Self::X>(),
            subseq_well_cut(self.values(), s, Self::key_of(), Self::extent_of()),
        ensures
            !any_is_empty(s) && s.st is Unbounded && s.en is Unbounded ==> r.values()
                == self.values(),
            !(!any_is_empty(s) && s.st is Unbounded && s.en is Unbounded) ==> r.values()
                == subseq_run(self.values(), s, Self::key_of(), Self::extent_of()),
    {
        let inner = self.inner();
        proof {
            inner.lemma_view();
        }
        if s.is_unb() {
            let whole = inner.subseq((Bound::Unbounded, Bound::Unbounded));
            assert(self.values().subrange(0, self.values().len() as int) == self.values());
            return self.make_from_inner(whole);
        }
        let (st, en0) = self.subseq_cut(&s);
        let en = if st > en0 {
            st
        } else {
            en0
        };
        let sub = inner.subseq((Bound::Included(st), Bound::Excluded(en)));
        proof {
            assert(sub@ == self.values().subrange(st as int, en as int));
            if total_order::<Self::X>() {
                assert forall|i: int, j: int| #![trigger sub@[i], sub@[j]] 0 <= i <= j < sub@.len() implies Self::key_of()(sub@[i]).is_le(&Self::key_of()(sub@[j])) by {
                    assert(sub@[i] == self.values()[st + i]);
                    assert(sub@[j] == self.values()[st + j]);
                }
            }
        }
        self.make_from_inner(sub)
    }

    fn prefix(&self, n: usize) -> (r: Self)
        requires
            n <= self.values().len(),
        ensures
            r.values() == self.values().subrange(0, n as int),
    {
        let inner = self.inner();
        proof {
            inner.lemma_view();
        }
        let sub = inner.subseq((Bound::Unbounded, Bound::Excluded(n)));
        proof {
            if total_order::<Self::X>() {
                assert forall|i: int, j: int| #![trigger sub@[i], sub@[j]] 0 <= i <= j < sub@.len() implies Self::key_of()(sub@[i]).is_le(&Self::key_of()(sub@[j])) by {
                    assert(sub@[i] == self.values()[i]);
                    assert(sub@[j] == self.values()[j]);
                }
            }
        }
        self.make_from_inner(sub)
    }

    fn suffix(&self, n: usize) -> (r: Self)
        ensures
            r.values() == self.values().subrange(
                if n <= self.values().len() {
                    self.values().len() - n
                } else {
                    0
                },
                self.values().len() as int,
            ),
    {
        let st = self.len().saturating_sub(n);
        let inner = self.inner();
        proof {
            inner.lemma_view();
        }
        let sub = inner.subseq((Bound::Included(st), Bound::Unbounded));
        proof {
            if total_order::<Self::X>() {
                assert forall|i: int, j: int| #![trigger sub@[i], sub@[j]] 0 <= i <= j < sub@.len() implies Self::key_of()(sub@[i]).is_le(&Self::key_of()(sub@[j])) by {
                    assert(sub@[i] == self.values()[st + i]);
                    assert(sub@[j] == self.values()[st + j]);
                }
            }
        }
        self.make_from_inner(sub)
    }

    fn subseq_idx(&self, range: (Bound<usize>, Bound<usize>)) -> (r: &[Self::V])
        requires
            0 <= index_cut(self.values().len() as int, range).0 <= index_cut(
                self.values().len() as int,
                range,
            ).1 <= self.values().len(),
        ensures
            r@ == self.values().subrange(
                index_cut(self.values().len() as int, range).0,
                index_cut(self.values().len() as int, range).1,
            ),
    {
        let data = self.slice();
        let n = data.len();
        let st = match range.0 {
            Bound::Included(s) => s,
            Bound::Excluded(s) => {
                assert(s + 1 <= data@.len());
                s + 1
            },
            Bound::Unbounded => 0,
        };
        let en = match range.1 {
            Bound::Included(e) => {
                assert(e + 1 <= data@.len());
                e + 1
            },
            Bound::Excluded(e) => e,
            Bound::Unbounded => n,
        };
        &data[st..en]
    }

    fn subseq_idx_series(&self, range: (Bound<usize>, Bound<usize>)) -> (r: Self)
        requires
            0 <= index_cut(self.values().len() as int, range).0 <= index_cut(
                self.values().len() as int,
                range,
            ).1 <= self.values().len(),
        ensures
            r.values() == self.values().subrange(
                index_cut(self.values().len() as int, range).0,
                index_cut(self.values().len() as int, range).1,
            ),
    {
        let inner = self.inner();
        proof {
            inner.lemma_view();
        }
        let sub = inner.subseq(range);
        let ghost st = index_cut(self.values().len() as int, range).0;
        proof {
            assert(sub@ == self.values().subrange(
                st,
                index_cut(self.values().len() as int, range).1,
            ));
            if total_order::<Self::X>() {
                assert forall|i: int, j: int| #![trigger sub@[i], sub@[j]] 0 <= i <= j < sub@.len() implies Self::key_of()(sub@[i]).is_le(&Self::key_of()(sub@[j])) by {
                    assert(sub@[i] == self.values()[st + i]);
                    assert(sub@[j] == self.values()[st + j]);
                }
            }
        }
        self.make_from_inner(sub)
    }

    /// The span covering the spans of the first and the last value.
    fn span(&self) -> (r: SpanAny<Self::X>)
        requires
            self.values().len() > 0,
        ensures
            ordered::<Self::X>() ==> r == any_cover(
                Self::extent_of()(self.values()[0]),
                Self::extent_of()(self.values().last()),
            ),
    {
        let a = Self::span_of(self.first().unwrap());
        let b = Self::span_of(self.last().unwrap());
        SpanAny::cover(&a, &b)
    }
}

} // verus!
