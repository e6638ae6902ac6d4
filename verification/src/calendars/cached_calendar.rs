use vstd::prelude::*;

use crate::calendars::calendar::{lemma_same_rules_next, same_rules, span_view, Calendar};
use crate::error::{Error, Result};
use crate::parse::push_text;
use crate::span::exc::{exc_contains, SpanExc};
use crate::time::{instant_lt, instant_ok, Time, MAX_INSTANT, NANOS_PER_SEC};

verus! {

/// The time the `i`th of the spans `spans` cached over `span` is looked for
/// from: the start of `span`, then the end of the span before.
pub open spec fn chain_start(span: SpanExc<Time>, spans: Seq<SpanExc<Time>>, i: int) -> (i64, u32) {
    if i == 0 {
        span.st@
    } else {
        spans[i - 1].en@
    }
}

/// A span ending at the instant `e` is kept when looked for from `p` within
/// a cache ending at `en`: it ends after `p` and by `en`.
pub open spec fn kept(e: (i64, u32), p: (i64, u32), en: (i64, u32)) -> bool {
    &&& instant_lt(p, e)
    &&& !instant_lt(en, e)
}

/// The spans `spans` are those the calendar `cal` gives over `span`: each
/// the next span from where the last one ended (from the start of `span` at
/// first), as long as it ends within `span` and later than where it was
/// looked for from.
pub open spec fn cached_chain(cal: Calendar, span: SpanExc<Time>, spans: Seq<SpanExc<Time>>) -> bool {
    &&& forall|i: int|
        0 <= i < spans.len() ==> #[trigger] span_view(Some(spans[i])) == cal.next_view(
            chain_start(span, spans, i),
        ) && kept(
            spans[i].en@,
            chain_start(span, spans, i),
            span.en@,
        )
    &&& cal.next_view(chain_start(span, spans, spans.len() as int)) matches Some(v) ==> !kept(
        v.1,
        chain_start(span, spans, spans.len() as int),
        span.en@,
    )
}

/// A calendar's spans over a span of time, worked out once.
pub struct CachedCalendar {
    spans: Vec<SpanExc<Time>>,
    span: SpanExc<Time>,
}

impl CachedCalendar {
    /// The span of time the spans were worked out over.
    pub closed spec fn cached_span(&self) -> SpanExc<Time> {
        self.span
    }

    /// The spans worked out, in order.
    pub closed spec fn span_list(&self) -> Seq<SpanExc<Time>> {
        self.spans@
    }

    /// The spans `cal` gives over `span`, one after the other from the start
    /// of `span`, while they end within it.
    pub fn new(span: SpanExc<Time>, cal: &mut Calendar) -> (r: Self)
        ensures
            same_rules(*final(cal), *old(cal)),
            r.cached_span() == span,
            cached_chain(*old(cal), span, r.span_list()),
    {
        let mut spans: Vec<SpanExc<Time>> = Vec::new();
        let mut cur: Time = span.st;
        let mut done = false;
        proof {
            use_type_invariant(&cur);
        }
        while !done
            invariant
                same_rules(*cal, *old(cal)),
                instant_ok(cur@.0 as int),
                cur@.1 < NANOS_PER_SEC,
                cur@ == chain_start(span, spans@, spans.len() as int),
                forall|i: int|
                    0 <= i < spans.len() ==> #[trigger] span_view(Some(spans@[i]))
                        == old(cal).next_view(chain_start(span, spans@, i)) && kept(
                        spans@[i].en@,
                        chain_start(span, spans@, i),
                        span.en@,
                    ),
                done ==> (old(cal).next_view(cur@) matches Some(v) ==> !kept(v.1, cur@, span.en@)),
            decreases (MAX_INSTANT - cur@.0) * (NANOS_PER_SEC as int) - cur@.1, if done {
                0int
            } else {
                1int
            },
        {
            proof {
                lemma_same_rules_next(*cal, *old(cal), cur@);
            }
            match cal.next_span(&cur) {
                Some(next) => {
                    if next.en <= span.en && next.en > cur {
                        let ghost before = spans@;
                        spans.push(next);
                        proof {
                            use_type_invariant(&next.en);
                            assert forall|i: int| 0 <= i < spans.len() implies chain_start(
                                span,
                                spans@,
                                i,
                            ) == chain_start(span, before, i) by {}
                        }
                        cur = next.en;
                    } else {
                        done = true;
                    }
                },
                None => {
                    done = true;
                },
            }
        }
        Self { spans, span }
    }

    /// The first cached span that starts strictly after the time `t`; an
    /// error where `t` lies outside the cached span of time.
    pub fn next_span(&self, t: &Time) -> (r: Result<Option<SpanExc<Time>>>)
        ensures
            !exc_contains(self.cached_span(), *t) <==> r is Err,
            r is Err ==> r matches Err(Error::OutOfRange(_)),
            r matches Ok(Some(s)) ==> exists|i: int|
                0 <= i < self.span_list().len() && #[trigger] self.span_list()[i] == s && instant_lt(
                    t@,
                    s.st@,
                ) && forall|j: int|
                    0 <= j < i ==> !instant_lt(t@, #[trigger] self.span_list()[j].st@),
            r matches Ok(None) ==> forall|j: int|
                0 <= j < self.span_list().len() ==> !instant_lt(
                    t@,
                    #[trigger] self.span_list()[j].st@,
                ),
    {
        if !self.span.contains(t) {
            let mut msg = String::new();
            push_text(&mut msg, "requested time ");
            push_text(&mut msg, t.to_iso().as_str());
            push_text(&mut msg, " outside of cached span [");
            push_text(&mut msg, self.span.st.to_iso().as_str());
            push_text(&mut msg, ", ");
            push_text(&mut msg, self.span.en.to_iso().as_str());
            push_text(&mut msg, ")");
            return Err(Error::OutOfRange(msg));
        }
        let mut i: usize = 0;
        while i < self.spans.len()
            invariant
                i <= self.spans.len(),
                exc_contains(self.span, *t),
                forall|j: int| 0 <= j < i ==> !instant_lt(t@, #[trigger] self.spans@[j].st@),
            decreases self.spans.len() - i,
        {
            let s = self.spans[i];
            if s.st > *t {
                assert(self.span_list()[i as int] == s);
                return Ok(Some(s));
            }
            i += 1;
        }
        Ok(None)
    }

    /// The span of time the spans were worked out over.
    pub fn span(&self) -> (r: SpanExc<Time>)
        ensures
            r == self.cached_span(),
    {
        self.span
    }
}

} // verus!
