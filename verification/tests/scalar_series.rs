#![allow(unused_imports)]

use std::ops::Bound;

use mhrono::seq::inner::SeriesInner;
use mhrono::seq::scalar_series::ScalarSeries;
use mhrono::seq::series::Series;
use mhrono::seq::span_series::{SpanExcSeries, SpanExcSeriesRight};
use mhrono::span::any::SpanAny;
use mhrono::span::exc::SpanExc;
use chrono_tz::UTC;
use mhrono::seq::timeseries::TimeSeries;
use mhrono::time::ymdhms;

#[test]
fn scalar_series_scalar_upper_bound_idx() {
    let mut series = ScalarSeries::new();
    series.push((2, 10)).unwrap();
    series.push((5, 20)).unwrap();
    series.push((8, 30)).unwrap();

    assert_eq!(series.upper_bound_idx(4), Some(1));
    assert_eq!(series.upper_bound_idx(5), Some(2));
    assert_eq!(series.upper_bound_idx(1), Some(0));
    assert_eq!(series.upper_bound_idx(10), None);
}

#[test]
fn scalar_series_scalar_lower_bound_idx() {
    let mut series = ScalarSeries::new();
    series.push((2, 10)).unwrap();
    series.push((5, 20)).unwrap();
    series.push((8, 30)).unwrap();

    assert_eq!(series.lower_bound_idx(4), Some(1));
    assert_eq!(series.lower_bound_idx(5), Some(1));
    assert_eq!(series.lower_bound_idx(1), Some(0));
    assert_eq!(series.lower_bound_idx(10), None);
}

#[test]
fn scalar_series_scalar_lower_bound() {
    let mut series = ScalarSeries::new();
    series.push((2, 10)).unwrap();
    series.push((5, 20)).unwrap();
    series.push((8, 30)).unwrap();

    assert_eq!(series.lower_bound(4), Some(&(5, 20)));
    assert_eq!(series.lower_bound(5), Some(&(5, 20)));
    assert_eq!(series.lower_bound(1), Some(&(2, 10)));
    assert_eq!(series.lower_bound(10), None);
}

#[test]
fn scalar_series_scalar_lower_bound_last_idx() {
    let mut series = ScalarSeries::new();
    series.push((2, 10)).unwrap();
    series.push((5, 20)).unwrap();
    series.push((8, 30)).unwrap();

    assert_eq!(series.lower_bound_last_idx(4), Some(0));
    assert_eq!(series.lower_bound_last_idx(5), Some(1));
    assert_eq!(series.lower_bound_last_idx(1), None);
    assert_eq!(series.lower_bound_last_idx(8), Some(2));
}

#[test]
fn scalar_series_scalar_lower_bound_last() {
    let mut series = ScalarSeries::new();
    series.push((2, 10)).unwrap();
    series.push((5, 20)).unwrap();
    series.push((8, 30)).unwrap();

    assert_eq!(series.lower_bound_last(4), Some(&(2, 10)));
    assert_eq!(series.lower_bound_last(5), Some(&(5, 20)));
    assert_eq!(series.lower_bound_last(1), None);
    assert_eq!(series.lower_bound_last(8), Some(&(8, 30)));
}

#[test]
fn scalar_series_scalar_span_before_idx() {
    let mut series = ScalarSeries::new();
    series.push((2, 10)).unwrap();
    series.push((5, 20)).unwrap();
    series.push((8, 30)).unwrap();

    assert_eq!(series.span_before_idx(0), None);
    assert_eq!(series.span_before_idx(1), None);
    assert_eq!(series.span_before_idx(2), None);
    assert_eq!(series.span_before_idx(3), Some(0));
    assert_eq!(series.span_before_idx(4), Some(0));
    assert_eq!(series.span_before_idx(5), Some(0));
    assert_eq!(series.span_before_idx(6), Some(1));
    assert_eq!(series.span_before_idx(7), Some(1));
    assert_eq!(series.span_before_idx(8), Some(1));
    assert_eq!(series.span_before_idx(9), Some(2));
}

#[test]
fn scalar_series_scalar_span_before() {
    let mut series = ScalarSeries::new();
    series.push((2, 10)).unwrap();
    series.push((5, 20)).unwrap();
    series.push((8, 30)).unwrap();

    assert_eq!(series.span_before(0), None);
    assert_eq!(series.span_before(1), None);
    assert_eq!(series.span_before(2), None);
    assert_eq!(series.span_before(3), Some(&(2, 10)));
    assert_eq!(series.span_before(4), Some(&(2, 10)));
    assert_eq!(series.span_before(5), Some(&(2, 10)));
    assert_eq!(series.span_before(6), Some(&(5, 20)));
    assert_eq!(series.span_before(7), Some(&(5, 20)));
    assert_eq!(series.span_before(8), Some(&(5, 20)));
    assert_eq!(series.span_before(9), Some(&(8, 30)));
}

#[test]
fn scalar_series_scalar_span_after_idx() {
    let mut series = ScalarSeries::new();
    series.push((2, 10)).unwrap();
    series.push((5, 20)).unwrap();
    series.push((8, 30)).unwrap();

    assert_eq!(series.span_after_idx(0), Some(0));
    assert_eq!(series.span_after_idx(1), Some(0));
    assert_eq!(series.span_after_idx(2), Some(1));
    assert_eq!(series.span_after_idx(3), Some(1));
    assert_eq!(series.span_after_idx(4), Some(1));
    assert_eq!(series.span_after_idx(5), Some(2));
    assert_eq!(series.span_after_idx(6), Some(2));
    assert_eq!(series.span_after_idx(7), Some(2));
    assert_eq!(series.span_after_idx(8), None);
    assert_eq!(series.span_after_idx(9), None);
}

#[test]
fn scalar_series_scalar_span_after() {
    let mut series = ScalarSeries::new();
    series.push((2, 10)).unwrap();
    series.push((5, 20)).unwrap();
    series.push((8, 30)).unwrap();

    assert_eq!(series.span_after(0), Some(&(2, 10)));
    assert_eq!(series.span_after(1), Some(&(2, 10)));
    assert_eq!(series.span_after(2), Some(&(5, 20)));
    assert_eq!(series.span_after(3), Some(&(5, 20)));
    assert_eq!(series.span_after(4), Some(&(5, 20)));
    assert_eq!(series.span_after(5), Some(&(8, 30)));
    assert_eq!(series.span_after(6), Some(&(8, 30)));
    assert_eq!(series.span_after(7), Some(&(8, 30)));
    assert_eq!(series.span_after(8), None);
    assert_eq!(series.span_after(9), None);
}

#[test]
fn scalar_span_at_or_before() {
    let mut series = ScalarSeries::new();
    series.push((2, 10)).unwrap();
    series.push((5, 20)).unwrap();
    series.push((8, 30)).unwrap();

    assert_eq!(series.span_at_or_before(0), None);
    assert_eq!(series.span_at_or_before(1), None);
    assert_eq!(series.span_at_or_before(2), Some(&(2, 10)));
    assert_eq!(series.span_at_or_before(3), Some(&(2, 10)));
    assert_eq!(series.span_at_or_before(5), Some(&(5, 20)));
    assert_eq!(series.span_at_or_before(7), Some(&(5, 20)));
    assert_eq!(series.span_at_or_before(8), Some(&(8, 30)));
    assert_eq!(series.span_at_or_before(9), Some(&(8, 30)));
}

#[test]
fn scalar_span_at_or_before_idx() {
    let mut series = ScalarSeries::new();
    series.push((2, 10)).unwrap();
    series.push((5, 20)).unwrap();
    series.push((8, 30)).unwrap();

    assert_eq!(series.span_at_or_before_idx(0), None);
    assert_eq!(series.span_at_or_before_idx(1), None);
    assert_eq!(series.span_at_or_before_idx(2), Some(0));
    assert_eq!(series.span_at_or_before_idx(3), Some(0));
    assert_eq!(series.span_at_or_before_idx(5), Some(1));
    assert_eq!(series.span_at_or_before_idx(7), Some(1));
    assert_eq!(series.span_at_or_before_idx(8), Some(2));
    assert_eq!(series.span_at_or_before_idx(9), Some(2));
}

#[test]
fn scalar_span_at_or_after() {
    let mut series = ScalarSeries::new();
    series.push((2, 10)).unwrap();
    series.push((5, 20)).unwrap();
    series.push((8, 30)).unwrap();

    assert_eq!(series.span_at_or_after(0), Some(&(2, 10)));
    assert_eq!(series.span_at_or_after(1), Some(&(2, 10)));
    assert_eq!(series.span_at_or_after(2), Some(&(2, 10)));
    assert_eq!(series.span_at_or_after(3), Some(&(5, 20)));
    assert_eq!(series.span_at_or_after(5), Some(&(5, 20)));
    assert_eq!(series.span_at_or_after(7), Some(&(8, 30)));
    assert_eq!(series.span_at_or_after(8), Some(&(8, 30)));
    assert_eq!(series.span_at_or_after(9), None);
}

#[test]
fn scalar_span_at_or_after_idx() {
    let mut series = ScalarSeries::new();
    series.push((2, 10)).unwrap();
    series.push((5, 20)).unwrap();
    series.push((8, 30)).unwrap();

    assert_eq!(series.span_at_or_after_idx(0), Some(0));
    assert_eq!(series.span_at_or_after_idx(1), Some(0));
    assert_eq!(series.span_at_or_after_idx(2), Some(0));
    assert_eq!(series.span_at_or_after_idx(3), Some(1));
    assert_eq!(series.span_at_or_after_idx(5), Some(1));
    assert_eq!(series.span_at_or_after_idx(7), Some(2));
    assert_eq!(series.span_at_or_after_idx(8), Some(2));
    assert_eq!(series.span_at_or_after_idx(9), None);
}

#[test]
fn scalar_series_scalar_upper_bound_idx_duplicates() {
    let mut series = ScalarSeries::new();
    series.push((2, 10)).unwrap();
    series.push((5, 20)).unwrap();
    series.push((5, 21)).unwrap();
    series.push((8, 30)).unwrap();

    assert_eq!(series.upper_bound_idx(4), Some(1));
    assert_eq!(series.upper_bound_idx(5), Some(3));
    assert_eq!(series.upper_bound_idx(1), Some(0));
    assert_eq!(series.upper_bound_idx(10), None);
}

#[test]
fn scalar_series_scalar_lower_bound_idx_duplicates() {
    let mut series = ScalarSeries::new();
    series.push((2, 10)).unwrap();
    series.push((5, 20)).unwrap();
    series.push((5, 21)).unwrap();
    series.push((8, 30)).unwrap();

    assert_eq!(series.lower_bound_idx(4), Some(1));
    assert_eq!(series.lower_bound_idx(5), Some(1));
    assert_eq!(series.lower_bound_idx(1), Some(0));
    assert_eq!(series.lower_bound_idx(10), None);
}

#[test]
fn scalar_series_scalar_lower_bound_last_idx_duplicates() {
    let mut series = ScalarSeries::new();
    series.push((2, 10)).unwrap();
    series.push((5, 20)).unwrap();
    series.push((5, 21)).unwrap();
    series.push((8, 30)).unwrap();

    assert_eq!(series.lower_bound_last_idx(4), Some(0));
    assert_eq!(series.lower_bound_last_idx(5), Some(2));
    assert_eq!(series.lower_bound_last_idx(1), None);
    assert_eq!(series.lower_bound_last_idx(8), Some(3));
}

#[test]
fn scalar_series_scalar_span_before_idx_duplicates() {
    let mut series = ScalarSeries::new();
    series.push((2, 10)).unwrap();
    series.push((5, 20)).unwrap();
    series.push((5, 21)).unwrap();
    series.push((8, 30)).unwrap();

    assert_eq!(series.span_before_idx(0), None);
    assert_eq!(series.span_before_idx(1), None);
    assert_eq!(series.span_before_idx(2), None);
    assert_eq!(series.span_before_idx(3), Some(0));
    assert_eq!(series.span_before_idx(4), Some(0));
    assert_eq!(series.span_before_idx(5), Some(0));
    assert_eq!(series.span_before_idx(6), Some(2));
    assert_eq!(series.span_before_idx(7), Some(2));
    assert_eq!(series.span_before_idx(8), Some(2));
    assert_eq!(series.span_before_idx(9), Some(3));
}

#[test]
fn scalar_series_scalar_span_after_idx_duplicates() {
    let mut series = ScalarSeries::new();
    series.push((2, 10)).unwrap();
    series.push((5, 20)).unwrap();
    series.push((5, 21)).unwrap();
    series.push((8, 30)).unwrap();

    assert_eq!(series.span_after_idx(0), Some(0));
    assert_eq!(series.span_after_idx(1), Some(0));
    assert_eq!(series.span_after_idx(2), Some(1));
    assert_eq!(series.span_after_idx(3), Some(1));
    assert_eq!(series.span_after_idx(4), Some(1));
    assert_eq!(series.span_after_idx(5), Some(3));
    assert_eq!(series.span_after_idx(6), Some(3));
    assert_eq!(series.span_after_idx(7), Some(3));
    assert_eq!(series.span_after_idx(8), None);
    assert_eq!(series.span_after_idx(9), None);
}

#[test]
fn scalar_span_at_or_before_idx_duplicates() {
    let mut series = ScalarSeries::new();
    series.push((2, 10)).unwrap();
    series.push((5, 20)).unwrap();
    series.push((5, 21)).unwrap();
    series.push((8, 30)).unwrap();

    assert_eq!(series.span_at_or_before_idx(0), None);
    assert_eq!(series.span_at_or_before_idx(1), None);
    assert_eq!(series.span_at_or_before_idx(2), Some(0));
    assert_eq!(series.span_at_or_before_idx(3), Some(0));
    assert_eq!(series.span_at_or_before_idx(5), Some(2));
    assert_eq!(series.span_at_or_before_idx(7), Some(2));
    assert_eq!(series.span_at_or_before_idx(8), Some(3));
    assert_eq!(series.span_at_or_before_idx(9), Some(3));
}

#[test]
fn scalar_span_at_or_after_idx_duplicates() {
    let mut series = ScalarSeries::new();
    series.push((2, 10)).unwrap();
    series.push((5, 20)).unwrap();
    series.push((5, 21)).unwrap();
    series.push((8, 30)).unwrap();

    assert_eq!(series.span_at_or_after_idx(0), Some(0));
    assert_eq!(series.span_at_or_after_idx(1), Some(0));
    assert_eq!(series.span_at_or_after_idx(2), Some(0));
    assert_eq!(series.span_at_or_after_idx(3), Some(1));
    assert_eq!(series.span_at_or_after_idx(5), Some(1));
    assert_eq!(series.span_at_or_after_idx(7), Some(3));
    assert_eq!(series.span_at_or_after_idx(8), Some(3));
    assert_eq!(series.span_at_or_after_idx(9), None);
}

#[test]
fn scalar_series_scalar_only_duplicates() {
    let mut series = ScalarSeries::new();
    series.push((5, 20)).unwrap();
    series.push((5, 21)).unwrap();

    // upper_bound_idx
    assert_eq!(series.upper_bound_idx(4), Some(0));
    assert_eq!(series.upper_bound_idx(5), None);
    assert_eq!(series.upper_bound_idx(6), None);

    // lower_bound_idx
    assert_eq!(series.lower_bound_idx(4), Some(0));
    assert_eq!(series.lower_bound_idx(5), Some(0));
    assert_eq!(series.lower_bound_idx(6), None);

    // lower_bound_last_idx
    assert_eq!(series.lower_bound_last_idx(4), None);
    assert_eq!(series.lower_bound_last_idx(5), Some(1));
    assert_eq!(series.lower_bound_last_idx(6), Some(1));

    // span_before_idx
    assert_eq!(series.span_before_idx(4), None);
    assert_eq!(series.span_before_idx(5), None);
    assert_eq!(series.span_before_idx(6), Some(1));

    // span_after_idx
    assert_eq!(series.span_after_idx(4), Some(0));
    assert_eq!(series.span_after_idx(5), None);
    assert_eq!(series.span_after_idx(6), None);

    // span_at_or_before_idx
    assert_eq!(series.span_at_or_before_idx(4), None);
    assert_eq!(series.span_at_or_before_idx(5), Some(1));
    assert_eq!(series.span_at_or_before_idx(6), Some(1));

    // span_at_or_after_idx
    assert_eq!(series.span_at_or_after_idx(4), Some(0));
    assert_eq!(series.span_at_or_after_idx(5), Some(0));
    assert_eq!(series.span_at_or_after_idx(6), None);
}

#[test]
fn scalar_series_scalar_push() {
    let mut series = ScalarSeries::new();
    series.push((2, 10)).unwrap();
    series.push((5, 20)).unwrap();
    series.push((8, 30)).unwrap();

    assert_eq!(series.len(), 3);
    assert_eq!(series.get(0), Some(&(2, 10)));
    assert_eq!(series.get(1), Some(&(5, 20)));
    assert_eq!(series.get(2), Some(&(8, 30)));
}

#[test]
fn scalar_subseq_unbounded_both() {
    let mut series = ScalarSeries::new();
    series.push((2, 10)).unwrap();
    series.push((5, 20)).unwrap();
    series.push((8, 30)).unwrap();

    let span = SpanAny::unb();
    let subseq = series.subseq(span);
    assert_eq!(subseq, &[(2, 10), (5, 20), (8, 30)]);
}

#[test]
fn scalar_subseq_unbounded_left() {
    let mut series = ScalarSeries::new();
    series.push((2, 10)).unwrap();
    series.push((5, 20)).unwrap();
    series.push((8, 30)).unwrap();

    let span = SpanAny::unb_inc(5);
    let subseq = series.subseq(span);
    assert_eq!(subseq, &[(2, 10), (5, 20)]);
}

#[test]
fn scalar_series_scalar_subseq_unbounded_right() {
    let mut series = ScalarSeries::new();
    series.push((2, 10)).unwrap();
    series.push((5, 20)).unwrap();
    series.push((8, 30)).unwrap();

    let span = SpanAny::inc_unb(5);
    let subseq = series.subseq(span);
    assert_eq!(subseq, &[(5, 20), (8, 30)]);
}

#[test]
fn scalar_series_scalar_subseq_bounded() {
    let mut series = ScalarSeries::new();
    series.push((2, 10)).unwrap();
    series.push((5, 20)).unwrap();
    series.push((8, 30)).unwrap();

    let span = SpanAny::inc(5, 8);
    let subseq = series.subseq(span);
    assert_eq!(subseq, &[(5, 20), (8, 30)]);
}

#[test]
fn scalar_series_scalar_subseq_series_unbounded_both() {
    let mut series = ScalarSeries::new();
    series.push((2, 10)).unwrap();
    series.push((5, 20)).unwrap();
    series.push((8, 30)).unwrap();

    let span = SpanAny::unb();
    let subseq_series = series.subseq_series(span);
    assert_eq!(subseq_series.len(), 3);
    assert_eq!(subseq_series.get(0), Some(&(2, 10)));
    assert_eq!(subseq_series.get(1), Some(&(5, 20)));
    assert_eq!(subseq_series.get(2), Some(&(8, 30)));
}

#[test]
fn scalar_series_scalar_subseq_series_unbounded_left() {
    let mut series = ScalarSeries::new();
    series.push((2, 10)).unwrap();
    series.push((5, 20)).unwrap();
    series.push((8, 30)).unwrap();

    let span = SpanAny::unb_inc(5);
    let subseq_series = series.subseq_series(span);
    assert_eq!(subseq_series.len(), 2);
    assert_eq!(subseq_series.get(0), Some(&(2, 10)));
    assert_eq!(subseq_series.get(1), Some(&(5, 20)));
}

#[test]
fn scalar_series_scalar_subseq_series_unbounded_right() {
    let mut series = ScalarSeries::new();
    series.push((2, 10)).unwrap();
    series.push((5, 20)).unwrap();
    series.push((8, 30)).unwrap();

    let span = SpanAny::inc_unb(5);
    let subseq_series = series.subseq_series(span);
    assert_eq!(subseq_series.len(), 2);
    assert_eq!(subseq_series.get(0), Some(&(5, 20)));
    assert_eq!(subseq_series.get(1), Some(&(8, 30)));
}

#[test]
fn scalar_series_scalar_subseq_series_bounded() {
    let mut series = ScalarSeries::new();
    series.push((2, 10)).unwrap();
    series.push((5, 20)).unwrap();
    series.push((8, 30)).unwrap();

    let span = SpanAny::inc(5, 8);
    let subseq_series = series.subseq_series(span);
    assert_eq!(subseq_series.len(), 2);
    assert_eq!(subseq_series.get(0), Some(&(5, 20)));
    assert_eq!(subseq_series.get(1), Some(&(8, 30)));
}

#[test]
fn scalar_subseq_unbounded_left_exc() {
    let mut series = ScalarSeries::new();
    series.push((2, 10)).unwrap();
    series.push((5, 20)).unwrap();
    series.push((8, 30)).unwrap();

    let span = SpanAny::unb_exc(5);
    let subseq = series.subseq(span);
    assert_eq!(subseq, &[(2, 10)]);
}

#[test]
fn scalar_series_scalar_subseq_unbounded_right_exc() {
    let mut series = ScalarSeries::new();
    series.push((2, 10)).unwrap();
    series.push((5, 20)).unwrap();
    series.push((8, 30)).unwrap();

    let span = SpanAny::exc_unb(5);
    let subseq = series.subseq(span);
    assert_eq!(subseq, &[(8, 30)]);
}

#[test]
fn scalar_series_scalar_subseq_bounded_exc() {
    let mut series = ScalarSeries::new();
    series.push((2, 10)).unwrap();
    series.push((5, 20)).unwrap();
    series.push((8, 30)).unwrap();

    let span = SpanAny::exc(5, 8);
    let subseq = series.subseq(span);
    assert_eq!(subseq, &[(5, 20)]);
}

#[test]
fn scalar_series_scalar_subseq_bounded_exc_exc() {
    let mut series = ScalarSeries::new();
    series.push((2, 10)).unwrap();
    series.push((5, 20)).unwrap();
    series.push((8, 30)).unwrap();

    let span = SpanAny::exc_exc(5, 8);
    let subseq = series.subseq(span);
    assert_eq!(subseq, &[]);
}

#[test]
fn scalar_series_scalar_subseq_series_unbounded_left_exc() {
    let mut series = ScalarSeries::new();
    series.push((2, 10)).unwrap();
    series.push((5, 20)).unwrap();
    series.push((8, 30)).unwrap();

    let span = SpanAny::unb_exc(5);
    let subseq_series = series.subseq_series(span);
    assert_eq!(subseq_series.len(), 1);
    assert_eq!(subseq_series.get(0), Some(&(2, 10)));
}

#[test]
fn scalar_series_scalar_subseq_series_unbounded_right_exc() {
    let mut series = ScalarSeries::new();
    series.push((2, 10)).unwrap();
    series.push((5, 20)).unwrap();
    series.push((8, 30)).unwrap();

    let span = SpanAny::exc_unb(5);
    let subseq_series = series.subseq_series(span);
    assert_eq!(subseq_series.len(), 1);
    assert_eq!(subseq_series.get(0), Some(&(8, 30)));
}

#[test]
fn scalar_series_scalar_subseq_series_bounded_exc() {
    let mut series = ScalarSeries::new();
    series.push((2, 10)).unwrap();
    series.push((5, 20)).unwrap();
    series.push((8, 30)).unwrap();

    let span = SpanAny::exc(5, 8);
    let subseq_series = series.subseq_series(span);
    assert_eq!(subseq_series.len(), 1);
    assert_eq!(subseq_series.get(0), Some(&(5, 20)));
}

#[test]
fn scalar_series_scalar_subseq_series_bounded_exc_exc() {
    let mut series = ScalarSeries::new();
    series.push((2, 10)).unwrap();
    series.push((5, 20)).unwrap();
    series.push((8, 30)).unwrap();

    let span = SpanAny::exc_exc(5, 8);
    let subseq_series = series.subseq_series(span);
    assert!(subseq_series.is_empty());
}

#[test]
fn scalar_span_before_idx_empty_is_none() {
    let series: ScalarSeries<i64, i64> = ScalarSeries::new();
    assert_eq!(series.span_before_idx(0), None);
}

#[test]
fn scalar_span_at_or_before_idx_empty_is_none() {
    let series: ScalarSeries<i64, i64> = ScalarSeries::new();
    assert_eq!(series.span_at_or_before_idx(0), None);
}

#[test]
fn scalar_suffix_zero_is_empty() {
    let mut series: ScalarSeries<i64, i64> = ScalarSeries::new();
    series.push((2, 10)).unwrap();
    series.push((5, 20)).unwrap();

    let suffix = series.suffix(0);
    assert!(suffix.is_empty());
}

#[test]
fn time_series_keeps_time_order_and_push_order() {
    let a = ymdhms(2020, 1, 1, 0, 0, 0, UTC);
    let b = ymdhms(2020, 1, 2, 0, 0, 0, UTC);
    let mut series: TimeSeries<i32> = TimeSeries::new();
    series.push((b, 1)).unwrap();
    series.push((a, 2)).unwrap();
    series.push((b, 3)).unwrap();
    assert_eq!(series.xs(), vec![a, b, b]);
    assert_eq!(series.ys(), vec![&2, &1, &3]);
}

#[test]
fn subseq_of_an_empty_span_is_empty() {
    let mut series = ScalarSeries::new();
    series.push((2, 10)).unwrap();
    series.push((5, 20)).unwrap();
    series.push((8, 30)).unwrap();
    let empty: &[(i32, i32)] = &[];
    assert_eq!(series.subseq(SpanAny::exc_exc(5, 5)), empty);
    assert_eq!(series.subseq_series(SpanAny::exc_exc(5, 5)).len(), 0);
    assert_eq!(series.subseq(SpanAny::exc(5, 8)), &[(5, 20)]);
}
