#![allow(unused_imports)]

use chrono_tz::US::Eastern;

use mhrono::duration::Duration;
use mhrono::op::TOp;
use mhrono::time::ymdhms;
use mhrono::semantic_freq::{Freq, SemanticFreq};

#[test]
fn freq_parsing_is_case_insensitive() {
    assert_eq!("1D".parse::<Freq>().unwrap(), Freq::days(1));
}

#[test]
fn semantic_freq_freq_eq() {
    assert_eq!(Freq::hours(1), Freq::hours(1));
    assert_ne!(Freq::hours(1), Freq::weeks(1));
}

#[test]
fn semantic_freq_freq_ord() {
    assert!(Freq::hours(1) > Freq::days(1));
    assert!(Freq::secs(1) > Freq::days(1));
    assert!(Freq::months(1) < Freq::days(1));
    assert!(Freq::weeks(2) < Freq::weeks(1));
}

#[test]
fn approx_cycle_millis() {
    assert_eq!(Freq::millis(2).approx_cycle_millis(), 2);
    assert_eq!(Freq::secs(2).approx_cycle_millis(), 2 * 1000);
    assert_eq!(Freq::mins(2).approx_cycle_millis(), 2 * 60 * 1000);
    assert_eq!(Freq::hours(2).approx_cycle_millis(), 2 * 60 * 60 * 1000);
    assert_eq!(Freq::days(2).approx_cycle_millis(), 2 * 24 * 60 * 60 * 1000);
    assert_eq!(Freq::weeks(2).approx_cycle_millis(), 2 * 7 * 24 * 60 * 60 * 1000);
    assert_eq!(Freq::months(2).approx_cycle_millis(), 2 * 30 * 24 * 60 * 60 * 1000);
    assert_eq!(Freq::years(2).approx_cycle_millis(), 2 * 365 * 24 * 60 * 60 * 1000);
}

#[test]
fn semantic_freq_ops() {
    let mut freq = Freq::new(1, SemanticFreq::Millisecond);
    freq = freq * 2;
    assert_eq!(freq, Freq::new(2, SemanticFreq::Millisecond));

    let freq = Freq::new(2, SemanticFreq::Millisecond) * 3;
    assert_eq!(freq, Freq::new(6, SemanticFreq::Millisecond));
}

#[test]
fn next() {
    let t = ymdhms(2017, 3, 5, 2, 57, 12, Eastern);

    assert_eq!(Freq::secs(1).next(&t), ymdhms(2017, 3, 5, 2, 57, 13, Eastern));
    assert_eq!(Freq::mins(1).next(&t), ymdhms(2017, 3, 5, 2, 58, 12, Eastern));
    assert_eq!(Freq::hours(1).next(&t), ymdhms(2017, 3, 5, 3, 57, 12, Eastern));
    assert_eq!(Freq::days(1).next(&t), ymdhms(2017, 3, 6, 2, 57, 12, Eastern));
    assert_eq!(Freq::months(1).next(&t), ymdhms(2017, 4, 5, 2, 57, 12, Eastern));
    assert_eq!(Freq::years(1).next(&t), ymdhms(2018, 3, 5, 2, 57, 12, Eastern));
}

#[test]
fn prev() {
    let t = ymdhms(2017, 3, 5, 2, 57, 12, Eastern);

    assert_eq!(Freq::secs(1).prev(&t), ymdhms(2017, 3, 5, 2, 57, 11, Eastern));
    assert_eq!(Freq::mins(1).prev(&t), ymdhms(2017, 3, 5, 2, 56, 12, Eastern));
    assert_eq!(Freq::hours(1).prev(&t), ymdhms(2017, 3, 5, 1, 57, 12, Eastern));
    assert_eq!(Freq::days(1).prev(&t), ymdhms(2017, 3, 4, 2, 57, 12, Eastern));
    assert_eq!(Freq::weeks(1).prev(&t), ymdhms(2017, 2, 26, 2, 57, 12, Eastern));
    assert_eq!(Freq::months(1).prev(&t), ymdhms(2017, 2, 5, 2, 57, 12, Eastern));
    assert_eq!(Freq::years(1).prev(&t), ymdhms(2016, 3, 5, 2, 57, 12, Eastern));
}

#[test]
fn weekly_next_into_a_gap_moves_an_hour_on() {
    // 2:57:12 does not exist on 2017-03-12 in US/Eastern; with_date moves the
    // wall-clock time on by whole hours until it exists.
    let t = ymdhms(2017, 3, 5, 2, 57, 12, Eastern);
    assert_eq!(Freq::weeks(1).next(&t), ymdhms(2017, 3, 12, 3, 57, 12, Eastern));
}

#[test]
fn approx_cycle_duration() {
    assert_eq!(Freq::millis(2).approx_cycle_duration(), 2 * Duration::msec());
    assert_eq!(Freq::secs(2).approx_cycle_duration(), 2 * Duration::sec());
    assert_eq!(Freq::mins(2).approx_cycle_duration(), 2 * Duration::min());
    assert_eq!(Freq::hours(2).approx_cycle_duration(), 2 * Duration::hour());
    assert_eq!(Freq::days(2).approx_cycle_duration(), 2 * Duration::day());
    assert_eq!(Freq::weeks(2).approx_cycle_duration(), 2 * Duration::week());
    assert_eq!(Freq::months(2).approx_cycle_duration(), 2 * 30 * Duration::day());
    assert_eq!(Freq::years(2).approx_cycle_duration(), 2 * 365 * Duration::day());
}
