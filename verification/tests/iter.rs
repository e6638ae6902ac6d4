use chrono_tz::US::Eastern;

use mhrono::date::{ymd, Date, Day};
use mhrono::duration::Duration;
use mhrono::iter::{DateIter, TimeIter};
use mhrono::op::{DateOp, TimeOp};
use mhrono::time::{ymdhms, Time};

fn collect(mut iter: DateIter) -> Vec<Date> {
    let mut out = Vec::new();
    while let Some(d) = iter.next() {
        out.push(d);
    }
    out
}

fn collect_times(mut iter: TimeIter) -> Vec<Time> {
    let mut out = Vec::new();
    while let Some(t) = iter.next() {
        out.push(t);
    }
    out
}

#[test]
fn time_iter_basic() {
    let st = ymdhms(2020, 1, 1, 0, 0, 0, Eastern);
    let en = ymdhms(2020, 1, 1, 3, 0, 0, Eastern);
    let op = TimeOp::hourly();

    let times = collect_times(TimeIter::new(st, en, op));

    assert_eq!(times.len(), 3);
    assert_eq!(times[0], ymdhms(2020, 1, 1, 0, 0, 0, Eastern));
    assert_eq!(times[1], ymdhms(2020, 1, 1, 1, 0, 0, Eastern));
    assert_eq!(times[2], ymdhms(2020, 1, 1, 2, 0, 0, Eastern));
}

#[test]
fn time_iter_empty() {
    let st = ymdhms(2020, 1, 1, 0, 0, 0, Eastern);
    let en = st;
    let op = TimeOp::hourly();

    let times = collect_times(TimeIter::new(st, en, op));

    assert_eq!(times.len(), 0);
}

#[test]
fn time_iter_minutes() {
    let st = ymdhms(2020, 1, 1, 12, 0, 0, Eastern);
    let en = ymdhms(2020, 1, 1, 12, 5, 0, Eastern);
    let op = TimeOp::minutely();

    let times = collect_times(TimeIter::new(st, en, op));

    assert_eq!(times.len(), 5);
    for (i, time) in times.iter().enumerate() {
        assert_eq!(time.minute(), i as u32);
    }
}

#[test]
fn time_iter_seconds() {
    let st = ymdhms(2020, 1, 1, 0, 0, 0, Eastern);
    let en = ymdhms(2020, 1, 1, 0, 0, 3, Eastern);
    let op = TimeOp::secondly();

    let times = collect_times(TimeIter::new(st, en, op));

    assert_eq!(times.len(), 3);
    assert_eq!(times[0].second(), 0);
    assert_eq!(times[1].second(), 1);
    assert_eq!(times[2].second(), 2);
}

#[test]
fn time_iter_days() {
    let st = ymdhms(2020, 1, 1, 0, 0, 0, Eastern);
    let en = ymdhms(2020, 1, 5, 0, 0, 0, Eastern);
    let op = TimeOp::daily();

    let times = collect_times(TimeIter::new(st, en, op));

    assert_eq!(times.len(), 4);
    for (i, time) in times.iter().enumerate() {
        assert_eq!(time.day(), (i + 1) as u32);
    }
}

#[test]
fn time_iter_single_element() {
    let st = ymdhms(2020, 1, 1, 0, 0, 0, Eastern);
    let en = ymdhms(2020, 1, 1, 1, 0, 0, Eastern);
    let op = TimeOp::hourly();

    let times = collect_times(TimeIter::new(st, en, op));

    assert_eq!(times.len(), 1);
    assert_eq!(times[0], st);
}

#[test]
fn time_iter_start_after_end_is_empty() {
    let st = ymdhms(2020, 1, 2, 0, 0, 0, Eastern);
    let en = ymdhms(2020, 1, 1, 0, 0, 0, Eastern);
    let op = TimeOp::hourly();

    let times = collect_times(TimeIter::new(st, en, op));

    assert!(times.is_empty());
}

#[test]
fn time_iteration_with_duration() {
    let start = ymdhms(2020, 1, 1, 0, 0, 0, Eastern);
    let end = ymdhms(2020, 1, 1, 3, 0, 0, Eastern);
    let op = TimeOp::hourly();

    let times = collect_times(TimeIter::new(start, end, op));

    for pair in times.windows(2) {
        assert_eq!(pair[1] - pair[0], Duration::hour());
    }
}

#[test]
fn time_operations_across_midnight() {
    let late = ymdhms(2020, 1, 1, 23, 0, 0, Eastern);
    let early = ymdhms(2020, 1, 2, 2, 0, 0, Eastern);

    let times = collect_times(TimeIter::new(late, early, TimeOp::hourly()));

    assert_eq!(times.len(), 3);
    assert_eq!(times[0].hour(), 23);
    assert_eq!(times[0].day(), 1);
    assert_eq!(times[1].hour(), 0);
    assert_eq!(times[1].day(), 2);
    assert_eq!(times[2].hour(), 1);
    assert_eq!(times[2].day(), 2);
}

#[test]
fn time_iter_nop_stops_to_avoid_infinite_loops() {
    let start = ymdhms(2020, 1, 1, 0, 0, 0, Eastern);
    let end = ymdhms(2020, 1, 1, 1, 0, 0, Eastern);

    let mut iter = TimeIter::new(start, end, TimeOp::nop());
    assert_eq!(iter.next(), Some(start));
    assert_eq!(iter.next(), None);
}

#[test]
fn time_iter_across_dst_spring_forward() {
    // March 8, 2020: DST starts at 2 AM EST, clocks move forward to 3 AM EDT
    let start = ymdhms(2020, 3, 8, 0, 0, 0, Eastern);
    let end = ymdhms(2020, 3, 8, 5, 0, 0, Eastern);
    let times = collect_times(TimeIter::new(start, end, TimeOp::hourly()));

    assert_eq!(times.len(), 4);
    assert_eq!(times[0].hour(), 0);
    assert_eq!(times[1].hour(), 1);
    assert_eq!(times[2].hour(), 3); // 2 AM doesn't exist, jumps to 3 AM
    assert_eq!(times[3].hour(), 4);

    // Each step should still be exactly 1 hour in real time
    for pair in times.windows(2) {
        assert_eq!(pair[1] - pair[0], Duration::hour());
    }
}

#[test]
fn time_iter_across_dst_fall_back() {
    // November 1, 2020: DST ends at 2 AM EDT, clocks move back to 1 AM EST.
    // Hourly steps add real time, so there are 5 steps from 0:00 to 4:00.
    let start = ymdhms(2020, 11, 1, 0, 0, 0, Eastern);
    let end = ymdhms(2020, 11, 1, 4, 0, 0, Eastern);
    let times = collect_times(TimeIter::new(start, end, TimeOp::hourly()));

    // 5 iterations because 1 AM occurs twice (once in EDT, once in EST)
    assert_eq!(times.len(), 5);

    // Each step should be exactly 1 hour in real time
    for pair in times.windows(2) {
        assert_eq!(pair[1] - pair[0], Duration::hour());
    }
}

#[test]
fn time_iter_minutely_across_dst_spring_forward() {
    // Iterate by minutes across the DST gap
    let start = ymdhms(2020, 3, 8, 1, 58, 0, Eastern);
    let end = ymdhms(2020, 3, 8, 3, 2, 0, Eastern);
    let times = collect_times(TimeIter::new(start, end, TimeOp::minutely()));

    // 1:58, 1:59, 3:00, 3:01 - 4 minutes total (2:00-2:59 don't exist)
    assert_eq!(times.len(), 4);
    assert_eq!(times[0].hour(), 1);
    assert_eq!(times[0].minute(), 58);
    assert_eq!(times[1].hour(), 1);
    assert_eq!(times[1].minute(), 59);
    assert_eq!(times[2].hour(), 3);
    assert_eq!(times[2].minute(), 0);
    assert_eq!(times[3].hour(), 3);
    assert_eq!(times[3].minute(), 1);
}

#[test]
fn date_iter_day() {
    let st = ymd(2020, 1, 1, Eastern);
    let en = ymd(2020, 1, 5, Eastern);

    let dates = collect(DateIter::day(st, en));

    assert_eq!(dates.len(), 4);
    assert_eq!(dates[0], ymd(2020, 1, 1, Eastern));
    assert_eq!(dates[1], ymd(2020, 1, 2, Eastern));
    assert_eq!(dates[2], ymd(2020, 1, 3, Eastern));
    assert_eq!(dates[3], ymd(2020, 1, 4, Eastern));
}

#[test]
fn date_iter_empty() {
    let st = ymd(2020, 1, 1, Eastern);
    let en = st;

    let dates = collect(DateIter::day(st, en));

    assert_eq!(dates.len(), 0);
}

#[test]
fn date_iter_year() {
    let st = ymd(2020, 1, 1, Eastern);
    let en = ymd(2025, 1, 1, Eastern);

    let dates = collect(DateIter::year(st, en));

    assert_eq!(dates.len(), 5);
    assert_eq!(dates[0], ymd(2020, 1, 1, Eastern));
    assert_eq!(dates[1], ymd(2021, 1, 1, Eastern));
    assert_eq!(dates[2], ymd(2022, 1, 1, Eastern));
    assert_eq!(dates[3], ymd(2023, 1, 1, Eastern));
    assert_eq!(dates[4], ymd(2024, 1, 1, Eastern));
}

#[test]
fn date_iter_across_months() {
    let st = ymd(2020, 1, 30, Eastern);
    let en = ymd(2020, 2, 3, Eastern);

    let dates = collect(DateIter::day(st, en));

    assert_eq!(dates.len(), 4);
    assert_eq!(dates[0], ymd(2020, 1, 30, Eastern));
    assert_eq!(dates[1], ymd(2020, 1, 31, Eastern));
    assert_eq!(dates[2], ymd(2020, 2, 1, Eastern));
    assert_eq!(dates[3], ymd(2020, 2, 2, Eastern));
}

#[test]
fn date_iter_leap_year() {
    let st = ymd(2020, 2, 27, Eastern);
    let en = ymd(2020, 3, 2, Eastern);

    let dates = collect(DateIter::day(st, en));

    assert_eq!(dates.len(), 4);
    assert_eq!(dates[0], ymd(2020, 2, 27, Eastern));
    assert_eq!(dates[1], ymd(2020, 2, 28, Eastern));
    assert_eq!(dates[2], ymd(2020, 2, 29, Eastern));
    assert_eq!(dates[3], ymd(2020, 3, 1, Eastern));
}

#[test]
fn date_iter_single_element() {
    let st = ymd(2020, 1, 1, Eastern);
    let en = ymd(2020, 1, 2, Eastern);

    let dates = collect(DateIter::day(st, en));

    assert_eq!(dates.len(), 1);
    assert_eq!(dates[0], st);
}

#[test]
fn date_iter_start_after_end_is_empty() {
    let st = ymd(2020, 1, 2, Eastern);
    let en = ymd(2020, 1, 1, Eastern);

    let dates = collect(DateIter::day(st, en));

    assert!(dates.is_empty());
}

#[test]
fn date_iteration_with_weekday_filtering() {
    let start = ymd(2020, 3, 9, Eastern); // Monday
    let end = ymd(2020, 3, 16, Eastern);

    let dates = collect(DateIter::day(start, end));
    let weekdays: Vec<_> = dates.iter().map(Date::weekday).collect();

    assert_eq!(dates.len(), 7);
    assert_eq!(
        weekdays,
        vec![Day::Mon, Day::Tue, Day::Wed, Day::Thu, Day::Fri, Day::Sat, Day::Sun]
    );

    let weekdays_only: Vec<_> = dates
        .iter()
        .filter(|d| matches!(d.weekday(), Day::Mon | Day::Tue | Day::Wed | Day::Thu | Day::Fri))
        .collect();
    assert_eq!(weekdays_only.len(), 5);
}

#[test]
fn date_iter_nop_stops_to_avoid_infinite_loops() {
    let start = ymd(2020, 1, 1, Eastern);
    let end = ymd(2020, 1, 2, Eastern);

    let mut iter = DateIter::new(start, end, DateOp::nop());
    assert_eq!(iter.next(), Some(start));
    assert_eq!(iter.next(), None);
}

#[test]
fn date_iter_step_of_two_weeks_stops_before_end() {
    let st = ymd(2020, 1, 1, Eastern);
    let en = ymd(2020, 2, 12, Eastern);

    let dates = collect(DateIter::new(st, en, DateOp::add_days(14)));

    assert_eq!(
        dates,
        vec![ymd(2020, 1, 1, Eastern), ymd(2020, 1, 15, Eastern), ymd(2020, 1, 29, Eastern)]
    );
}
