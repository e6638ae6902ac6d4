use chrono::{DateTime, NaiveDateTime, TimeZone};
use chrono_tz::Australia::Sydney;
use chrono_tz::US::Eastern;
use chrono_tz::{Australia, Tz, US, UTC};

use mhrono::date::{ymd, Date};
use mhrono::duration::Duration;
use mhrono::op::TimeOp;
use mhrono::time::{ymdhms, Time};
use mhrono::Error;

const TZ: [Tz; 3] = [US::Eastern, UTC, Australia::Eucla];

/// The time of a chrono date and time.
fn t(dt: DateTime<Tz>) -> Time {
    Time::from_utc_timestamp(dt.timestamp(), dt.timestamp_subsec_nanos(), dt.timezone())
}

fn local(tz: Tz, y: i32, m: u32, d: u32, h: u32, mi: u32, s: u32) -> Time {
    t(tz.with_ymd_and_hms(y, m, d, h, mi, s).single().unwrap())
}

fn day(tz: &Tz, y: i32, m: u32, d: u32) -> Date {
    ymd(y, m, d, *tz)
}

#[test]
fn set_date_with_different_daylight_savings() {
    // On same day:
    let tm = local(Eastern, 1994, 10, 27, 1, 44, 35);
    let d = ymd(1994, 10, 27, Eastern);
    assert_eq!(tm, tm.with_date(d));

    // On different days:
    let tm = local(Eastern, 1994, 4, 30, 1, 29, 11);
    let d = ymd(1994, 10, 30, Eastern);
    assert_eq!(local(UTC, 1994, 10, 30, 5, 29, 11), tm.with_date(d));
}

#[test]
fn nonexistent_set_date() {
    let tm = local(Eastern, 2017, 3, 5, 2, 57, 12);
    let d = ymd(2017, 3, 12, Eastern);
    assert_eq!(local(UTC, 2017, 3, 12, 7, 57, 12), tm.with_date(d));
}

#[test]
fn date_tz_conversion() -> Result<(), Error> {
    let expected = Time::from_date(ymd(2018, 1, 30, Sydney));
    let d_str = "30 Jan 2018";
    assert_eq!(expected, Time::from_ymd("2018/1/30", Sydney)?);
    assert_eq!(expected, Time::from_local_date_fmt(d_str, "%d %b %Y", Sydney)?);

    Ok(())
}

#[test]
fn datetime_tz_conversion() -> Result<(), Error> {
    let expected = local(Sydney, 2018, 1, 30, 6, 4, 57);
    let dt_str = "30 Jan 2018 06:04:57";

    assert_eq!(
        expected,
        Time::from_local_datetime(
            NaiveDateTime::parse_from_str(dt_str, "%d %b %Y %H:%M:%S").unwrap(),
            Sydney
        )?
    );
    assert_eq!(expected, Time::from_local_datetime_fmt(dt_str, "%d %b %Y %H:%M:%S", Sydney)?);

    Ok(())
}

#[test]
fn tz_conversion() -> Result<(), Error> {
    let dt = local(Sydney, 2018, 1, 30, 6, 4, 57);
    assert_eq!(dt, Time::from_local_iso("2018-01-30T06:04:57+11:00", Sydney)?);
    assert_eq!(dt, Time::from_local("2018-01-30T06:04:57", Sydney)?);
    assert_eq!("2018-01-30T06:04:57+11:00", dt.to_iso());
    assert_eq!("2018-01-30T06:04:57", dt.to_local());
    assert_eq!(dt, Time::from_local_iso(&dt.to_iso(), Sydney)?);
    assert_eq!(dt, Time::from_local(&dt.to_local(), Sydney)?);
    Ok(())
}

#[test]
fn time_serialization() -> Result<(), Error> {
    let dt = local(Sydney, 2018, 1, 30, 6, 4, 57);
    let se = dt.to_serialized();
    assert_eq!(se, "2018-01-30T06:04:57 Australia/Sydney");
    let de = Time::from_serialized(&se)?;
    assert_eq!(de, dt);
    Ok(())
}

#[test]
fn tz_change() {
    let time = local(Sydney, 2018, 1, 30, 6, 4, 57);
    // This shouldn't change the underlying time, just the timezone it's in.
    assert_eq!(time.utc_dec(), time.with_tz(Eastern).utc_dec());
}

#[test]
fn leap_years() -> Result<(), Error> {
    for tz in &TZ {
        assert_eq!(day(tz, 2020, 2, 29).time()?.with_year(2019), day(tz, 2019, 2, 28).time()?);
        assert_eq!(day(tz, 2020, 1, 29).time()?.with_month(2), day(tz, 2020, 2, 29).time()?);
        assert_eq!(day(tz, 2020, 1, 30).time()?.with_month(2), day(tz, 2020, 2, 29).time()?);
        assert_eq!(day(tz, 2019, 1, 29).time()?.with_month(2), day(tz, 2019, 2, 28).time()?);
        assert_eq!(day(tz, 2019, 1, 30).time()?.with_month(2), day(tz, 2019, 2, 28).time()?);
    }
    Ok(())
}

#[test]
fn time_offset() -> Result<(), Error> {
    for tz in &TZ {
        let at = |y: i32, m: u32, d: u32| day(tz, y, m, d).time().unwrap();
        // Regular +1 year.
        assert_eq!(TimeOp::yearly().apply(at(2019, 1, 30)), at(2020, 1, 30));
        // Leap year to non-leap year.
        assert_eq!(TimeOp::yearly().apply(at(2020, 2, 29)), at(2021, 2, 28));
        // Month with more days to less days.
        assert_eq!(TimeOp::monthly().apply(at(2019, 1, 30)), at(2019, 2, 28));
        // Month with more days to less days in a leap year.
        assert_eq!(TimeOp::monthly().apply(at(2020, 1, 30)), at(2020, 2, 29));
        // 29th Feb to next year March.
        assert_eq!(TimeOp::add_months(13).apply(at(2020, 2, 29)), at(2021, 3, 29));
        // Leap year +1 day.
        assert_eq!(TimeOp::daily().apply(at(2020, 2, 28)), at(2020, 2, 29));
        // Non-leap year +1 day.
        assert_eq!(TimeOp::daily().apply(at(2019, 2, 28)), at(2019, 3, 1));
        // Advance Monday (+2) on a Sunday.
        assert_eq!(TimeOp::advance_mon(2).apply(at(2020, 12, 6)), at(2020, 12, 14));
        // Advance Monday (+2) on a Monday.
        assert_eq!(TimeOp::advance_mon(2).apply(at(2020, 12, 7)), at(2020, 12, 21));
        // Advance Monday (+1) on a Sunday.
        assert_eq!(TimeOp::advance_mon(1).apply(at(2020, 12, 6)), at(2020, 12, 7));
        // Advance Monday (+1) on a Monday.
        assert_eq!(TimeOp::advance_mon(1).apply(at(2020, 12, 7)), at(2020, 12, 14));
        // Advance Monday (+0) on a Sunday.
        assert_eq!(TimeOp::advance_mon(0).apply(at(2020, 12, 6)), at(2020, 12, 7));
        // Advance Monday (+0) on a Monday.
        assert_eq!(TimeOp::advance_mon(0).apply(at(2020, 12, 7)), at(2020, 12, 7));
        // Neg advance Monday (-1) on a Sunday.
        assert_eq!(TimeOp::advance_mon(-1).apply(at(2020, 12, 6)), at(2020, 11, 30));
        // Neg advance Monday (-1) on a Monday.
        assert_eq!(TimeOp::advance_mon(-1).apply(at(2020, 12, 7)), at(2020, 11, 30));
        // Find Monday (+2) on a Sunday.
        assert_eq!(TimeOp::find_mon(2).apply(at(2020, 12, 6)), at(2020, 12, 14));
        // Find Monday (+2) on a Monday.
        assert_eq!(TimeOp::find_mon(2).apply(at(2020, 12, 7)), at(2020, 12, 14));
        // Find Monday (+1) on a Sunday.
        assert_eq!(TimeOp::find_mon(1).apply(at(2020, 12, 6)), at(2020, 12, 7));
        // Find Monday (+1) on a Monday.
        assert_eq!(TimeOp::find_mon(1).apply(at(2020, 12, 7)), at(2020, 12, 7));
        // Find Monday (+0) on a Sunday.
        assert_eq!(TimeOp::find_mon(0).apply(at(2020, 12, 6)), at(2020, 12, 7));
        // Find Monday (+0) on a Monday.
        assert_eq!(TimeOp::find_mon(0).apply(at(2020, 12, 7)), at(2020, 12, 7));
        // Neg find Monday (-1) on a Sunday.
        assert_eq!(TimeOp::find_mon(-1).apply(at(2020, 12, 6)), at(2020, 11, 30));
        // Neg find Monday (-1) on a Monday.
        assert_eq!(TimeOp::find_mon(-1).apply(at(2020, 12, 7)), at(2020, 12, 7));
        // AdvDay to the next day with the same day number
        assert_eq!(TimeOp::advance_day(6).apply(at(2020, 12, 6)), at(2021, 1, 6));
        assert_eq!(TimeOp::advance_day(6).apply(at(2021, 1, 5)), at(2021, 1, 6));
        // AdvMonth to the next month with the same month number
        assert_eq!(TimeOp::advance_month(12).apply(at(2020, 12, 6)), at(2021, 12, 6));
        assert_eq!(TimeOp::advance_month(12).apply(at(2021, 11, 6)), at(2021, 12, 6));
        // FindDay for the current day number
        assert_eq!(TimeOp::find_day(6).apply(at(2020, 12, 6)), at(2020, 12, 6));
        // FindDay for the next day number
        assert_eq!(TimeOp::find_day(7).apply(at(2020, 12, 6)), at(2020, 12, 7));
        // FindMonth for the current month number
        assert_eq!(TimeOp::find_month(12).apply(at(2020, 12, 6)), at(2020, 12, 6));
        // FindMonth for the next month number
        assert_eq!(TimeOp::find_month(1).apply(at(2020, 12, 6)), at(2021, 1, 6));
    }
    Ok(())
}

#[test]
fn test_and_hms() -> Result<(), Error> {
    let d = ymd(2020, 3, 15, Eastern);
    let tm = d.and_hms(14, 30, 45)?;
    assert_eq!(tm.hour(), 14);
    assert_eq!(tm.minute(), 30);
    assert_eq!(tm.second(), 45);
    assert_eq!(tm.date(), d);
    Ok(())
}

#[test]
fn test_time() -> Result<(), Error> {
    let d = ymd(2020, 3, 15, Eastern);
    let tm = d.time()?;
    assert_eq!(tm.hour(), 0);
    assert_eq!(tm.minute(), 0);
    assert_eq!(tm.second(), 0);
    assert_eq!(tm.date(), d);
    Ok(())
}

#[test]
fn and_hms_rejects_bad_fields_and_gaps() {
    let d = ymd(2020, 3, 8, Eastern);
    assert_eq!(d.and_hms(24, 0, 0), Err(Error::InvalidTimeComponents));
    assert_eq!(d.and_hms(1, 60, 0), Err(Error::InvalidTimeComponents));
    // 2:30 does not exist on the day clocks spring forward.
    assert!(matches!(d.and_hms(2, 30, 0), Err(Error::InvalidLocalDateTime(_))));
    // 1:30 comes twice on the day clocks fall back.
    assert!(matches!(
        ymd(2020, 11, 1, Eastern).and_hms(1, 30, 0),
        Err(Error::InvalidLocalDateTime(_))
    ));
}

#[test]
fn local_fields_of_an_instant() {
    let tm = ymdhms(2020, 3, 15, 12, 34, 56, Eastern);
    assert_eq!(tm.utc_timestamp(), (1584290096, 0));
    assert_eq!((tm.year(), tm.month(), tm.month0(), tm.day()), (2020, 3, 2, 15));
    assert_eq!((tm.hour(), tm.minute(), tm.second(), tm.nanos()), (12, 34, 56, 0));
    assert_eq!(tm.month_name(), "March");
    assert_eq!(tm.with_tz(UTC).hour(), 16);
    assert_eq!(tm.utc_dec_parts(), (1584290096000000000, 9));
}

#[test]
fn setters_keep_the_other_fields() {
    let tm = ymdhms(2020, 3, 15, 12, 34, 56, Eastern);
    assert_eq!(tm.with_hour(7), ymdhms(2020, 3, 15, 7, 34, 56, Eastern));
    assert_eq!(tm.with_hour(99), ymdhms(2020, 3, 15, 23, 34, 56, Eastern));
    assert_eq!(tm.with_min(0), ymdhms(2020, 3, 15, 12, 0, 56, Eastern));
    assert_eq!(tm.with_sec(75), ymdhms(2020, 3, 15, 12, 34, 59, Eastern));
    assert_eq!(tm.with_millis(250).nanos(), 250_000_000);
    assert_eq!(tm.with_micros(250).nanos(), 250_000);
    assert_eq!(tm.with_nanos(7).nanos(), 7);
    assert_eq!(tm.with_day(31), ymdhms(2020, 3, 31, 12, 34, 56, Eastern));
    assert_eq!(tm.with_day(40), ymdhms(2020, 3, 31, 12, 34, 56, Eastern));
}

#[test]
fn adders_move_the_instant() {
    let tm = ymdhms(2020, 3, 8, 1, 30, 0, Eastern);
    // An hour later across the spring-forward gap is 3:30 local.
    assert_eq!(tm.add_hours(1), ymdhms(2020, 3, 8, 3, 30, 0, Eastern));
    assert_eq!(tm.add_mins(-90), ymdhms(2020, 3, 8, 0, 0, 0, Eastern));
    assert_eq!(tm.add_secs(30).second(), 30);
    assert_eq!(tm.add_millis(-1).nanos(), 999_000_000);
    assert_eq!(tm.add_micros(1).nanos(), 1_000);
    assert_eq!(tm.add_nanos(-1).utc_timestamp().1, 999_999_999);
    // A day later keeps the wall-clock time.
    assert_eq!(tm.add_days(1), ymdhms(2020, 3, 9, 1, 30, 0, Eastern));
    assert_eq!(tm.add_months(-1), ymdhms(2020, 2, 8, 1, 30, 0, Eastern));
    assert_eq!(tm.add_years(1), ymdhms(2021, 3, 8, 1, 30, 0, Eastern));
}

#[test]
fn durations_between_times() {
    let a = ymdhms(2020, 1, 1, 0, 0, 0, Eastern);
    let b = ymdhms(2020, 1, 1, 1, 30, 0, Eastern);
    assert_eq!(b - a, Duration::hour() + Duration::min() * 30);
    assert_eq!(a + (b - a), b);
    assert_eq!(b - (b - a), a);
    assert_eq!(a + Duration::msec(), a.add_millis(1));
}

#[test]
fn times_order_by_instant() {
    let a = ymdhms(2020, 1, 1, 0, 0, 0, Eastern);
    let b = a.with_tz(UTC);
    assert_eq!(a, b);
    assert!(a < a.add_nanos(1));
    assert!(a.add_secs(-1) < b);
    assert_eq!(Time::default(), Time::zero(UTC));
}

#[test]
fn parse_errors() {
    assert!(matches!(Time::from_local("not a time", Eastern), Err(Error::ChronoParse(_))));
    assert!(matches!(Time::from_local_iso("2018-01-30", Eastern), Err(Error::ChronoParse(_))));
    assert!(matches!(Time::from_ymd("2018.1.30", Eastern), Err(_)));
    assert!(matches!(Time::from_serialized(""), Err(Error::Custom(_))));
    assert!(matches!(Time::from_serialized("2018-01-30T06:04:57"), Err(Error::Custom(_))));
    assert!(matches!(
        Time::from_serialized("2018-01-30T06:04:57 Nowhere/Land"),
        Err(Error::TimeZoneParse(_))
    ));
}

#[test]
fn start_of_a_day() {
    let tm = Time::from_date(ymd(2020, 3, 15, Eastern));
    assert_eq!(tm, ymdhms(2020, 3, 15, 0, 0, 0, Eastern));
    assert_eq!(tm.ymd(), tm);
    assert_eq!(ymdhms(2020, 3, 15, 13, 5, 0, Eastern).ymd(), tm);
}

#[test]
fn try_apply_step_where_the_step_can_be_taken() {
    let t = ymdhms(2020, 1, 1, 10, 30, 0, Eastern);
    assert_eq!(t.try_apply_step(TimeOp::add_hours(1).step()), Some(ymdhms(2020, 1, 1, 11, 30, 0, Eastern)));
    assert_eq!(t.try_apply_step(TimeOp::add_hours(i64::MAX).step()), None);
    assert_eq!(t.try_apply_step(TimeOp::set_hour(30).step()), Some(ymdhms(2020, 1, 1, 23, 30, 0, Eastern)));
    assert_eq!(t.try_apply_step(TimeOp::set_millis(1000).step()), None);
    assert_eq!(
        t.try_apply_step(TimeOp::advance_fri(1).step()),
        Some(ymdhms(2020, 1, 3, 10, 30, 0, Eastern))
    );
    // 2:30 on the day clocks go forward does not exist.
    let before = ymdhms(2020, 3, 8, 1, 30, 0, Eastern);
    assert_eq!(before.try_apply_step(TimeOp::set_hour(2).step()), None);
}
