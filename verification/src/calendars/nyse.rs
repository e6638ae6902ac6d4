use vstd::prelude::*;

use crate::calendars::calendar::{set_is, Calendar, DaySet};
use crate::calendars::us_holidays::{
    august45_victory_over_japan,
    christmas,
    christmas_before1954,
    christmas_eve_before1993,
    christmas_eve_in_or_after1993,
    christmas_eves_adhoc,
    day_after_christmas_adhoc,
    day_after_independence_day_adhoc,
    day_before_decoration_adhoc,
    first_lunar_landing_closing,
    friday_after_independence_day_pre2013,
    good_friday,
    hurricane_gloria_closing,
    hurricane_sandy_closings,
    lincolns_birth_day_adhoc,
    march33_bank_holiday,
    mon_tues_thurs_before_independence_day,
    new_york_city_blackout77,
    november29_backlog_relief,
    paperwork_crisis68,
    saturday,
    september11_closings,
    sunday,
    us_black_friday_before1993,
    us_black_friday_in_or_after1993,
    us_columbus_day_before1954,
    us_election_day1848to1967,
    us_election_day1968to1980,
    us_independence_day,
    us_independence_day_before1954,
    us_labor_day,
    us_lincolns_birth_day_before1954,
    us_martin_luther_king_jr_after1998,
    us_memorial_day,
    us_memorial_day1964to1969,
    us_memorial_day_before1964,
    us_national_daysof_mourning,
    us_new_years_day,
    us_presidents_day,
    us_thanksgiving_day,
    us_thanksgiving_day1939to1941,
    us_thanksgiving_day_before1939,
    us_veterans_day1934to1953,
    us_washingtons_birth_day1964to1970,
    us_washingtons_birth_day_before1964,
    weather_snow_closing,
    wednesday_before_independence_day_post2013,
};
use crate::calendars::us_holidays::Observance;
use crate::date::{us_eastern, ymd, zone_named, Date, Day};
use crate::op::{SpanOp, TOp, TimeOp};

verus! {

// The New York Stock Exchange, in US/Eastern: open from 9:30 AM to 4:00 PM;
// closed on weekends, on the regularly observed holidays and on the
// irregular closings listed below; closed early (1:00 PM, 2:00 PM before
// 1993) on the days around Independence Day, after Thanksgiving and on
// Christmas Eve, and on a few special days.

/// Days the exchange closed early at 1:00 PM outside the regular rules.
pub fn nyse_special() -> (r: DaySet)
    ensures
        set_is(r, None, None, None, Observance::Same, seq![
            (1997i32, 12u32, 26u32),
            (1999i32, 12u32, 31u32),
            (2003i32, 12u32, 26u32),
            (2013i32, 7u32, 3u32),
        ]),
        r.listed().map_values(|d: Date| d@) == seq![
            (1997i32, 12u32, 26u32),
            (1999i32, 12u32, 31u32),
            (2003i32, 12u32, 26u32),
            (2013i32, 7u32, 3u32),
        ],
{
    let tz = us_eastern();
    let r = DaySet::new().with_adhoc(
        vec![ymd(1997, 12, 26, tz), ymd(1999, 12, 31, tz), ymd(2003, 12, 26, tz), ymd(2013, 7, 3, tz)],
    );
    assert(r.listed().map_values(|d: Date| d@) =~= seq![
        (1997i32, 12u32, 26u32),
        (1999i32, 12u32, 31u32),
        (2003i32, 12u32, 26u32),
        (2013i32, 7u32, 3u32),
    ]);
    r
}

/// The span of a trading day from 9:30 AM to `close_hour` o'clock.
pub open spec fn session_to(op: SpanOp, close_hour: i64) -> bool {
    op.st@ == (TOp::AddMins, 570i64) && op.en@ == (TOp::AddHours, close_hour)
}

/// The exchange calendar of the New York Stock Exchange.
pub fn get_nyse() -> (r: Calendar)
    ensures
        r.label() == "NYSE"@,
        zone_named("US/Eastern"@) == Some(r.time_zone()),
        r.open_list().len() == 1,
        session_to(r.open_list()[0], 16),
        r.holiday_list().len() == 40,
        r.override_list().len() == 2,
        r.override_list()[0].0.len() == 1,
        session_to(r.override_list()[0].0[0], 13),
        r.override_list()[0].1.len() == 6,
        r.override_list()[1].0.len() == 1,
        session_to(r.override_list()[1].0[0], 14),
        r.override_list()[1].1.len() == 2,
        set_is(r.holiday_list()[0], None, None, None, Observance::OnlyOn(Day::Sat), seq![]),
        set_is(r.holiday_list()[1], None, None, None, Observance::OnlyOn(Day::Sun), seq![]),
        set_is(r.holiday_list()[2], Some((1u32, 1u32)), None, None, Observance::SunToMon, seq![]),
        set_is(r.holiday_list()[3], Some((1u32, 1u32)), Some((1998i32, 1u32, 1u32)), None, Observance::FindWeekday(Day::Mon, 3i8), seq![]),
        set_is(r.holiday_list()[4], Some((2u32, 12u32)), Some((1896i32, 1u32, 1u32)), Some((1953i32, 12u32, 31u32)), Observance::SunToMon, seq![]),
        set_is(r.holiday_list()[5], Some((2u32, 22u32)), Some((1880i32, 1u32, 1u32)), Some((1963i32, 12u32, 31u32)), Observance::SunToMon, seq![]),
        set_is(r.holiday_list()[6], Some((2u32, 22u32)), Some((1964i32, 1u32, 1u32)), Some((1970i32, 12u32, 31u32)), Observance::NearestWorkday, seq![]),
        set_is(r.holiday_list()[7], Some((2u32, 1u32)), Some((1971i32, 1u32, 1u32)), None, Observance::FindWeekday(Day::Mon, 3i8), seq![]),
        set_is(r.holiday_list()[8], Some((1u32, 1u32)), None, None, Observance::GoodFriday, seq![]),
        set_is(r.holiday_list()[9], Some((5u32, 30u32)), None, Some((1963i32, 12u32, 31u32)), Observance::SunToMon, seq![]),
        set_is(r.holiday_list()[10], Some((5u32, 30u32)), Some((1964i32, 1u32, 1u32)), Some((1969i32, 12u32, 31u32)), Observance::NearestWorkday, seq![]),
        set_is(r.holiday_list()[11], Some((5u32, 25u32)), Some((1971i32, 1u32, 1u32)), None, Observance::FindWeekday(Day::Mon, 1i8), seq![]),
        set_is(r.holiday_list()[12], Some((7u32, 4u32)), None, Some((1953i32, 12u32, 31u32)), Observance::SunToMon, seq![]),
        set_is(r.holiday_list()[13], Some((7u32, 4u32)), Some((1954i32, 1u32, 1u32)), None, Observance::NearestWorkday, seq![]),
        set_is(r.holiday_list()[14], Some((9u32, 1u32)), None, None, Observance::FindWeekday(Day::Mon, 1i8), seq![]),
        set_is(r.holiday_list()[15], Some((11u32, 30u32)), Some((1864i32, 1u32, 1u32)), Some((1938i32, 12u32, 31u32)), Observance::FindWeekday(Day::Thu, -1i8), seq![]),
        set_is(r.holiday_list()[16], Some((11u32, 30u32)), Some((1939i32, 1u32, 1u32)), Some((1941i32, 12u32, 31u32)), Observance::FindWeekday(Day::Thu, -2i8), seq![]),
        set_is(r.holiday_list()[17], Some((11u32, 1u32)), Some((1942i32, 1u32, 1u32)), None, Observance::FindWeekday(Day::Thu, 4i8), seq![]),
        set_is(r.holiday_list()[18], Some((11u32, 2u32)), Some((1848i32, 1u32, 1u32)), Some((1967i32, 12u32, 31u32)), Observance::FindWeekday(Day::Tue, 1i8), seq![]),
        set_is(r.holiday_list()[19], Some((11u32, 2u32)), Some((1968i32, 1u32, 1u32)), Some((1980i32, 12u32, 31u32)), Observance::NextTuesdayEveryFourYears, seq![]),
        set_is(r.holiday_list()[20], Some((11u32, 11u32)), Some((1934i32, 1u32, 1u32)), Some((1953i32, 12u32, 31u32)), Observance::SunToMon, seq![]),
        set_is(r.holiday_list()[21], Some((10u32, 12u32)), None, Some((1953i32, 12u32, 31u32)), Observance::SunToMon, seq![]),
        set_is(r.holiday_list()[22], Some((12u32, 25u32)), None, Some((1953i32, 12u32, 31u32)), Observance::SunToMon, seq![]),
        set_is(r.holiday_list()[23], Some((12u32, 25u32)), Some((1954i32, 1u32, 1u32)), None, Observance::NearestWorkday, seq![]),
        set_is(r.holiday_list()[24], None, None, None, Observance::Same, seq![(1929i32, 11u32, 1u32), (1929i32, 11u32, 29u32)]),
        set_is(r.holiday_list()[25], None, None, None, Observance::Same, seq![(1933i32, 3u32, 6u32), (1933i32, 3u32, 7u32), (1933i32, 3u32, 8u32), (1933i32, 3u32, 9u32), (1933i32, 3u32, 10u32), (1933i32, 3u32, 11u32), (1933i32, 3u32, 12u32), (1933i32, 3u32, 13u32), (1933i32, 3u32, 14u32)]),
        set_is(r.holiday_list()[26], None, None, None, Observance::Same, seq![(1945i32, 8u32, 15u32), (1945i32, 8u32, 16u32)]),
        set_is(r.holiday_list()[27], None, None, None, Observance::Same, seq![(1945i32, 12u32, 24u32), (1956i32, 12u32, 24u32)]),
        set_is(r.holiday_list()[28], None, None, None, Observance::Same, seq![(1958i32, 12u32, 26u32)]),
        set_is(r.holiday_list()[29], None, None, None, Observance::Same, seq![(1961i32, 5u32, 29u32)]),
        set_is(r.holiday_list()[30], None, None, None, Observance::Same, seq![(1968i32, 2u32, 12u32)]),
        set_is(r.holiday_list()[31], None, None, None, Observance::Same, seq![(1968i32, 6u32, 12u32), (1968i32, 6u32, 19u32), (1968i32, 6u32, 26u32), (1968i32, 7u32, 10u32), (1968i32, 7u32, 17u32), (1968i32, 7u32, 24u32), (1968i32, 7u32, 31u32), (1968i32, 8u32, 7u32), (1968i32, 8u32, 14u32), (1968i32, 8u32, 21u32), (1968i32, 8u32, 28u32), (1968i32, 9u32, 11u32), (1968i32, 9u32, 18u32), (1968i32, 9u32, 25u32), (1968i32, 10u32, 2u32), (1968i32, 10u32, 9u32), (1968i32, 10u32, 16u32), (1968i32, 10u32, 23u32), (1968i32, 10u32, 30u32), (1968i32, 11u32, 11u32), (1968i32, 11u32, 20u32), (1968i32, 12u32, 4u32), (1968i32, 12u32, 11u32), (1968i32, 12u32, 18u32), (1968i32, 12u32, 25u32)]),
        set_is(r.holiday_list()[32], None, None, None, Observance::Same, seq![(1968i32, 7u32, 5u32)]),
        set_is(r.holiday_list()[33], None, None, None, Observance::Same, seq![(1969i32, 2u32, 10u32)]),
        set_is(r.holiday_list()[34], None, None, None, Observance::Same, seq![(1969i32, 7u32, 21u32)]),
        set_is(r.holiday_list()[35], None, None, None, Observance::Same, seq![(2001i32, 9u32, 11u32), (2001i32, 9u32, 12u32), (2001i32, 9u32, 13u32), (2001i32, 9u32, 14u32), (2001i32, 9u32, 15u32), (2001i32, 9u32, 16u32)]),
        set_is(r.holiday_list()[36], None, None, None, Observance::Same, seq![(1977i32, 7u32, 14u32)]),
        set_is(r.holiday_list()[37], None, None, None, Observance::Same, seq![(1985i32, 9u32, 27u32)]),
        set_is(r.holiday_list()[38], None, None, None, Observance::Same, seq![(2012i32, 10u32, 29u32), (2012i32, 10u32, 30u32)]),
        set_is(r.holiday_list()[39], None, None, None, Observance::Same, seq![(1963i32, 11u32, 25u32), (1968i32, 4u32, 9u32), (1969i32, 3u32, 31u32), (1972i32, 12u32, 28u32), (1973i32, 1u32, 25u32), (1994i32, 4u32, 27u32), (2004i32, 6u32, 11u32), (2007i32, 1u32, 2u32), (2018i32, 12u32, 5u32)]),
        set_is(r.override_list()[0].1[0], Some((7u32, 3u32)), Some((1995i32, 1u32, 1u32)), None, Observance::MonTueThu, seq![]),
        set_is(r.override_list()[0].1[1], Some((7u32, 5u32)), Some((1995i32, 1u32, 1u32)), Some((2013i32, 1u32, 1u32)), Observance::OnlyOn(Day::Fri), seq![]),
        set_is(r.override_list()[0].1[2], Some((7u32, 3u32)), Some((2013i32, 1u32, 1u32)), None, Observance::OnlyOn(Day::Wed), seq![]),
        set_is(r.override_list()[0].1[3], Some((11u32, 1u32)), Some((1993i32, 1u32, 1u32)), None, Observance::DayAfter4thThu, seq![]),
        set_is(r.override_list()[0].1[4], Some((12u32, 24u32)), Some((1993i32, 1u32, 1u32)), None, Observance::IsMonToThu, seq![]),
        set_is(r.override_list()[0].1[5], None, None, None, Observance::Same, seq![(1997i32, 12u32, 26u32), (1999i32, 12u32, 31u32), (2003i32, 12u32, 26u32), (2013i32, 7u32, 3u32)]),
        set_is(r.override_list()[1].1[0], Some((12u32, 24u32)), None, Some((1993i32, 1u32, 1u32)), Observance::IsMonToThu, seq![]),
        set_is(r.override_list()[1].1[1], Some((11u32, 1u32)), Some((1992i32, 1u32, 1u32)), Some((1993i32, 1u32, 1u32)), Observance::DayAfter4thThu, seq![]),
{
    let tz = us_eastern();
    let h_saturday = saturday();
    let h_sunday = sunday();
    let h_us_new_years_day = us_new_years_day();
    let h_us_martin_luther_king_jr_after1998 = us_martin_luther_king_jr_after1998();
    let h_us_lincolns_birth_day_before1954 = us_lincolns_birth_day_before1954();
    let h_us_washingtons_birth_day_before1964 = us_washingtons_birth_day_before1964();
    let h_us_washingtons_birth_day1964to1970 = us_washingtons_birth_day1964to1970();
    let h_us_presidents_day = us_presidents_day();
    let h_good_friday = good_friday();
    let h_us_memorial_day_before1964 = us_memorial_day_before1964();
    let h_us_memorial_day1964to1969 = us_memorial_day1964to1969();
    let h_us_memorial_day = us_memorial_day();
    let h_us_independence_day_before1954 = us_independence_day_before1954();
    let h_us_independence_day = us_independence_day();
    let h_us_labor_day = us_labor_day();
    let h_us_thanksgiving_day_before1939 = us_thanksgiving_day_before1939();
    let h_us_thanksgiving_day1939to1941 = us_thanksgiving_day1939to1941();
    let h_us_thanksgiving_day = us_thanksgiving_day();
    let h_us_election_day1848to1967 = us_election_day1848to1967();
    let h_us_election_day1968to1980 = us_election_day1968to1980();
    let h_us_veterans_day1934to1953 = us_veterans_day1934to1953();
    let h_us_columbus_day_before1954 = us_columbus_day_before1954();
    let h_christmas_before1954 = christmas_before1954();
    let h_christmas = christmas();
    let h_november29_backlog_relief = november29_backlog_relief();
    let h_march33_bank_holiday = march33_bank_holiday();
    let h_august45_victory_over_japan = august45_victory_over_japan();
    let h_christmas_eves_adhoc = christmas_eves_adhoc();
    let h_day_after_christmas_adhoc = day_after_christmas_adhoc();
    let h_day_before_decoration_adhoc = day_before_decoration_adhoc();
    let h_lincolns_birth_day_adhoc = lincolns_birth_day_adhoc();
    let h_paperwork_crisis68 = paperwork_crisis68();
    let h_day_after_independence_day_adhoc = day_after_independence_day_adhoc();
    let h_weather_snow_closing = weather_snow_closing();
    let h_first_lunar_landing_closing = first_lunar_landing_closing();
    let h_september11_closings = september11_closings();
    let h_new_york_city_blackout77 = new_york_city_blackout77();
    let h_hurricane_gloria_closing = hurricane_gloria_closing();
    let h_hurricane_sandy_closings = hurricane_sandy_closings();
    let h_us_national_daysof_mourning = us_national_daysof_mourning();
    let o_mon_tues_thurs_before_independence_day = mon_tues_thurs_before_independence_day();
    let o_friday_after_independence_day_pre2013 = friday_after_independence_day_pre2013();
    let o_wednesday_before_independence_day_post2013 = wednesday_before_independence_day_post2013();
    let o_us_black_friday_in_or_after1993 = us_black_friday_in_or_after1993();
    let o_christmas_eve_in_or_after1993 = christmas_eve_in_or_after1993();
    let o_christmas_eve_before1993 = christmas_eve_before1993();
    let o_us_black_friday_before1993 = us_black_friday_before1993();
    let special = nyse_special();
    let regular = [SpanOp::new(TimeOp::add_mins(570), TimeOp::add_hours(16))];
    let early = [SpanOp::new(TimeOp::add_mins(570), TimeOp::add_hours(13))];
    let early_before1993 = [SpanOp::new(TimeOp::add_mins(570), TimeOp::add_hours(14))];
    Calendar::new("NYSE", tz).with_opens(&regular).with_holidays(
        &[
            &h_saturday,
            &h_sunday,
            &h_us_new_years_day,
            &h_us_martin_luther_king_jr_after1998,
            &h_us_lincolns_birth_day_before1954,
            &h_us_washingtons_birth_day_before1964,
            &h_us_washingtons_birth_day1964to1970,
            &h_us_presidents_day,
            &h_good_friday,
            &h_us_memorial_day_before1964,
            &h_us_memorial_day1964to1969,
            &h_us_memorial_day,
            &h_us_independence_day_before1954,
            &h_us_independence_day,
            &h_us_labor_day,
            &h_us_thanksgiving_day_before1939,
            &h_us_thanksgiving_day1939to1941,
            &h_us_thanksgiving_day,
            &h_us_election_day1848to1967,
            &h_us_election_day1968to1980,
            &h_us_veterans_day1934to1953,
            &h_us_columbus_day_before1954,
            &h_christmas_before1954,
            &h_christmas,
            &h_november29_backlog_relief,
            &h_march33_bank_holiday,
            &h_august45_victory_over_japan,
            &h_christmas_eves_adhoc,
            &h_day_after_christmas_adhoc,
            &h_day_before_decoration_adhoc,
            &h_lincolns_birth_day_adhoc,
            &h_paperwork_crisis68,
            &h_day_after_independence_day_adhoc,
            &h_weather_snow_closing,
            &h_first_lunar_landing_closing,
            &h_september11_closings,
            &h_new_york_city_blackout77,
            &h_hurricane_gloria_closing,
            &h_hurricane_sandy_closings,
            &h_us_national_daysof_mourning,
        ],
    ).with_override(&early, &[&o_mon_tues_thurs_before_independence_day, &o_friday_after_independence_day_pre2013, &o_wednesday_before_independence_day_post2013, &o_us_black_friday_in_or_after1993, &o_christmas_eve_in_or_after1993, &special]).with_override(&early_before1993, &[&o_christmas_eve_before1993, &o_us_black_friday_before1993])
}

} // verus!
