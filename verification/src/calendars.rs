pub mod cached_calendar;
pub mod calendar;
pub mod holiday_sets;
pub mod nyse;
pub mod us_holidays;
