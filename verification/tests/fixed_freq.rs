use rust_decimal::Decimal;
use std::str::FromStr;

use mhrono::cycles::Cycles;
use mhrono::duration::Duration;
use mhrono::fixed_freq::FixedFreq;
use mhrono::Error;

fn dec(s: &str) -> Decimal {
    Decimal::from_str(s).unwrap()
}

#[test]
fn fixed_freq_serialization() {
    let freq = FixedFreq::daily();
    let se = freq.human().unwrap();
    assert_eq!(se, "1d");
    let de = FixedFreq::from_human(&se).unwrap();
    assert_eq!(de, freq);
}

#[test]
fn serialization_non_unit_numerator_round_trips() {
    let freq = FixedFreq::new(Cycles::new(dec("2")), Duration::sec());
    let se = freq.human().unwrap();
    assert_eq!(se, "2:1s");
    let de = FixedFreq::from_human(&se).unwrap();
    assert_eq!(de, freq);
}

#[test]
fn parse_human_accepts_ratio_format() -> Result<(), Error> {
    let de: FixedFreq = "2:1s".parse()?;
    assert_eq!(de, FixedFreq::from_hz(dec("2")));
    Ok(())
}

#[test]
fn parse_zero_duration_is_err() {
    assert!("0s".parse::<FixedFreq>().is_err());
    assert!("2:0s".parse::<FixedFreq>().is_err());
}

#[test]
fn parse_zero_numerator_is_err() {
    assert!("0:1s".parse::<FixedFreq>().is_err());
}

#[test]
fn freq_from_hz() {
    let freq = FixedFreq::from_hz(dec("60"));
    assert_eq!(freq.num(), dec("60"));
    assert_eq!(freq.denom(), dec("1"));
}

#[test]
fn freq_new() {
    let cyc = Cycles::new(dec("5"));
    let dur = Duration::new(dec("2"));
    let freq = FixedFreq::new(cyc, dur);
    assert_eq!(freq.num(), dec("5"));
    assert_eq!(freq.denom(), dec("2"));
}

#[test]
fn freq_cycle_duration() {
    let cyc = Cycles::new(dec("5"));
    let dur = Duration::new(dec("2"));
    let freq = FixedFreq::new(cyc, dur);
    assert_eq!(freq.cycle_duration(), Duration::new(dec("2") / dec("5")));
}

#[test]
fn freq_hz() {
    let cyc = Cycles::new(dec("5"));
    let dur = Duration::new(dec("2"));
    let freq = FixedFreq::new(cyc, dur);
    assert_eq!(freq.hz(), dec("5") / dec("2"));
}

#[test]
fn fixed_freq_freq_eq() {
    let freq1 = FixedFreq::from_hz(dec("60"));
    let freq2 = FixedFreq::new(Cycles::new(dec("120")), Duration::new(dec("2")));
    assert_eq!(freq1, freq2);
}

#[test]
fn fixed_freq_freq_ord() {
    let freq1 = FixedFreq::from_hz(dec("60"));
    let freq2 = FixedFreq::from_hz(dec("120"));
    assert!(freq1 < freq2);
    assert!(FixedFreq::hourly() > FixedFreq::daily());
}

#[test]
fn freq_multiplication_with_cycles() {
    let freq = FixedFreq::from_hz(dec("60"));
    let cycles = Cycles::new(dec("2"));
    let result = freq * cycles;
    assert_eq!(result, Duration::new(dec("1") / dec("30")));
}

#[test]
fn freq_multiplication_with_duration() {
    let freq = FixedFreq::from_hz(dec("60"));
    let duration = Duration::new(dec("2"));
    let result = freq * duration;
    assert_eq!(result, Cycles::new(dec("120")));
}

#[test]
fn freq_division_with_cycles() {
    let cycles = Cycles::new(dec("120"));
    let freq = FixedFreq::from_hz(dec("60"));
    let result = cycles / freq;
    assert_eq!(result, Duration::new(dec("2")));
}

#[test]
fn freq_division_with_duration() {
    let freq1 = FixedFreq::from_hz(dec("120"));
    let freq2 = FixedFreq::from_hz(dec("60"));
    let result = freq1 / freq2;
    assert_eq!(result, dec("2"));
}

#[test]
fn from_human_trims_and_reports_each_error() {
    assert_eq!(FixedFreq::from_human(" 3 : 2s ").unwrap(), FixedFreq::new(Cycles::new(dec("3")), Duration::new(dec("2"))));
    assert!(matches!(FixedFreq::from_human("x:1s"), Err(Error::DecimalParse(_))));
    assert!(matches!(FixedFreq::from_human("2:1q"), Err(Error::DurationParse(_))));
    assert!(matches!(FixedFreq::from_human("0:1s"), Err(Error::FrequencyParse(_))));
    assert!(matches!(FixedFreq::from_human("0s"), Err(Error::FrequencyParse(_))));
}

#[test]
fn scaling_a_frequency() {
    let f = FixedFreq::from_hz(dec("2"));
    assert_eq!(f * 3_i64, FixedFreq::from_hz(dec("6")));
    assert_eq!(f / 4_i64, FixedFreq::new(Cycles::new(dec("1")), Duration::sec() * 2_i64));
    assert_eq!(FixedFreq::milli().human().unwrap(), "1ms");
    assert_eq!(FixedFreq::new(Cycles::new(dec("2.5")), Duration::min()).human().unwrap(), "2.5:1m");
}

#[test]
fn try_from_hz_refuses_zero() {
    assert!(FixedFreq::try_from_hz(dec("0")).is_none());
    let f = FixedFreq::try_from_hz(dec("2.5")).unwrap();
    assert_eq!(f, FixedFreq::from_hz(dec("2.5")));
}

#[test]
fn from_human_keeps_the_count_as_written() {
    let f = FixedFreq::from_human("2.50:1s").unwrap();
    assert_eq!(f.num().to_string(), "2.50");
    assert_eq!(f.human().unwrap(), "2.50:1s");
}

#[test]
fn from_human_trims_unicode_white_space() {
    let f = FixedFreq::from_human("\u{a0}3\u{3000}:\u{2003}2s\u{85}").unwrap();
    assert_eq!(f, FixedFreq::new(Cycles::new(dec("3")), Duration::new(dec("2"))));
    assert!(matches!(FixedFreq::from_human("\u{a0}:1s"), Err(Error::DecimalParse(_))));
}
