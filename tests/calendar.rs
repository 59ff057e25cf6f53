use chrono::NaiveDate;
use vaktijars::{ephemeris_days, Date, LocalDateTime, MAX_DAY, MIN_DAY};

fn unix_day(y: i32, m: u32, d: u32) -> i64 {
    let epoch = NaiveDate::from_ymd_opt(1970, 1, 1).unwrap();
    NaiveDate::from_ymd_opt(y, m, d).unwrap().signed_duration_since(epoch).num_days()
}

#[test]
fn j2000_day_counts() {
    let e = ephemeris_days(Date { days: unix_day(2000, 1, 1) });
    assert_eq!(e.days_since_j2000, 0);
    assert_eq!(e.day_of_year, 0);
}

#[test]
fn solstice_day_counts() {
    let days = unix_day(2024, 6, 21);
    assert_eq!(days, 19895);
    let e = ephemeris_days(Date { days });
    assert_eq!(e.days_since_j2000, 19895 - 10957);
    assert_eq!(e.day_of_year, 172);
}

#[test]
fn last_day_of_leap_year() {
    let e = ephemeris_days(Date { days: unix_day(2024, 12, 31) });
    assert_eq!(e.day_of_year, 365);
}

#[test]
fn far_dates_do_not_fail() {
    let lo = ephemeris_days(Date { days: MIN_DAY });
    let hi = ephemeris_days(Date { days: MAX_DAY });
    assert!(lo.day_of_year < 366 && hi.day_of_year < 366);
    assert_eq!(hi.days_since_j2000 - lo.days_since_j2000, MAX_DAY - MIN_DAY);
}

#[test]
fn date_neighbours() {
    assert_eq!(Date { days: 5 }.succ(), Some(Date { days: 6 }));
    assert_eq!(Date { days: 5 }.pred(), Some(Date { days: 4 }));
    assert_eq!(Date { days: MAX_DAY }.succ(), None);
    assert_eq!(Date { days: MIN_DAY }.pred(), None);
    assert_eq!(Date::from_days(MAX_DAY + 1), None);
}

#[test]
fn timestamps_split_by_whole_days() {
    let t = LocalDateTime::from_timestamp(-1).unwrap();
    assert_eq!(t, LocalDateTime { date: Date { days: -1 }, secs: 86399 });
    assert_eq!(t.timestamp(), -1);
    let u = LocalDateTime::from_timestamp(86400 * 3 + 5).unwrap();
    assert_eq!(u.seconds_since(&t), 86400 * 3 + 6);
    assert_eq!(LocalDateTime::new(Date { days: 0 }, 86400), None);
}
