use vaktijars::{
    relative_time, RelativeTime, TimeUnit,
    prayer_timeline, Date, LocalDateTime, PrayerEvent, VaktijaColor, VaktijaTime, CoreError,
    FAJR_MARGIN_MINUTES, ISHA_MARGIN_MINUTES, MAX_DAY, SECONDS_PER_DAY,
};

const D: i64 = 19895; // 2024-06-21

fn at(days: i64, secs: u32) -> LocalDateTime {
    LocalDateTime { date: Date { days }, secs }
}

#[test]
fn negative_offset_is_previous_day() {
    let t = VaktijaTime::new("x", Some(-3600), Date { days: D }, at(D, 0));
    assert_eq!(t.date_time, Some(at(D - 1, 23 * 3600)));
}

#[test]
fn offset_past_midnight_is_next_day() {
    let t = VaktijaTime::new("x", Some(25 * 3600), Date { days: D }, at(D, 0));
    assert_eq!(t.date_time, Some(at(D + 1, 3600)));
}

#[test]
fn offset_within_day_is_same_day() {
    let t = VaktijaTime::new("x", Some(12 * 3600), Date { days: D }, at(D, 0));
    assert_eq!(t.date_time, Some(at(D, 12 * 3600)));
}

#[test]
fn round_trip_decodes_to_bucket() {
    for (h, shift, hour) in [(-1i64, -1i64, 23i64), (25, 1, 1), (12, 0, 12), (0, 0, 0)] {
        let t = VaktijaTime::new("x", Some(h * 3600), Date { days: D }, at(D, 0));
        let ts = t.since_epoch().unwrap();
        assert_eq!(ts.div_euclid(SECONDS_PER_DAY) - D, shift);
        assert_eq!(ts.rem_euclid(SECONDS_PER_DAY), hour * 3600);
        assert_eq!(ts, D * SECONDS_PER_DAY + h * 3600);
    }
}

#[test]
fn undefined_offset_has_no_instant() {
    let t = VaktijaTime::new("Zora", None, Date { days: D }, at(D, 0));
    assert_eq!(t.date_time, None);
    assert_eq!(t.absolute_time(&false), "N/A");
    assert_eq!(t.time_remaining(), None);
    assert_eq!(t.since_epoch(), None);
    assert_eq!(t.name, "Zora");
    assert_eq!(t.color, VaktijaColor::Base);
}

#[test]
fn absolute_time_is_zero_padded() {
    let t = VaktijaTime::new("x", Some(5 * 3600 + 7 * 60 + 9), Date { days: D }, at(D, 0));
    assert_eq!(t.absolute_time(&false), "05:07");
    assert_eq!(t.absolute_time(&true), "05:07:09");
    let late = VaktijaTime::new("x", Some(-1), Date { days: D }, at(D, 0));
    assert_eq!(late.absolute_time(&true), "23:59:59");
}

#[test]
fn time_remaining_counts_seconds_to_now() {
    let t = VaktijaTime::new("x", Some(13 * 3600), Date { days: D }, at(D, 12 * 3600 + 30));
    assert_eq!(t.time_remaining(), Some(3600 - 30));
    let past = VaktijaTime::new("x", Some(3600), Date { days: D }, at(D, 7200));
    assert_eq!(past.time_remaining(), Some(-3600));
}

#[test]
fn since_epoch_is_wall_clock_seconds() {
    let t = VaktijaTime::new("x", Some(3600), Date { days: 1 }, at(1, 0));
    assert_eq!(t.since_epoch(), Some(86400 + 3600));
}

#[test]
fn color_classes() {
    let mut t = VaktijaTime::new("x", Some(3600), Date { days: D }, at(D, 0));
    assert_eq!(t.get_color(), "stone-800");
    t.color = VaktijaColor::Active;
    assert_eq!(t.get_color(), "stone-400");
}

#[test]
fn labels_in_canonical_order() {
    let names: Vec<&str> = (0..6).map(|i| PrayerEvent::at(i).label()).collect();
    assert_eq!(names, vec!["Zora", "Izlazak Sunca", "Podne", "Ikindija", "Akšam", "Jacija"]);
}

fn summer_offsets() -> [Option<i64>; 6] {
    // about 43.14° N, 20.52° E at UTC+2 around the June solstice
    [
        Some(2 * 3600 + 40 * 60),
        Some(4 * 3600 + 50 * 60),
        Some(12 * 3600 + 38 * 60),
        Some(16 * 3600 + 40 * 60),
        Some(20 * 3600 + 26 * 60),
        Some(22 * 3600 + 30 * 60),
    ]
}

#[test]
fn timeline_without_margins() {
    let v = prayer_timeline(summer_offsets(), Date { days: D }, at(D, 0), false).unwrap();
    assert_eq!(v.len(), 6);
    assert_eq!(v[0].name, "Zora");
    assert_eq!(v[5].name, "Jacija");
    assert_eq!(v[2].date_time, Some(at(D, 12 * 3600 + 38 * 60)));
    assert!(v.iter().all(|t| t.color == VaktijaColor::Base));
}

#[test]
fn timeline_with_margins() {
    let v = prayer_timeline(summer_offsets(), Date { days: D }, at(D, 0), true).unwrap();
    assert_eq!(
        v[0].date_time,
        Some(at(D, (2 * 3600 + 40 * 60 + FAJR_MARGIN_MINUTES * 60) as u32))
    );
    assert_eq!(v[0].date_time, Some(at(D, 2 * 3600 + 30 * 60)));
    assert_eq!(v[1].date_time, Some(at(D, 4 * 3600 + 38 * 60)));
    assert_eq!(v[2].date_time, Some(at(D, 12 * 3600 + 40 * 60)));
    assert_eq!(v[3].date_time, Some(at(D, 16 * 3600 + 46 * 60)));
    assert_eq!(v[4].date_time, Some(at(D, 20 * 3600 + 38 * 60)));
    assert_eq!(
        v[5].date_time,
        Some(at(D, (22 * 3600 + 30 * 60 + ISHA_MARGIN_MINUTES * 60) as u32))
    );
}

#[test]
fn summer_scenario_within_day() {
    let v = prayer_timeline(summer_offsets(), Date { days: D }, at(D, 0), false).unwrap();
    let start = D * SECONDS_PER_DAY;
    let end = (D + 1) * SECONDS_PER_DAY + 2 * 3600;
    let stamps: Vec<i64> = v.iter().map(|t| t.since_epoch().unwrap()).collect();
    assert!(stamps.iter().all(|&s| start <= s && s < end));
    assert!(stamps[1] < stamps[2] && stamps[2] < stamps[4]);
}

#[test]
fn polar_scenario_reports_not_available() {
    let raw = [None, None, Some(12 * 3600 + 40 * 60), Some(18 * 3600), None, None];
    let v = prayer_timeline(raw, Date { days: D }, at(D, 0), false).unwrap();
    assert_eq!(v[0].absolute_time(&false), "N/A");
    assert_eq!(v[5].absolute_time(&false), "N/A");
    assert_eq!(v[1].time_remaining(), None);
    assert_eq!(v[2].absolute_time(&false), "12:40");
}

#[test]
fn offset_beyond_two_days_is_rejected() {
    let mut raw = summer_offsets();
    raw[5] = Some(2 * 86400);
    let r = prayer_timeline(raw, Date { days: D }, at(D, 0), false);
    assert!(matches!(r, Err(CoreError::OffsetOutOfRange)));
    raw[5] = Some(-86400 - 1);
    let r = prayer_timeline(raw, Date { days: D }, at(D, 0), false);
    assert!(matches!(r, Err(CoreError::OffsetOutOfRange)));
}

#[test]
fn margin_can_push_offset_out_of_range() {
    let raw = [Some(-86400), None, None, None, None, None];
    assert!(prayer_timeline(raw, Date { days: D }, at(D, 0), false).is_ok());
    let r = prayer_timeline(raw, Date { days: D }, at(D, 0), true);
    assert!(matches!(r, Err(CoreError::OffsetOutOfRange)));
}

#[test]
fn date_at_range_end_is_rejected() {
    let r = prayer_timeline(summer_offsets(), Date { days: MAX_DAY }, at(D, 0), false);
    assert!(matches!(r, Err(CoreError::DateOutOfRange)));
}

#[test]
fn relative_time_picks_largest_unit() {
    let r = |ahead, amount, unit| RelativeTime { ahead, amount, unit };
    assert_eq!(relative_time(7200), r(true, 2, TimeUnit::Hour));
    assert_eq!(relative_time(3599), r(true, 59, TimeUnit::Minute));
    assert_eq!(relative_time(-90), r(false, 1, TimeUnit::Minute));
    assert_eq!(relative_time(59), r(true, 59, TimeUnit::Second));
    assert_eq!(relative_time(0), r(true, 0, TimeUnit::Second));
    assert_eq!(relative_time(-3600), r(false, 1, TimeUnit::Hour));
    assert_eq!(relative_time(i64::MIN).amount, (i64::MIN as i128).unsigned_abs() as u64 / 3600);
}

#[test]
fn event_relative_to_now() {
    let t = VaktijaTime::new("x", Some(13 * 3600), Date { days: D }, at(D, 10 * 3600 + 1));
    assert_eq!(
        t.relative(),
        Some(RelativeTime { ahead: true, amount: 2, unit: TimeUnit::Hour })
    );
    let u = VaktijaTime::new("x", None, Date { days: D }, at(D, 0));
    assert_eq!(u.relative(), None);
}
