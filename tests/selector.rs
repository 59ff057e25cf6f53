use vaktijars::{
    highlight, prayer_timeline, select_next, Date, LocalDateTime, Rollover, RolloverStep,
    VaktijaColor, VaktijaTime, MAX_TIMELINES,
};

const D: i64 = 19895;

fn at(days: i64, secs: u32) -> LocalDateTime {
    LocalDateTime { date: Date { days }, secs }
}

fn day(now: LocalDateTime, raw: [Option<i64>; 6]) -> Vec<VaktijaTime> {
    prayer_timeline(raw, Date { days: D }, now, false).unwrap()
}

const RAW: [Option<i64>; 6] = [
    Some(3 * 3600),
    Some(5 * 3600),
    Some(12 * 3600),
    Some(16 * 3600),
    Some(20 * 3600),
    Some(22 * 3600),
];

#[test]
fn picks_soonest_upcoming() {
    let v = day(at(D, 13 * 3600), RAW);
    assert_eq!(select_next(&v), Some(3));
}

#[test]
fn event_happening_now_counts() {
    let v = day(at(D, 12 * 3600), RAW);
    assert_eq!(select_next(&v), Some(2));
}

#[test]
fn undefined_events_are_skipped() {
    let raw = [None, Some(5 * 3600), None, None, None, None];
    let v = day(at(D, 6 * 3600), raw);
    assert_eq!(select_next(&v), None);
    let v = day(at(D, 4 * 3600), raw);
    assert_eq!(select_next(&v), Some(1));
}

#[test]
fn equal_instants_pick_the_first() {
    let raw = [None, Some(9 * 3600), Some(9 * 3600), None, None, None];
    let v = day(at(D, 0), raw);
    assert_eq!(select_next(&v), Some(1));
}

#[test]
fn selection_is_repeatable() {
    let v = day(at(D, 13 * 3600), RAW);
    assert_eq!(select_next(&v), select_next(&v));
}

#[test]
fn selection_moves_forward_as_time_passes() {
    let mut last = 0;
    for hour in [0u32, 4, 6, 13, 17, 21] {
        let k = select_next(&day(at(D, hour * 3600), RAW)).unwrap();
        assert!(k >= last);
        last = k;
    }
    assert_eq!(last, 5);
}

#[test]
fn after_last_event_rolls_over() {
    let v = day(at(D, 23 * 3600), RAW);
    assert_eq!(select_next(&v), None);
    let s = Rollover::start(Date { days: D });
    assert_eq!(
        s.step(&v),
        RolloverStep::Advance(Rollover { date: Date { days: D + 1 }, attempts: 1 })
    );
}

#[test]
fn found_step_names_the_event() {
    let v = day(at(D, 13 * 3600), RAW);
    assert_eq!(Rollover::start(Date { days: D }).step(&v), RolloverStep::Found(3));
}

#[test]
fn rollover_is_capped() {
    let v = day(at(D, 0), [None, None, None, None, None, None]);
    let mut s = Rollover::start(Date { days: D });
    let mut steps = 0;
    loop {
        steps += 1;
        match s.step(&v) {
            RolloverStep::Advance(next) => s = next,
            RolloverStep::Exhausted => break,
            RolloverStep::Found(_) => panic!("nothing is upcoming"),
        }
    }
    assert_eq!(steps, MAX_TIMELINES);
}

#[test]
fn highlight_marks_one_event() {
    let mut v = day(at(D, 13 * 3600), RAW);
    highlight(&mut v, 3);
    assert_eq!(v.len(), 6);
    for (i, t) in v.iter().enumerate() {
        let expected = if i == 3 { VaktijaColor::Active } else { VaktijaColor::Base };
        assert_eq!(t.color, expected);
    }
    assert_eq!(v[3].name, "Ikindija");
}
