//! The six daily events of one date: their labels, the safety margins, and
//! the conversion of an offset from local midnight into an instant, with
//! rollover across the day boundary.

use vstd::prelude::*;
use crate::error::CoreError;
use crate::text::{clock, clock_text, push_char};
use crate::time::{local_seconds, Date, LocalDateTime, MAX_DAY, MIN_DAY, SECONDS_PER_DAY};

verus! {

/// Earliest offset from local midnight that an event may have: one day before.
pub const OFFSET_MIN: i64 = -86400;

/// Bound (exclusive) on the offset from local midnight: two days after.
pub const OFFSET_MAX: i64 = 172800;

/// Safety margin of Fajr, in minutes.
pub const FAJR_MARGIN_MINUTES: i64 = -10;

/// Safety margin of sunrise, in minutes.
pub const SUNRISE_MARGIN_MINUTES: i64 = -12;

/// Safety margin of Dhuhr, in minutes.
pub const DHUHR_MARGIN_MINUTES: i64 = 2;

/// Safety margin of Asr, in minutes.
pub const ASR_MARGIN_MINUTES: i64 = 6;

/// Safety margin of Maghrib, in minutes.
pub const MAGHRIB_MARGIN_MINUTES: i64 = 12;

/// Safety margin of Isha, in minutes.
pub const ISHA_MARGIN_MINUTES: i64 = 2;

/// Number of events in a day's timeline.
pub const EVENT_COUNT: usize = 6;

/// The six daily events, in their canonical order.
#[derive(Clone, Copy, Debug, PartialEq, Eq, Structural)]
pub enum PrayerEvent {
    Fajr,
    Sunrise,
    Dhuhr,
    Asr,
    Maghrib,
    Isha,
}

/// The event at position `i` of the canonical order.
pub open spec fn event_at(i: int) -> PrayerEvent {
    if i == 0 {
        PrayerEvent::Fajr
    } else if i == 1 {
        PrayerEvent::Sunrise
    } else if i == 2 {
        PrayerEvent::Dhuhr
    } else if i == 3 {
        PrayerEvent::Asr
    } else if i == 4 {
        PrayerEvent::Maghrib
    } else {
        PrayerEvent::Isha
    }
}

impl PrayerEvent {
    pub open spec fn label_spec(self) -> Seq<char> {
        match self {
            PrayerEvent::Fajr => "Zora"@,
            PrayerEvent::Sunrise => "Izlazak Sunca"@,
            PrayerEvent::Dhuhr => "Podne"@,
            PrayerEvent::Asr => "Ikindija"@,
            PrayerEvent::Maghrib => "Akšam"@,
            PrayerEvent::Isha => "Jacija"@,
        }
    }

    pub open spec fn margin_spec(self) -> int {
        match self {
            PrayerEvent::Fajr => FAJR_MARGIN_MINUTES as int,
            PrayerEvent::Sunrise => SUNRISE_MARGIN_MINUTES as int,
            PrayerEvent::Dhuhr => DHUHR_MARGIN_MINUTES as int,
            PrayerEvent::Asr => ASR_MARGIN_MINUTES as int,
            PrayerEvent::Maghrib => MAGHRIB_MARGIN_MINUTES as int,
            PrayerEvent::Isha => ISHA_MARGIN_MINUTES as int,
        }
    }

    /// The event at position `i` of the canonical order.
    pub fn at(i: usize) -> (r: PrayerEvent)
        requires
            i < EVENT_COUNT,
        ensures
            r == event_at(i as int),
    {
        if i == 0 {
            PrayerEvent::Fajr
        } else if i == 1 {
            PrayerEvent::Sunrise
        } else if i == 2 {
            PrayerEvent::Dhuhr
        } else if i == 3 {
            PrayerEvent::Asr
        } else if i == 4 {
            PrayerEvent::Maghrib
        } else {
            PrayerEvent::Isha
        }
    }

    /// The label shown for the event.
    pub fn label(&self) -> (r: &'static str)
        ensures
            r@ == self.label_spec(),
    {
        match self {
            PrayerEvent::Fajr => "Zora",
            PrayerEvent::Sunrise => "Izlazak Sunca",
            PrayerEvent::Dhuhr => "Podne",
            PrayerEvent::Asr => "Ikindija",
            PrayerEvent::Maghrib => "Akšam",
            PrayerEvent::Isha => "Jacija",
        }
    }

    /// The safety margin of the event, in minutes.
    pub fn margin_minutes(&self) -> (r: i64)
        ensures
            r == self.margin_spec(),
    {
        match self {
            PrayerEvent::Fajr => FAJR_MARGIN_MINUTES,
            PrayerEvent::Sunrise => SUNRISE_MARGIN_MINUTES,
            PrayerEvent::Dhuhr => DHUHR_MARGIN_MINUTES,
            PrayerEvent::Asr => ASR_MARGIN_MINUTES,
            PrayerEvent::Maghrib => MAGHRIB_MARGIN_MINUTES,
            PrayerEvent::Isha => ISHA_MARGIN_MINUTES,
        }
    }
}

/// Whether an event is shown plainly or highlighted as the next one.
#[derive(Clone, Copy, Debug, PartialEq, Eq, Structural)]
pub enum VaktijaColor {
    Base,
    Active,
}

/// A day whose neighbours on both sides are in the supported range.
pub open spec fn inner_day(today: Date) -> bool {
    MIN_DAY < today.days < MAX_DAY
}

/// An offset from local midnight that rollover can place.
pub open spec fn offset_in_range(offset: int) -> bool {
    OFFSET_MIN <= offset < OFFSET_MAX
}

/// The day, relative to the reference day, on which an offset falls:
/// the previous day before midnight, the next one from 24 hours on.
pub open spec fn day_shift(offset: int) -> int {
    if offset < 0 {
        -1
    } else if offset < SECONDS_PER_DAY {
        0
    } else {
        1
    }
}

/// The instant of an event `offset` seconds from the midnight that starts `today`.
pub open spec fn wrap_offset(today: Date, offset: int) -> LocalDateTime {
    let shift = day_shift(offset);
    LocalDateTime {
        date: Date { days: (today.days + shift) as i64 },
        secs: (offset - shift * SECONDS_PER_DAY) as u32,
    }
}

/// One event of a day's timeline, with the instant it was looked at from.
#[derive(Debug)]
pub struct VaktijaTime {
    pub name: String,
    pub date_time: Option<LocalDateTime>,
    pub now: LocalDateTime,
    pub color: VaktijaColor,
}

impl VaktijaTime {
    pub open spec fn wf(&self) -> bool {
        &&& self.now.wf()
        &&& self.date_time matches Some(t) ==> t.wf()
    }

    /// Seconds from `now` to the event, when the event has an instant.
    pub open spec fn remaining_spec(&self) -> Option<int> {
        match self.date_time {
            Some(t) => Some(t.seconds() - self.now.seconds()),
            None => None,
        }
    }

    /// The event `name`, `offset` seconds from the midnight that starts
    /// `today` (undefined when `offset` is `None`), looked at from `now`.
    pub fn new(name: &str, offset: Option<i64>, today: Date, now: LocalDateTime) -> (r:
        VaktijaTime)
        requires
            inner_day(today),
            now.wf(),
            offset matches Some(s) ==> offset_in_range(s as int),
        ensures
            r.wf(),
            r.name@ == name@,
            r.now == now,
            r.color == VaktijaColor::Base,
            r.date_time == (match offset {
                Some(s) => Some(wrap_offset(today, s as int)),
                None => None,
            }),
    {
        let date_time = match offset {
            Some(s) => {
                let t = if s < 0 {
                    LocalDateTime { date: Date { days: today.days - 1 }, secs: (s + SECONDS_PER_DAY) as u32 }
                } else if s < SECONDS_PER_DAY {
                    LocalDateTime { date: today, secs: s as u32 }
                } else {
                    LocalDateTime { date: Date { days: today.days + 1 }, secs: (s - SECONDS_PER_DAY) as u32 }
                };
                Some(t)
            },
            None => None,
        };
        VaktijaTime { name: String::from_str(name), date_time, now, color: VaktijaColor::Base }
    }

    /// The event's clock reading, `HH:MM` or with `secs` `HH:MM:SS`, or
    /// `N/A` when it has no instant.
    pub fn absolute_time(&self, secs: &bool) -> (r: String)
        requires
            self.wf(),
        ensures
            r@ == (match self.date_time {
                Some(t) => clock_text(t.secs as int, *secs),
                None => seq!['N', '/', 'A'],
            }),
    {
        match self.date_time {
            Some(t) => clock(t.secs, *secs),
            None => {
                let mut s = String::new();
                push_char(&mut s, 'N');
                push_char(&mut s, '/');
                push_char(&mut s, 'A');
                assert(s@ =~= seq!['N', '/', 'A']);
                s
            },
        }
    }

    /// Seconds from `now` to the event (negative once it has passed), or
    /// `None` when the event has no instant.
    pub fn time_remaining(&self) -> (r: Option<i64>)
        requires
            self.wf(),
        ensures
            r is Some == self.date_time is Some,
            r matches Some(v) ==> self.remaining_spec() == Some(v as int),
    {
        match self.date_time {
            Some(t) => Some(t.seconds_since(&self.now)),
            None => None,
        }
    }

    /// The event's wall-clock reading as seconds since 1970-01-01 00:00, or
    /// `None` when it has no instant.
    pub fn since_epoch(&self) -> (r: Option<i64>)
        requires
            self.wf(),
        ensures
            r is Some == self.date_time is Some,
            r matches Some(v) ==> v == self.date_time->0.seconds(),
    {
        match self.date_time {
            Some(t) => Some(t.timestamp()),
            None => None,
        }
    }

    /// The style class of the event: highlighted for the next one.
    pub fn get_color(&self) -> (r: String)
        ensures
            r@ == (match self.color {
                VaktijaColor::Base => "stone-800"@,
                VaktijaColor::Active => "stone-400"@,
            }),
    {
        match self.color {
            VaktijaColor::Base => String::from_str("stone-800"),
            VaktijaColor::Active => String::from_str("stone-400"),
        }
    }
}

/// The unit in which a duration is told.
#[derive(Clone, Copy, Debug, PartialEq, Eq, Structural)]
pub enum TimeUnit {
    Hour,
    Minute,
    Second,
}

/// A duration told in its largest whole unit: `amount` units ahead of now
/// (`ahead`) or ago.
#[derive(Clone, Copy, Debug, PartialEq, Eq, Structural)]
pub struct RelativeTime {
    pub ahead: bool,
    pub amount: u64,
    pub unit: TimeUnit,
}

/// The magnitude of `x`.
pub open spec fn magnitude(x: int) -> int {
    if x < 0 {
        -x
    } else {
        x
    }
}

/// `seconds` told in hours from an hour on, in minutes from a minute on,
/// else in seconds; whole units, rounded down.
pub open spec fn relative_spec(seconds: int) -> RelativeTime {
    let m = magnitude(seconds);
    if m >= 3600 {
        RelativeTime { ahead: seconds >= 0, amount: (m / 3600) as u64, unit: TimeUnit::Hour }
    } else if m >= 60 {
        RelativeTime { ahead: seconds >= 0, amount: (m / 60) as u64, unit: TimeUnit::Minute }
    } else {
        RelativeTime { ahead: seconds >= 0, amount: m as u64, unit: TimeUnit::Second }
    }
}

/// A signed duration in seconds (negative for the past), told in its
/// largest whole unit.
pub fn relative_time(seconds: i64) -> (r: RelativeTime)
    ensures
        r == relative_spec(seconds as int),
{
    let m: u64 = if seconds >= 0 {
        seconds as u64
    } else {
        (-(seconds as i128)) as u64
    };
    let ahead = seconds >= 0;
    if m >= 3600 {
        RelativeTime { ahead, amount: m / 3600, unit: TimeUnit::Hour }
    } else if m >= 60 {
        RelativeTime { ahead, amount: m / 60, unit: TimeUnit::Minute }
    } else {
        RelativeTime { ahead, amount: m, unit: TimeUnit::Second }
    }
}

impl VaktijaTime {
    /// The time to the event from `now`, told in its largest whole unit, or
    /// `None` when the event has no instant.
    pub fn relative(&self) -> (r: Option<RelativeTime>)
        requires
            self.wf(),
        ensures
            r is Some == self.date_time is Some,
            r matches Some(v) ==> v == relative_spec(self.remaining_spec()->0),
    {
        match self.time_remaining() {
            Some(s) => Some(relative_time(s)),
            None => None,
        }
    }
}

/// The offset of an event once its safety margin, if asked for, is applied.
pub open spec fn adjusted_offset(raw: Option<i64>, event: PrayerEvent, safety: bool) -> Option<int> {
    match raw {
        Some(s) => Some(
            if safety {
                s + 60 * event.margin_spec()
            } else {
                s as int
            },
        ),
        None => None,
    }
}

/// Whether every defined offset of the day, margins applied, can be placed.
pub open spec fn offsets_placeable(raw: Seq<Option<i64>>, safety: bool) -> bool {
    forall|i: int|
        0 <= i < raw.len() ==> match #[trigger] adjusted_offset(raw[i], event_at(i), safety) {
            Some(s) => offset_in_range(s),
            None => true,
        }
}

/// The event at position `i` of the timeline of `today`.
pub open spec fn timeline_entry(
    t: VaktijaTime,
    i: int,
    raw: Option<i64>,
    today: Date,
    now: LocalDateTime,
    safety: bool,
) -> bool {
    &&& t.wf()
    &&& t.name@ == event_at(i).label_spec()
    &&& t.now == now
    &&& t.color == VaktijaColor::Base
    &&& t.date_time == match adjusted_offset(raw, event_at(i), safety) {
        Some(s) => Some(wrap_offset(today, s)),
        None => None,
    }
}

/// The timeline of `today`: the six events in canonical order, from the
/// solver's offsets in seconds from local midnight (`None` where an event is
/// undefined), with the safety margins applied when `safety` is set.
///
/// Fails with `DateOutOfRange` when a neighbour of `today` is outside the
/// supported range, and with `OffsetOutOfRange` when an offset does not fall
/// between the previous and the next day.
pub fn prayer_timeline(raw: [Option<i64>; 6], today: Date, now: LocalDateTime, safety: bool) -> (r:
    Result<Vec<VaktijaTime>, CoreError>)
    requires
        now.wf(),
    ensures
        !inner_day(today) ==> r == Err::<Vec<VaktijaTime>, CoreError>(CoreError::DateOutOfRange),
        inner_day(today) && !offsets_placeable(raw@, safety) ==> r == Err::<
            Vec<VaktijaTime>,
            CoreError,
        >(CoreError::OffsetOutOfRange),
        inner_day(today) && offsets_placeable(raw@, safety) ==> r is Ok,
        r matches Ok(v) ==> {
            &&& v@.len() == EVENT_COUNT
            &&& forall|i: int|
                0 <= i < EVENT_COUNT ==> timeline_entry(#[trigger] v@[i], i, raw@[i], today, now, safety)
        },
{
    if today.days <= MIN_DAY || today.days >= MAX_DAY {
        return Err(CoreError::DateOutOfRange);
    }
    let mut v: Vec<VaktijaTime> = Vec::new();
    let mut i: usize = 0;
    while i < EVENT_COUNT
        invariant
            i <= EVENT_COUNT,
            inner_day(today),
            now.wf(),
            v@.len() == i,
            forall|j: int| 0 <= j < i ==> timeline_entry(#[trigger] v@[j], j, raw@[j], today, now, safety),
            forall|j: int|
                0 <= j < i ==> match #[trigger] adjusted_offset(raw@[j], event_at(j), safety) {
                    Some(s) => offset_in_range(s),
                    None => true,
                },
        decreases EVENT_COUNT - i,
    {
        let event = PrayerEvent::at(i);
        let offset: Option<i64> = match raw[i] {
            Some(s) => {
                // margins are under an hour, so an offset this far out stays out
                // of range with its margin, and adding the margin cannot overflow
                if s < OFFSET_MIN - 3600 || s >= OFFSET_MAX + 3600 {
                    assert(!offsets_placeable(raw@, safety)) by {
                        assert(adjusted_offset(raw@[i as int], event_at(i as int), safety) is Some);
                    }
                    return Err(CoreError::OffsetOutOfRange);
                }
                let adjusted = if safety {
                    s + 60 * event.margin_minutes()
                } else {
                    s
                };
                if adjusted < OFFSET_MIN || adjusted >= OFFSET_MAX {
                    assert(!offsets_placeable(raw@, safety)) by {
                        assert(adjusted_offset(raw@[i as int], event_at(i as int), safety) is Some);
                    }
                    return Err(CoreError::OffsetOutOfRange);
                }
                Some(adjusted)
            },
            None => None,
        };
        let t = VaktijaTime::new(event.label(), offset, today, now);
        v.push(t);
        i = i + 1;
    }
    Ok(v)
}

/// Decoding the instant that rollover gives an offset, by whole days and the
/// seconds left over, finds the offset's own day and clock reading: the
/// previous day for a negative offset, the same day up to 24 hours, the next
/// day from there; and the instant is the offset itself past the reference
/// midnight.
pub proof fn lemma_rollover_round_trip(today: Date, offset: int)
    requires
        inner_day(today),
        offset_in_range(offset),
    ensures
        wrap_offset(today, offset).wf(),
        wrap_offset(today, offset).seconds() == local_seconds(today.days as int, offset),
        wrap_offset(today, offset).seconds() / (SECONDS_PER_DAY as int) - today.days == day_shift(
            offset,
        ),
        wrap_offset(today, offset).seconds() % (SECONDS_PER_DAY as int) == offset - day_shift(offset)
            * SECONDS_PER_DAY,
{
    let t = wrap_offset(today, offset);
    let shift = day_shift(offset);
    let secs = offset - shift * SECONDS_PER_DAY;
    assert(t.seconds() == (today.days + shift) * SECONDS_PER_DAY + secs);
    vstd::arithmetic::div_mod::lemma_fundamental_div_mod_converse(
        t.seconds(),
        SECONDS_PER_DAY as int,
        today.days + shift,
        secs,
    );
}

} // verus!
