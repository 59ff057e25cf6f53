//! Daily prayer times: the calendar and clock model, the timeline of the six
//! daily events with day-boundary rollover, the choice of the next event, the
//! nearest-place lookup and the approximate city-name search.
//!
//! Floating-point astronomy (declination, equation of time, hour angles) is
//! not part of this crate. The caller computes it from the whole-day counts
//! that `ephemeris_days` gives, and hands each event back as a whole number
//! of seconds from local midnight, or as undefined.

mod city;
mod ephemeris;
mod error;
mod location;
mod request;
mod search;
mod selector;
mod text;
mod time;
mod timeline;

pub use city::{City, MAX_LAT, MAX_LON};
pub use ephemeris::{ephemeris_days, EphemerisDays, J2000_JDN, UNIX_EPOCH_JDN};
pub use error::CoreError;
pub use location::{generate_coord_rtree, LocationIndex, UNKNOWN_PLACE};
pub use request::{resolve_location, valid_coordinate_exec};
pub use search::{score, top_k_of_scores, CityCatalog, PREFIX_BONUS, TOP_K};
pub use selector::{highlight, select_next, Rollover, RolloverStep, MAX_TIMELINES};
pub use text::clock;
pub use time::{Date, LocalDateTime, MAX_DAY, MIN_DAY, SECONDS_PER_DAY};
pub use timeline::{
    prayer_timeline, relative_time, PrayerEvent, RelativeTime, TimeUnit, VaktijaColor, VaktijaTime,
    ASR_MARGIN_MINUTES,
    DHUHR_MARGIN_MINUTES, EVENT_COUNT, FAJR_MARGIN_MINUTES, ISHA_MARGIN_MINUTES,
    MAGHRIB_MARGIN_MINUTES, OFFSET_MAX, OFFSET_MIN, SUNRISE_MARGIN_MINUTES,
};
