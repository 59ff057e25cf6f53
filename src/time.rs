//! Calendar days and local wall-clock instants, as whole numbers.

use vstd::prelude::*;

verus! {

/// Seconds in one civil day.
pub const SECONDS_PER_DAY: i64 = 86400;

/// Earliest day the library handles, counted from 1970-01-01.
pub const MIN_DAY: i64 = -90_000_000;

/// Latest day the library handles, counted from 1970-01-01.
pub const MAX_DAY: i64 = 90_000_000;

/// A day of the proleptic Gregorian calendar, as the number of days since
/// 1970-01-01 (negative before it).
#[derive(Clone, Copy, Debug, PartialEq, Eq, Structural)]
pub struct Date {
    pub days: i64,
}

impl Date {
    pub open spec fn wf(self) -> bool {
        MIN_DAY <= self.days <= MAX_DAY
    }

    /// Whether the day lies in the supported range.
    pub fn is_valid(&self) -> (r: bool)
        ensures
            r == self.wf(),
    {
        MIN_DAY <= self.days && self.days <= MAX_DAY
    }

    /// The day `days` after 1970-01-01, if it lies in the supported range.
    pub fn from_days(days: i64) -> (r: Option<Date>)
        ensures
            r == (if MIN_DAY <= days <= MAX_DAY {
                Some(Date { days })
            } else {
                None
            }),
    {
        if MIN_DAY <= days && days <= MAX_DAY {
            Some(Date { days })
        } else {
            None
        }
    }

    /// The following day, if it is still in the supported range.
    pub fn succ(self) -> (r: Option<Date>)
        requires
            self.wf(),
        ensures
            r == (if self.days < MAX_DAY {
                Some(Date { days: (self.days + 1) as i64 })
            } else {
                None
            }),
    {
        if self.days < MAX_DAY {
            Some(Date { days: self.days + 1 })
        } else {
            None
        }
    }

    /// The preceding day, if it is still in the supported range.
    pub fn pred(self) -> (r: Option<Date>)
        requires
            self.wf(),
        ensures
            r == (if self.days > MIN_DAY {
                Some(Date { days: (self.days - 1) as i64 })
            } else {
                None
            }),
    {
        if self.days > MIN_DAY {
            Some(Date { days: self.days - 1 })
        } else {
            None
        }
    }
}

/// A local wall-clock instant in a fixed UTC offset: a day and the seconds
/// since its midnight.
#[derive(Clone, Copy, Debug, PartialEq, Eq, Structural)]
pub struct LocalDateTime {
    pub date: Date,
    pub secs: u32,
}

/// The local seconds since 1970-01-01 00:00 of day `days` at `secs` past midnight.
pub open spec fn local_seconds(days: int, secs: int) -> int {
    days * SECONDS_PER_DAY + secs
}

impl LocalDateTime {
    pub open spec fn wf(self) -> bool {
        self.date.wf() && self.secs < SECONDS_PER_DAY
    }

    /// The instant as local seconds since 1970-01-01 00:00.
    pub open spec fn seconds(self) -> int {
        local_seconds(self.date.days as int, self.secs as int)
    }

    /// Whether the day lies in the supported range and the seconds within it.
    pub fn is_valid(&self) -> (r: bool)
        ensures
            r == self.wf(),
    {
        self.date.is_valid() && (self.secs as i64) < SECONDS_PER_DAY
    }

    /// The instant `secs` seconds after the midnight that starts `date`.
    pub fn new(date: Date, secs: u32) -> (r: Option<LocalDateTime>)
        requires
            date.wf(),
        ensures
            r == (if secs < SECONDS_PER_DAY {
                Some(LocalDateTime { date, secs })
            } else {
                None
            }),
    {
        if (secs as i64) < SECONDS_PER_DAY {
            Some(LocalDateTime { date, secs })
        } else {
            None
        }
    }

    /// The instant `ts` local seconds after 1970-01-01 00:00, if its day lies
    /// in the supported range.
    pub fn from_timestamp(ts: i64) -> (r: Option<LocalDateTime>)
        ensures
            r == (if MIN_DAY <= ts / SECONDS_PER_DAY <= MAX_DAY {
                Some(
                    LocalDateTime {
                        date: Date { days: (ts / SECONDS_PER_DAY) as i64 },
                        secs: (ts % SECONDS_PER_DAY) as u32,
                    },
                )
            } else {
                None
            }),
            r matches Some(t) ==> t.wf() && t.seconds() == ts,
    {
        let mut days: i64 = ts / SECONDS_PER_DAY;
        let mut secs: i64 = ts % SECONDS_PER_DAY;
        if secs < 0 {
            secs = secs + SECONDS_PER_DAY;
            days = days - 1;
        }
        assert(days == ts / SECONDS_PER_DAY && secs == ts % SECONDS_PER_DAY) by {
            lemma_floor_split(ts as int, days as int, secs as int);
        }
        if MIN_DAY <= days && days <= MAX_DAY {
            Some(LocalDateTime { date: Date { days }, secs: secs as u32 })
        } else {
            None
        }
    }

    /// Local seconds since 1970-01-01 00:00.
    pub fn timestamp(&self) -> (r: i64)
        requires
            self.wf(),
        ensures
            r == self.seconds(),
    {
        self.date.days * SECONDS_PER_DAY + self.secs as i64
    }

    /// The seconds from `earlier` to `self`: negative when `self` comes first.
    pub fn seconds_since(&self, earlier: &LocalDateTime) -> (r: i64)
        requires
            self.wf(),
            earlier.wf(),
        ensures
            r == self.seconds() - earlier.seconds(),
    {
        self.timestamp() - earlier.timestamp()
    }
}

/// Euclidean division by the day length from Rust's truncating division,
/// once its negative remainder has been moved up by one day.
proof fn lemma_floor_split(ts: int, days: int, secs: int)
    requires
        days * SECONDS_PER_DAY + secs == ts,
        0 <= secs < SECONDS_PER_DAY,
    ensures
        days == ts / (SECONDS_PER_DAY as int),
        secs == ts % (SECONDS_PER_DAY as int),
{
    vstd::arithmetic::div_mod::lemma_fundamental_div_mod_converse(
        ts,
        SECONDS_PER_DAY as int,
        days,
        secs,
    );
}

} // verus!
