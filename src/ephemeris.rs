//! The whole-day counts that the solar ephemeris starts from: days since the
//! epoch J2000.0 and the day of the year.

use vstd::prelude::*;
use chrono::Datelike;
use crate::time::Date;

verus! {

/// The Julian day number of 1970-01-01.
pub const UNIX_EPOCH_JDN: i64 = 2440588;

/// The Julian day number of 2000-01-01, the day of epoch J2000.0.
pub const J2000_JDN: i64 = 2451545;

/// Days from 0001-01-01 (day 1) to 1970-01-01 in chrono's count.
pub const CE_DAY_OF_UNIX_EPOCH: i64 = 719163;

/// The Julian day number of 0000-12-31, day 0 of the Rata Die count.
pub const JDN_OF_CE_DAY_ZERO: i64 = 1721425;

/// First day, counted from 0001-01-01 as day 1, that the calendar wrappers are used on.
pub const MIN_CE_DAY: i32 = -89_280_837;

/// Last day, counted from 0001-01-01 as day 1, that the calendar wrappers are used on.
pub const MAX_CE_DAY: i32 = 90_719_163;

/// What `chrono::Datelike::ordinal0` gives for the day `ce_day` (counted
/// from 0001-01-01 as day 1): the days since January 1 of its year.
pub uninterp spec fn ordinal0_of(ce_day: int) -> int;

/// Relies on chrono's `NaiveDate::from_num_days_from_ce_opt`, which accepts
/// every day of years -262143 to 262142, counting 0001-01-01 as day 1 (the
/// Rata Die count), and on julian's `From<chrono::NaiveDate>` and
/// `Date::julian_day_number`: a day's Julian day number is its Rata Die
/// number plus `julian::RATA_DIE_ZERO_JDN` (1721425).
#[verifier::external_body]
fn julian_day_number(ce_day: i32) -> (r: Option<i64>)
    ensures
        MIN_CE_DAY <= ce_day <= MAX_CE_DAY ==> r == Some((ce_day + JDN_OF_CE_DAY_ZERO) as i64),
{
    chrono::NaiveDate::from_num_days_from_ce_opt(ce_day).map(
        |d| julian::Date::from(d).julian_day_number() as i64,
    )
}

/// Relies on chrono's `NaiveDate::from_num_days_from_ce_opt`, which accepts
/// every day of years -262143 to 262142, and on `Datelike::ordinal0`, the
/// day of the year counted from 0, which lies in 0 to 365.
#[verifier::external_body]
fn day_of_year(ce_day: i32) -> (r: Option<u32>)
    ensures
        MIN_CE_DAY <= ce_day <= MAX_CE_DAY ==> r is Some,
        r matches Some(d) ==> d == ordinal0_of(ce_day as int) && d < 366,
{
    chrono::NaiveDate::from_num_days_from_ce_opt(ce_day).map(|d| d.ordinal0())
}

/// The whole-day counts of one date.
#[derive(Clone, Copy, Debug, PartialEq, Eq, Structural)]
pub struct EphemerisDays {
    /// Days from 2000-01-01 (Julian day number less 2451545).
    pub days_since_j2000: i64,
    /// Days since January 1 of the date's year.
    pub day_of_year: u32,
}

/// The day counts of `date` that the ephemeris polynomials start from.
pub fn ephemeris_days(date: Date) -> (r: EphemerisDays)
    requires
        date.wf(),
    ensures
        r.days_since_j2000 == date.days + UNIX_EPOCH_JDN - J2000_JDN,
        r.day_of_year == ordinal0_of(date.days + CE_DAY_OF_UNIX_EPOCH),
        r.day_of_year < 366,
{
    let ce_day = (date.days + CE_DAY_OF_UNIX_EPOCH) as i32;
    let jdn = julian_day_number(ce_day).unwrap();
    let doy = day_of_year(ce_day).unwrap();
    EphemerisDays { days_since_j2000: jdn - J2000_JDN, day_of_year: doy }
}

} // verus!
