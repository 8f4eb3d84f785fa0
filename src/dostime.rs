//! Calendar timestamps and their packed MS-DOS form.
use vstd::prelude::*;
use chrono::{Datelike, Timelike};

verus! {

/// A UTC calendar date and time of day, as the fields of a clock reading.
#[derive(Clone, Copy, Debug, PartialEq, Eq, Structural)]
pub struct Timestamp {
    pub year: i32,
    pub month: u32,
    pub day: u32,
    pub hour: u32,
    pub minute: u32,
    pub second: u32,
}

/// The calendar fields of the instant `secs` seconds after the Unix epoch, in
/// UTC, as (year, month, day, hour, minute, second).
pub uninterp spec fn utc_fields(secs: i64) -> (i32, u32, u32, u32, u32, u32);

/// The earliest instant that chrono can represent: January 1 of year
/// -262143, 00:00:00 UTC, in seconds after the Unix epoch.
pub const UTC_MIN_SECS: i64 = -8_334_601_228_800;
/// The latest instant that chrono can represent: December 31 of year 262142,
/// 23:59:59 UTC, in seconds after the Unix epoch.
pub const UTC_MAX_SECS: i64 = 8_210_266_876_799;

/// An instant that has a calendar reading.
pub open spec fn utc_in_range(secs: i64) -> bool {
    UTC_MIN_SECS <= secs <= UTC_MAX_SECS
}

impl Timestamp {
    /// Every field lies in the range of a clock reading.
    pub open spec fn wf(self) -> bool {
        1 <= self.month <= 12 && 1 <= self.day <= 31 && self.hour <= 23 && self.minute <= 59
            && self.second <= 59
    }

    /// A clock reading whose year the seven-bit MS-DOS year field can hold.
    pub open spec fn dos_representable(self) -> bool {
        self.wf() && 1980 <= self.year <= 2107
    }

    pub open spec fn fields(self) -> (i32, u32, u32, u32, u32, u32) {
        (self.year, self.month, self.day, self.hour, self.minute, self.second)
    }

    /// The timestamp with the given fields.
    pub open spec fn of_fields(f: (i32, u32, u32, u32, u32, u32)) -> Timestamp {
        Timestamp { year: f.0, month: f.1, day: f.2, hour: f.3, minute: f.4, second: f.5 }
    }

    /// Builds a timestamp from its fields, or `None` when one of them is out of range.
    pub fn new(year: i32, month: u32, day: u32, hour: u32, minute: u32, second: u32) -> (r:
        Option<Timestamp>)
        ensures
            r is Some <==> (1 <= month <= 12 && 1 <= day <= 31 && hour <= 23 && minute <= 59
                && second <= 59),
            r matches Some(t) ==> t.wf() && t.fields() == (year, month, day, hour, minute, second),
    {
        if 1 <= month && month <= 12 && 1 <= day && day <= 31 && hour <= 23 && minute <= 59
            && second <= 59 {
            Some(Timestamp { year, month, day, hour, minute, second })
        } else {
            None
        }
    }

    /// The timestamp of the instant `secs` seconds after the Unix epoch, or
    /// `None` where that instant lies outside the calendar's range.
    pub fn from_unix(secs: i64) -> (r: Option<Timestamp>)
        ensures
            r is Some <==> utc_in_range(secs),
            r matches Some(t) ==> t.wf() && t == Timestamp::of_fields(utc_fields(secs)),
    {
        match utc_from_unix(secs) {
            Some((year, month, day, hour, minute, second)) => Some(
                Timestamp { year, month, day, hour, minute, second },
            ),
            None => None,
        }
    }

    /// The current UTC time, or `None` where the system clock reads before
    /// the Unix epoch or beyond the calendar's range.
    pub fn now() -> (r: Option<Timestamp>)
        ensures
            r matches Some(t) ==> t.wf() && exists|secs: i64|
                utc_in_range(secs) && t == Timestamp::of_fields(utc_fields(secs)),
    {
        match unix_clock_secs() {
            Some(secs) => Timestamp::from_unix(secs),
            None => None,
        }
    }

    /// The packed MS-DOS time of day.
    pub open spec fn dos_time_spec(self) -> u16 {
        (self.second / 2 + self.minute * 32 + self.hour * 2048) as u16
    }

    /// The packed MS-DOS date.
    pub open spec fn dos_date_spec(self) -> u16 {
        (self.day + self.month * 32 + (self.year - 1980) * 512) as u16
    }

    /// Seconds in bits 0-4 (in units of two), minutes in bits 5-10, hours in
    /// bits 11-15.
    pub fn dos_time(&self) -> (r: u16)
        requires
            self.wf(),
        ensures
            r == self.dos_time_spec(),
            r as int == self.second / 2 + self.minute * 32 + self.hour * 2048,
    {
        (self.second / 2 + self.minute * 32 + self.hour * 2048) as u16
    }

    /// Day in bits 0-4, month in bits 5-8, years since 1980 in bits 9-15.
    pub fn dos_date(&self) -> (r: u16)
        requires
            self.dos_representable(),
        ensures
            r == self.dos_date_spec(),
            r as int == self.day + self.month * 32 + (self.year - 1980) * 512,
    {
        let y: u32 = (self.year - 1980) as u32;
        (self.day + self.month * 32 + y * 512) as u16
    }
}

/// Relies on `chrono::DateTime::from_timestamp` with the `Datelike` and
/// `Timelike` accessors: `None` exactly outside chrono's range of dates,
/// January 1 of year -262143 to December 31 of year 262142; month 1-12, day
/// 1-31, hour 0-23, minute and second 0-59.
#[verifier::external_body]
fn utc_from_unix(secs: i64) -> (r: Option<(i32, u32, u32, u32, u32, u32)>)
    ensures
        r is Some <==> utc_in_range(secs),
        r matches Some(f) ==> f == utc_fields(secs) && 1 <= f.1 <= 12 && 1 <= f.2 <= 31 && f.3
            <= 23 && f.4 <= 59 && f.5 <= 59,
{
    let d = chrono::DateTime::from_timestamp(secs, 0)?;
    Some((d.year(), d.month(), d.day(), d.hour(), d.minute(), d.second()))
}

/// Relies on `std::time::SystemTime::elapsed` from the Unix epoch: the whole
/// seconds since then, or `None` where the clock reads before the epoch or
/// the count does not fit an `i64`.
#[verifier::external_body]
fn unix_clock_secs() -> (r: Option<i64>)
    ensures
        r matches Some(s) ==> s >= 0,
{
    let d = std::time::UNIX_EPOCH.elapsed().ok()?;
    i64::try_from(d.as_secs()).ok()
}

} // verus!
