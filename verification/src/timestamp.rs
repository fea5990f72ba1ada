//! UTC instants and the calendar.
//!
//! A [`Timestamp`] is a point in time given as whole seconds since
//! 1970-01-01T00:00:00Z plus nanoseconds. It is limited to the years 0000 to
//! 9999, the range an archive name can carry. Calendar fields are taken from
//! `chrono`; the time of day is plain arithmetic.

use vstd::prelude::*;

verus! {

/// Day number of 0000-01-01, counted from 1970-01-01.
pub const MIN_DAY: i32 = -719_528;

/// Day number of 9999-12-31, counted from 1970-01-01.
pub const MAX_DAY: i32 = 2_932_896;

/// Seconds in a day.
pub const SECS_PER_DAY: i64 = 86_400;

/// First second of 0000-01-01, counted from 1970-01-01T00:00:00Z.
pub const MIN_SECS: i64 = -62_167_219_200;

/// Last second of 9999-12-31, counted from 1970-01-01T00:00:00Z.
pub const MAX_SECS: i64 = 253_402_300_799;

/// Nanoseconds in a second.
pub const NANOS_PER_SEC: u32 = 1_000_000_000;

/// The calendar year that `chrono` gives for the day numbered `day`.
pub uninterp spec fn calendar_year(day: int) -> int;

/// The calendar month, 1 to 12, that `chrono` gives for the day numbered `day`.
pub uninterp spec fn calendar_month(day: int) -> int;

/// The day of the month, 1 to 31, that `chrono` gives for the day numbered `day`.
pub uninterp spec fn calendar_day(day: int) -> int;

/// The day number that `chrono` gives for a calendar date, `None` where the
/// date does not exist.
pub uninterp spec fn calendar_day_number(year: int, month: int, day: int) -> Option<int>;

/// Whether `day` is a day of the years 0000 to 9999.
pub open spec fn day_in_range(day: int) -> bool {
    MIN_DAY <= day <= MAX_DAY
}

/// `NaiveDate::from_epoch_days(day)` followed by `Datelike::year`. Not proved:
/// that the result is the year named `calendar_year`, and that the days
/// admitted here fall in the years 0000 to 9999.
#[verifier::external_body]
pub(crate) fn year_of_day(day: i32) -> (year: i32)
    requires
        day_in_range(day as int),
    ensures
        year == calendar_year(day as int),
        0 <= year <= 9999,
{
    chrono::Datelike::year(&chrono::NaiveDate::from_epoch_days(day).unwrap())
}

/// `NaiveDate::from_epoch_days(day)` followed by `Datelike::month`. Not
/// proved: that the result is the month named `calendar_month`, and that a
/// month is numbered 1 to 12.
#[verifier::external_body]
pub(crate) fn month_of_day(day: i32) -> (month: u32)
    requires
        day_in_range(day as int),
    ensures
        month == calendar_month(day as int),
        1 <= month <= 12,
{
    chrono::Datelike::month(&chrono::NaiveDate::from_epoch_days(day).unwrap())
}

/// `NaiveDate::from_epoch_days(day)` followed by `Datelike::day`. Not proved:
/// that the result is the day named `calendar_day`, that it lies in 1 to 31,
/// and that the date read from a day number leads back to that day number.
#[verifier::external_body]
pub(crate) fn day_of_month_of_day(day: i32) -> (dom: u32)
    requires
        day_in_range(day as int),
    ensures
        dom == calendar_day(day as int),
        1 <= dom <= 31,
        calendar_day_number(calendar_year(day as int), calendar_month(day as int), dom as int)
            == Some(day as int),
{
    chrono::Datelike::day(&chrono::NaiveDate::from_epoch_days(day).unwrap())
}

/// `NaiveDate::from_ymd_opt` followed by `NaiveDate::to_epoch_days`. Not
/// proved: that the result is the one named `calendar_day_number`, and that
/// the day number of a date that exists reads back as that date.
#[verifier::external_body]
pub(crate) fn day_number_of_date(year: i32, month: u32, day: u32) -> (number: Option<i32>)
    ensures
        number.is_some() == calendar_day_number(year as int, month as int, day as int).is_some(),
        number.is_some() ==> calendar_day_number(year as int, month as int, day as int)
            == Some(number.unwrap() as int),
        number.is_some() ==> calendar_year(number.unwrap() as int) == year
            && calendar_month(number.unwrap() as int) == month
            && calendar_day(number.unwrap() as int) == day,
{
    match chrono::NaiveDate::from_ymd_opt(year, month, day) {
        Some(date) => Some(date.to_epoch_days()),
        None => None,
    }
}

/// A UTC instant within the years 0000 to 9999.
#[derive(Clone, Copy, Debug, PartialEq, Eq, Hash, Structural)]
pub struct Timestamp {
    pub(crate) secs: i64,
    pub(crate) nanos: u32,
}

impl Timestamp {
    /// Whole seconds since 1970-01-01T00:00:00Z.
    pub open(crate) spec fn epoch_secs(self) -> int {
        self.secs as int
    }

    /// Nanoseconds past the whole second.
    pub open(crate) spec fn subsec(self) -> int {
        self.nanos as int
    }

    /// The instant in nanoseconds since 1970-01-01T00:00:00Z.
    pub open spec fn epoch_nanos(self) -> int {
        self.epoch_secs() * 1_000_000_000 + self.subsec()
    }

    /// The instant lies in the years 0000 to 9999 and its nanoseconds are
    /// below one second.
    pub open spec fn wf(self) -> bool {
        &&& MIN_SECS <= self.epoch_secs() <= MAX_SECS
        &&& 0 <= self.subsec() < NANOS_PER_SEC
    }

    #[verifier::type_invariant]
    spec fn inv(self) -> bool {
        self.wf()
    }

    /// The day number, counted from 1970-01-01.
    pub open spec fn spec_day_number(self) -> int {
        self.epoch_secs() / 86_400
    }

    /// Seconds since midnight.
    pub open spec fn spec_second_of_day(self) -> int {
        self.epoch_secs() % 86_400
    }

    /// The calendar year.
    pub open spec fn spec_year(self) -> int {
        calendar_year(self.spec_day_number())
    }

    /// The calendar month, 1 to 12.
    pub open spec fn spec_month(self) -> int {
        calendar_month(self.spec_day_number())
    }

    /// The day of the month, 1 to 31.
    pub open spec fn spec_day(self) -> int {
        calendar_day(self.spec_day_number())
    }

    /// The instant `secs` seconds and `nanos` nanoseconds after
    /// 1970-01-01T00:00:00Z, or `None` outside the years 0000 to 9999 or with
    /// a second's worth of nanoseconds or more.
    pub fn new(secs: i64, nanos: u32) -> (res: Option<Timestamp>)
        ensures
            res.is_some() <==> (MIN_SECS <= secs <= MAX_SECS && nanos < NANOS_PER_SEC),
            res.is_some() ==> res.unwrap().epoch_secs() == secs && res.unwrap().subsec() == nanos
                && res.unwrap().wf(),
    {
        if MIN_SECS <= secs && secs <= MAX_SECS && nanos < NANOS_PER_SEC {
            Some(Timestamp { secs, nanos })
        } else {
            None
        }
    }

    /// The instant, in seconds since 1970-01-01T00:00:00Z, of a UTC time of
    /// day on a calendar date. `None` where a field of the time is out of
    /// its range, the date does not exist, or the instant lies outside the
    /// years 0000 to 9999.
    pub open spec fn civil_secs(
        year: int,
        month: int,
        day: int,
        hour: int,
        min: int,
        sec: int,
    ) -> Option<int> {
        let date = calendar_day_number(year, month, day);
        if hour >= 24 || min >= 60 || sec >= 60 || date.is_none() {
            None
        } else {
            let secs = date.unwrap() * 86_400 + hour * 3600 + min * 60 + sec;
            if MIN_SECS <= secs <= MAX_SECS {
                Some(secs)
            } else {
                None
            }
        }
    }

    /// The instant of a UTC time of day on a calendar date.
    pub fn with_ymd_and_hms(year: i32, month: u32, day: u32, hour: u32, min: u32, sec: u32) -> (res:
        Option<Timestamp>)
        ensures
            res.is_some() == Self::civil_secs(
                year as int,
                month as int,
                day as int,
                hour as int,
                min as int,
                sec as int,
            ).is_some(),
            res matches Some(t) ==> t.epoch_secs() == Self::civil_secs(
                year as int,
                month as int,
                day as int,
                hour as int,
                min as int,
                sec as int,
            ).unwrap() && t.subsec() == 0 && t.wf(),
    {
        if hour >= 24 || min >= 60 || sec >= 60 {
            return None;
        }
        match day_number_of_date(year, month, day) {
            None => None,
            Some(date) => {
                let secs: i64 = date as i64 * SECS_PER_DAY + (hour * 3600 + min * 60 + sec) as i64;
                Timestamp::new(secs, 0)
            },
        }
    }

    /// 1970-01-01T00:00:00Z.
    pub fn unix_epoch() -> (res: Timestamp)
        ensures
            res.epoch_secs() == 0,
            res.subsec() == 0,
            res.wf(),
    {
        Timestamp { secs: 0, nanos: 0 }
    }

    /// Whole seconds since 1970-01-01T00:00:00Z.
    pub fn timestamp(&self) -> (secs: i64)
        ensures
            secs == self.epoch_secs(),
            self.wf(),
    {
        proof {
            use_type_invariant(self);
        }
        self.secs
    }

    /// Nanoseconds past the whole second.
    pub fn subsec_nanos(&self) -> (nanos: u32)
        ensures
            nanos == self.subsec(),
            self.wf(),
    {
        proof {
            use_type_invariant(self);
        }
        self.nanos
    }

    /// The day number, counted from 1970-01-01.
    pub fn day_number(&self) -> (day: i32)
        ensures
            day == self.spec_day_number(),
            day_in_range(day as int),
    {
        proof {
            use_type_invariant(self);
        }
        let shifted: i64 = self.secs - MIN_SECS;
        let days: i64 = shifted / SECS_PER_DAY;
        (days + MIN_DAY as i64) as i32
    }

    /// Seconds since midnight, 0 to 86399.
    pub fn second_of_day(&self) -> (sod: u32)
        ensures
            sod == self.spec_second_of_day(),
            sod < 86_400,
    {
        proof {
            use_type_invariant(self);
        }
        let shifted: i64 = self.secs - MIN_SECS;
        (shifted % SECS_PER_DAY) as u32
    }

    /// The calendar year, 0 to 9999.
    pub fn year(&self) -> (year: i32)
        ensures
            year == self.spec_year(),
            0 <= year <= 9999,
    {
        year_of_day(self.day_number())
    }

    /// The calendar month, 1 to 12.
    pub fn month(&self) -> (month: u32)
        ensures
            month == self.spec_month(),
            1 <= month <= 12,
    {
        month_of_day(self.day_number())
    }

    /// The day of the month, 1 to 31. The date it belongs to is the date of
    /// this instant's day number.
    pub fn day(&self) -> (day: u32)
        ensures
            day == self.spec_day(),
            1 <= day <= 31,
            calendar_day_number(self.spec_year(), self.spec_month(), self.spec_day()) == Some(
                self.spec_day_number(),
            ),
    {
        day_of_month_of_day(self.day_number())
    }

    /// The hour of the day, 0 to 23.
    pub fn hour(&self) -> (hour: u32)
        ensures
            hour == self.spec_second_of_day() / 3600,
            hour < 24,
    {
        self.second_of_day() / 3600
    }

    /// The minute of the hour, 0 to 59.
    pub fn minute(&self) -> (minute: u32)
        ensures
            minute == (self.spec_second_of_day() / 60) % 60,
            minute < 60,
    {
        (self.second_of_day() / 60) % 60
    }

    /// The second of the minute, 0 to 59.
    pub fn second(&self) -> (second: u32)
        ensures
            second == self.spec_second_of_day() % 60,
            second < 60,
    {
        self.second_of_day() % 60
    }
}

} // verus!
