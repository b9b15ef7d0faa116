//! Dates and times as the format counts them: from midnight at the start of
//! 2000-01-01, in whole days or in microseconds.

use crate::bytes::{i64_bits, twos_complement};
use vstd::prelude::*;

verus! {

/// Microseconds in a day.
pub const MICROS_PER_DAY: i64 = 86_400_000_000;

/// Whether `year` has a 29th of February in the proleptic Gregorian
/// calendar.
pub open spec fn is_leap_year(year: int) -> bool {
    year % 4 == 0 && (year % 100 != 0 || year % 400 == 0)
}

/// Number of days of `month` in `year`; 0 where there is no such month.
pub open spec fn days_in_month(year: int, month: int) -> int {
    if month == 2 {
        if is_leap_year(year) {
            29
        } else {
            28
        }
    } else if month == 4 || month == 6 || month == 9 || month == 11 {
        30
    } else if 1 <= month <= 12 {
        31
    } else {
        0
    }
}

/// Whether year, month and day name a day of the proleptic Gregorian
/// calendar within the years that a calendar date can carry.
pub open spec fn is_civil_date(year: int, month: int, day: int) -> bool {
    &&& -262143 <= year <= 262142
    &&& 1 <= month <= 12
    &&& 1 <= day <= days_in_month(year, month)
}

/// Whether hour, minute, second and microsecond name a time of day.
pub open spec fn is_time_of_day(hour: int, minute: int, second: int, micro: int) -> bool {
    &&& 0 <= hour < 24
    &&& 0 <= minute < 60
    &&& 0 <= second < 60
    &&& 0 <= micro < 1_000_000
}

/// Number of days from the day `from_year`-`from_month`-`from_day` to the
/// day `year`-`month`-`day`, negative where the latter is the earlier one.
pub uninterp spec fn civil_days_between(
    year: int,
    month: int,
    day: int,
    from_year: int,
    from_month: int,
    from_day: int,
) -> int;

/// Not proved: the body calls chrono. `NaiveDate::from_ymd_opt` makes the
/// two dates, `NaiveDate::signed_duration_since` takes the first minus the
/// second, and `TimeDelta::num_days` reads the difference in whole days.
/// The precondition keeps to the days for which `from_ymd_opt` returns a
/// date: those that exist, in the years -262143 to 262142. Of the result
/// the contract claims only that the six numbers decide it, and calls it
/// `civil_days_between`.
#[verifier::external_body]
fn chrono_days_between(
    year: i32,
    month: u32,
    day: u32,
    from_year: i32,
    from_month: u32,
    from_day: u32,
) -> (days: i64)
    requires
        is_civil_date(year as int, month as int, day as int),
        is_civil_date(from_year as int, from_month as int, from_day as int),
    ensures
        days == civil_days_between(
            year as int,
            month as int,
            day as int,
            from_year as int,
            from_month as int,
            from_day as int,
        ),
{
    let date = chrono::NaiveDate::from_ymd_opt(year, month, day).unwrap();
    let from = chrono::NaiveDate::from_ymd_opt(from_year, from_month, from_day).unwrap();
    date.signed_duration_since(from).num_days()
}

/// The quotient of `a` by the positive `b`, rounded towards zero.
pub open spec fn truncated_quotient(a: int, b: int) -> int {
    if a >= 0 {
        a / b
    } else {
        -((-a) / b)
    }
}

/// What an [`EpochDuration`] holds: whole days, rounded down, and the
/// microseconds into that day.
pub ghost struct EpochSpan {
    pub days: int,
    pub day_micros: int,
}

impl EpochSpan {
    /// The span in microseconds.
    pub open spec fn total_micros(self) -> int {
        self.days * 86_400_000_000 + self.day_micros
    }

    /// The span in whole days; a fraction of a day is dropped, towards
    /// zero.
    pub open spec fn whole_days(self) -> int {
        truncated_quotient(self.total_micros(), 86_400_000_000)
    }
}

/// A span of time from the epoch to some moment, which may lie before it.
#[derive(Copy, Clone, Debug, PartialEq, Eq, Structural)]
pub struct EpochDuration {
    days: i64,
    day_micros: i64,
}

impl View for EpochDuration {
    type V = EpochSpan;

    closed spec fn view(&self) -> EpochSpan {
        EpochSpan { days: self.days as int, day_micros: self.day_micros as int }
    }
}

impl EpochDuration {
    #[verifier::type_invariant]
    spec fn day_micros_within_a_day(self) -> bool {
        0 <= self.day_micros < MICROS_PER_DAY
    }

    /// The span of `days` whole days, rounded down, and `day_micros`
    /// microseconds more, if those are less than a day.
    pub fn new(days: i64, day_micros: i64) -> (span: Option<EpochDuration>)
        ensures
            span is Some <==> 0 <= day_micros < MICROS_PER_DAY,
            span is Some ==> span->Some_0@ == (EpochSpan {
                days: days as int,
                day_micros: day_micros as int,
            }),
    {
        if 0 <= day_micros && day_micros < MICROS_PER_DAY {
            Some(EpochDuration { days, day_micros })
        } else {
            None
        }
    }

    /// The whole days of the span, rounded down.
    pub fn days(&self) -> (days: i64)
        ensures
            days == self@.days,
    {
        self.days
    }

    /// The microseconds of the span beyond its whole days.
    pub fn day_micros(&self) -> (day_micros: i64)
        ensures
            day_micros == self@.day_micros,
            0 <= day_micros < MICROS_PER_DAY,
    {
        proof {
            use_type_invariant(self);
        }
        self.day_micros
    }

    /// The span in whole days; a fraction of a day is dropped, towards
    /// zero.
    pub fn num_days(&self) -> (days: i64)
        ensures
            days == self@.whole_days(),
    {
        proof {
            use_type_invariant(self);
        }
        if self.days < 0 && self.day_micros > 0 {
            let days: i64 = self.days + 1;
            assert(-self@.total_micros() == (-days) * 86_400_000_000 + (86_400_000_000
                - self.day_micros));
            assert((-self@.total_micros()) / 86_400_000_000 == -days);
            days
        } else {
            if self.days < 0 {
                assert(-self@.total_micros() == (-self.days) * 86_400_000_000);
                assert((-self@.total_micros()) / 86_400_000_000 == -self.days);
            } else {
                assert(self@.total_micros() / 86_400_000_000 == self.days);
            }
            self.days
        }
    }

    /// The span in microseconds, where 64 bits hold it.
    pub fn num_microseconds(&self) -> (micros: Option<i64>)
        ensures
            micros is Some <==> i64::MIN <= self@.total_micros() <= i64::MAX,
            micros is Some ==> micros->Some_0 == self@.total_micros(),
    {
        proof {
            use_type_invariant(self);
        }
        let total: i128 = 86_400_000_000 * (self.days as i128) + (self.day_micros as i128);
        if total < i64::MIN as i128 || total > i64::MAX as i128 {
            None
        } else {
            Some(total as i64)
        }
    }
}

/// What a [`Date`] holds.
pub ghost struct CivilDate {
    pub year: int,
    pub month: int,
    pub day: int,
}

/// What a [`DateTime`] holds.
pub ghost struct CivilDateTime {
    pub date: CivilDate,
    pub hour: int,
    pub minute: int,
    pub second: int,
    pub micro: int,
}

impl CivilDate {
    /// Days from the first day of the year 2000 to this day.
    pub open spec fn days_since_y2k(self) -> int {
        civil_days_between(self.year, self.month, self.day, 2000, 1, 1)
    }
}

impl CivilDateTime {
    /// Microseconds from midnight to this time of day.
    pub open spec fn micros_since_midnight(self) -> int {
        1_000_000 * (3600 * self.hour + 60 * self.minute + self.second) + self.micro
    }
}

/// A day of the proleptic Gregorian calendar.
#[derive(Copy, Clone, Debug, PartialEq, Eq, Structural)]
pub struct Date {
    year: i32,
    month: u32,
    day: u32,
}

/// A day of the calendar and a time of that day, to the microsecond.
#[derive(Copy, Clone, Debug, PartialEq, Eq, Structural)]
pub struct DateTime {
    date: Date,
    hour: u32,
    minute: u32,
    second: u32,
    micro: u32,
}

impl View for Date {
    type V = CivilDate;

    closed spec fn view(&self) -> CivilDate {
        CivilDate { year: self.year as int, month: self.month as int, day: self.day as int }
    }
}

impl View for DateTime {
    type V = CivilDateTime;

    closed spec fn view(&self) -> CivilDateTime {
        CivilDateTime {
            date: self.date@,
            hour: self.hour as int,
            minute: self.minute as int,
            second: self.second as int,
            micro: self.micro as int,
        }
    }
}

/// Whether `year` is a leap year.
fn leap_year(year: i32) -> (leap: bool)
    requires
        -262143 <= year <= 262142,
    ensures
        leap == is_leap_year(year as int),
{
    // Moved up by a multiple of 400 the year is not negative, and a leap
    // year stays one.
    let shifted: i32 = year + 262400;
    shifted % 4 == 0 && (shifted % 100 != 0 || shifted % 400 == 0)
}

impl Date {
    #[verifier::type_invariant]
    spec fn day_exists(self) -> bool {
        is_civil_date(self.year as int, self.month as int, self.day as int)
    }

    /// The day `year`-`month`-`day`, if there is such a day.
    pub fn from_ymd(year: i32, month: u32, day: u32) -> (date: Option<Date>)
        ensures
            date is Some <==> is_civil_date(year as int, month as int, day as int),
            date is Some ==> date->Some_0@ == (CivilDate {
                year: year as int,
                month: month as int,
                day: day as int,
            }),
    {
        if year < -262143 || year > 262142 || month < 1 || month > 12 || day < 1 {
            return None;
        }
        let last: u32 = if month == 2 {
            if leap_year(year) {
                29
            } else {
                28
            }
        } else if month == 4 || month == 6 || month == 9 || month == 11 {
            30
        } else {
            31
        };
        if day > last {
            None
        } else {
            Some(Date { year, month, day })
        }
    }

    pub fn year(&self) -> (year: i32)
        ensures
            year == self@.year,
    {
        self.year
    }

    pub fn month(&self) -> (month: u32)
        ensures
            month == self@.month,
            1 <= month <= 12,
    {
        proof {
            use_type_invariant(self);
        }
        self.month
    }

    pub fn day(&self) -> (day: u32)
        ensures
            day == self@.day,
            1 <= day <= days_in_month(self@.year, self@.month),
    {
        proof {
            use_type_invariant(self);
        }
        self.day
    }

    /// This day at the given time, if there is such a time of day.
    pub fn and_hms_micro(&self, hour: u32, minute: u32, second: u32, micro: u32) -> (moment:
        Option<DateTime>)
        ensures
            moment is Some <==> is_time_of_day(
                hour as int,
                minute as int,
                second as int,
                micro as int,
            ),
            moment is Some ==> moment->Some_0@ == (CivilDateTime {
                date: self@,
                hour: hour as int,
                minute: minute as int,
                second: second as int,
                micro: micro as int,
            }),
    {
        if hour < 24 && minute < 60 && second < 60 && micro < 1_000_000 {
            Some(DateTime { date: *self, hour, minute, second, micro })
        } else {
            None
        }
    }

    /// This day at the given time, to the second.
    pub fn and_hms(&self, hour: u32, minute: u32, second: u32) -> (moment: Option<DateTime>)
        ensures
            moment is Some <==> is_time_of_day(hour as int, minute as int, second as int, 0),
            moment is Some ==> moment->Some_0@ == (CivilDateTime {
                date: self@,
                hour: hour as int,
                minute: minute as int,
                second: second as int,
                micro: 0,
            }),
    {
        self.and_hms_micro(hour, minute, second, 0)
    }
}

impl DateTime {
    #[verifier::type_invariant]
    spec fn time_exists(self) -> bool {
        is_time_of_day(
            self.hour as int,
            self.minute as int,
            self.second as int,
            self.micro as int,
        )
    }

    pub fn date(&self) -> (date: Date)
        ensures
            date@ == self@.date,
    {
        self.date
    }

    pub fn hour(&self) -> (hour: u32)
        ensures
            hour == self@.hour,
            hour < 24,
    {
        proof {
            use_type_invariant(self);
        }
        self.hour
    }

    pub fn minute(&self) -> (minute: u32)
        ensures
            minute == self@.minute,
            minute < 60,
    {
        proof {
            use_type_invariant(self);
        }
        self.minute
    }

    pub fn second(&self) -> (second: u32)
        ensures
            second == self@.second,
            second < 60,
    {
        proof {
            use_type_invariant(self);
        }
        self.second
    }

    pub fn micro(&self) -> (micro: u32)
        ensures
            micro == self@.micro,
            micro < 1_000_000,
    {
        proof {
            use_type_invariant(self);
        }
        self.micro
    }
}

/// A calendar value that can be counted from the epoch, midnight at the
/// start of 2000-01-01.
pub trait VerticaDate {
    /// The span from the epoch to this value.
    spec fn y2k_epoch_span(&self) -> EpochSpan;

    /// The span from the epoch to this value, negative where the value
    /// lies before the epoch.
    fn to_y2k_epoch_duration(&self) -> (span: EpochDuration)
        ensures
            span@ == self.y2k_epoch_span(),
    ;
}

impl VerticaDate for Date {
    open spec fn y2k_epoch_span(&self) -> EpochSpan {
        EpochSpan { days: self@.days_since_y2k(), day_micros: 0 }
    }

    fn to_y2k_epoch_duration(&self) -> (span: EpochDuration) {
        proof {
            use_type_invariant(self);
        }
        EpochDuration {
            days: chrono_days_between(self.year, self.month, self.day, 2000, 1, 1),
            day_micros: 0,
        }
    }
}

impl VerticaDate for DateTime {
    open spec fn y2k_epoch_span(&self) -> EpochSpan {
        EpochSpan { days: self@.date.days_since_y2k(), day_micros: self@.micros_since_midnight() }
    }

    fn to_y2k_epoch_duration(&self) -> (span: EpochDuration) {
        proof {
            use_type_invariant(self);
        }
        let seconds: i64 = 3600 * (self.hour as i64) + 60 * (self.minute as i64) + (
        self.second as i64);
        let days: i64 = self.date.to_y2k_epoch_duration().days;
        EpochDuration { days, day_micros: 1_000_000 * seconds + (self.micro as i64) }
    }
}

/// The microsecond count of a timestamp with time zone: the count of its
/// wall-clock reading, moved back by the zone's offset in hours. `None`
/// where 64 bits do not hold the result.
pub fn timestamptz_micros(wall_clock_micros: i64, timezone: i32) -> (micros: Option<i64>)
    ensures
        micros is Some <==> i64::MIN <= wall_clock_micros - 3_600_000_000 * timezone <= i64::MAX,
        micros is Some ==> micros->Some_0 == wall_clock_micros - 3_600_000_000 * timezone,
{
    let moved: i128 = (wall_clock_micros as i128) - 3_600_000_000 * (timezone as i128);
    if moved < i64::MIN as i128 || moved > i64::MAX as i128 {
        None
    } else {
        Some(moved as i64)
    }
}

/// Seconds from midnight to `hours`:`minutes`:`seconds`.
pub fn _seconds_since_midnight(hours: i32, minutes: i32, seconds: i32) -> (total: i32)
    requires
        i32::MIN <= 3600 * hours + 60 * minutes + seconds <= i32::MAX,
    ensures
        total == 3600 * hours + 60 * minutes + seconds,
{
    let wide: i64 = 3600 * (hours as i64) + 60 * (minutes as i64) + (seconds as i64);
    wide as i32
}

/// Microseconds from midnight to `hours`:`minutes`:`seconds`.
pub fn _microseconds_since_midnight(hours: i32, minutes: i32, seconds: i32) -> (total: u64)
    requires
        0 <= 3600 * hours + 60 * minutes + seconds <= i32::MAX,
    ensures
        total == 1_000_000 * (3600 * hours + 60 * minutes + seconds),
{
    let since: i32 = _seconds_since_midnight(hours, minutes, seconds);
    1_000_000u64 * (since as u64)
}

/// The packed layout of a time with time zone, from its two parts: the
/// microseconds since midnight above the low 24 bits, the zone's seconds in
/// the low 24 bits.
pub open spec fn timetz_packed(micros: u64, zone_seconds: u64) -> u64 {
    (micros << 24) | zone_seconds
}

/// Where both parts fit their fields, packing is shifting by 24 bits and
/// adding.
pub proof fn lemma_timetz_packed(micros: u64, zone_seconds: u64)
    requires
        micros < 0x100_0000_0000,
        zone_seconds < 0x100_0000,
    ensures
        timetz_packed(micros, zone_seconds) == micros * 0x100_0000 + zone_seconds,
{
    assert((micros << 24) | zone_seconds == micros * 0x100_0000 + zone_seconds) by (bit_vector)
        requires
            micros < 0x100_0000_0000,
            zone_seconds < 0x100_0000,
    ;
}

/// Seconds from midnight to the hour `24 - timezone`: how a zone
/// `timezone` hours east is stored.
pub open spec fn zone_seconds(timezone: int) -> int {
    3600 * (24 - timezone)
}

/// Microseconds from midnight to `hours`:`minutes`:`seconds`, read in the
/// zone `timezone` hours east of it.
pub open spec fn zoned_micros(hours: int, minutes: int, seconds: int, timezone: int) -> int {
    1_000_000 * (3600 * (hours - timezone) + 60 * minutes + seconds)
}

/// A time of day with a time zone, packed in 64 bits: the microseconds
/// since midnight, moved by the zone, above the zone's seconds. A zone of
/// more than 24 hours has negative seconds, which are stored in two's
/// complement and then fill the bits above them.
pub fn _timetz(hours: i32, minutes: i32, seconds: i32, timezone: i32) -> (packed: u64)
    requires
        i32::MIN <= hours - timezone <= i32::MAX,
        0 <= 3600 * (hours - timezone) + 60 * minutes + seconds <= i32::MAX,
        i32::MIN <= zone_seconds(timezone as int) <= i32::MAX,
    ensures
        packed == timetz_packed(
            zoned_micros(hours as int, minutes as int, seconds as int, timezone as int) as u64,
            twos_complement(zone_seconds(timezone as int) as i64),
        ),
        zoned_micros(hours as int, minutes as int, seconds as int, timezone as int)
            < 0x100_0000_0000 && 0 <= zone_seconds(timezone as int) < 0x100_0000 ==> packed
            == 0x100_0000 * zoned_micros(
            hours as int,
            minutes as int,
            seconds as int,
            timezone as int,
        ) + zone_seconds(timezone as int),
{
    let micros: u64 = _microseconds_since_midnight(hours - timezone, minutes, seconds);
    let zone: i32 = _seconds_since_midnight(24 - timezone, 0, 0);
    let zone_bits: u64 = i64_bits(zone as i64);
    proof {
        if micros < 0x100_0000_0000 && 0 <= zone < 0x100_0000 {
            lemma_timetz_packed(micros, zone_bits);
        }
    }
    (micros << 24) | zone_bits
}

} // verus!
