//! Field types and the date / time values stored in dBase records.

use crate::error::{DateParseError, ErrorKind, TimeError};
use crate::le::{le32, le_bytes32, push_i32_le, read_i32_le, signed32, unsigned32};
use vstd::prelude::*;

verus! {

/// Enum listing all the field types we know of
#[derive(Debug, Copy, Clone, PartialEq, Eq, Structural)]
pub enum FieldType {
    // dBASE III
    Character,
    Date,
    Float,
    Numeric,
    Logical,
    // Visual FoxPro
    Currency,
    DateTime,
    Integer,
    // Unknown
    Double,
    Memo,
}

/// The type code of each field type, as stored in a field descriptor.
pub open spec fn spec_field_type_code(t: FieldType) -> char {
    match t {
        FieldType::Character => 'C',
        FieldType::Date => 'D',
        FieldType::Float => 'F',
        FieldType::Numeric => 'N',
        FieldType::Logical => 'L',
        FieldType::Currency => 'Y',
        FieldType::DateTime => 'T',
        FieldType::Integer => 'I',
        FieldType::Double => 'B',
        FieldType::Memo => 'M',
    }
}

/// The field type whose code is `c`, if any.
pub open spec fn spec_field_type_from_code(c: char) -> Option<FieldType> {
    if c == 'C' {
        Some(FieldType::Character)
    } else if c == 'D' {
        Some(FieldType::Date)
    } else if c == 'F' {
        Some(FieldType::Float)
    } else if c == 'N' {
        Some(FieldType::Numeric)
    } else if c == 'L' {
        Some(FieldType::Logical)
    } else if c == 'Y' {
        Some(FieldType::Currency)
    } else if c == 'T' {
        Some(FieldType::DateTime)
    } else if c == 'I' {
        Some(FieldType::Integer)
    } else if c == 'B' {
        Some(FieldType::Double)
    } else if c == 'M' {
        Some(FieldType::Memo)
    } else {
        None
    }
}

/// The in-file size of the field types whose size is fixed.
pub open spec fn spec_field_type_size(t: FieldType) -> Option<u8> {
    match t {
        FieldType::Logical => Some(1u8),
        FieldType::Date => Some(8u8),
        FieldType::Integer => Some(4u8),
        FieldType::Currency => Some(8u8),
        FieldType::DateTime => Some(8u8),
        FieldType::Double => Some(8u8),
        _ => None,
    }
}

impl FieldType {
    /// Returns the field type whose code is `c`, `None` for an unknown code.
    pub fn from(c: char) -> (r: Option<FieldType>)
        ensures
            r == spec_field_type_from_code(c),
    {
        match c {
            'C' => Some(FieldType::Character),
            'D' => Some(FieldType::Date),
            'F' => Some(FieldType::Float),
            'N' => Some(FieldType::Numeric),
            'L' => Some(FieldType::Logical),
            'Y' => Some(FieldType::Currency),
            'T' => Some(FieldType::DateTime),
            'I' => Some(FieldType::Integer),
            'B' => Some(FieldType::Double),
            'M' => Some(FieldType::Memo),
            _ => None,
        }
    }

    /// The code byte of this field type.
    pub fn code(self) -> (r: u8)
        ensures
            r == spec_field_type_code(self) as u8,
            r < 128,
    {
        match self {
            FieldType::Character => 67u8,
            FieldType::Date => 68u8,
            FieldType::Float => 70u8,
            FieldType::Numeric => 78u8,
            FieldType::Logical => 76u8,
            FieldType::Currency => 89u8,
            FieldType::DateTime => 84u8,
            FieldType::Integer => 73u8,
            FieldType::Double => 66u8,
            FieldType::Memo => 77u8,
        }
    }

    /// Returns the size when stored in a file
    ///
    /// None is returned when the size cannot be known statically
    /// (the in-file size depends on the field data)
    pub fn size(self) -> (r: Option<u8>)
        ensures
            r == spec_field_type_size(self),
    {
        match self {
            FieldType::Logical => Some(1),
            FieldType::Date => Some(8),
            FieldType::Integer => Some(4),
            FieldType::Currency => Some(8),
            FieldType::DateTime => Some(8),
            FieldType::Double => Some(8),
            _ => None,
        }
    }
}

impl From<FieldType> for u8 {
    fn from(t: FieldType) -> (r: u8) {
        t.code()
    }
}

impl vstd::std_specs::convert::FromSpecImpl<FieldType> for u8 {
    open spec fn obeys_from_spec() -> bool {
        true
    }

    open spec fn from_spec(t: FieldType) -> u8 {
        spec_field_type_code(t) as u8
    }
}

/// Reading the code of a field type gives the field type back.
pub proof fn lemma_field_type_code_roundtrip(t: FieldType)
    ensures
        spec_field_type_from_code(spec_field_type_code(t)) == Some(t),
{
}

/// The Julian day number of a (proleptic Gregorian) calendar date.
pub open spec fn spec_julian_day_number(year: int, month: int, day: int) -> int {
    let m = if month > 2 { month - 3 } else { month + 9 };
    let y = if month > 2 { year } else { year - 1 };
    let century = y / 100;
    let rest = y - 100 * century;
    (146097 * century) / 4 + (1461 * rest) / 4 + (153 * m + 2) / 5 + day + 1721119
}

/// The calendar date (year, month, day) of a Julian day number
/// (Richards' algorithm for the Gregorian calendar).
pub open spec fn spec_gregorian_of_julian(jdn: int) -> (int, int, int) {
    let f = jdn + 1401 + ((4 * jdn + 274277) / 146097 * 3) / 4 - 38;
    let e = 4 * f + 3;
    let g = (e % 1461) / 4;
    let h = 5 * g + 2;
    let day = (h % 153) / 5 + 1;
    let month = (h / 153 + 2) % 12 + 1;
    let year = e / 1461 - 4716 + (12 + 2 - month) / 12;
    (year, month, day)
}

/// Largest Julian day number converted to a calendar date: beyond it the
/// 32 bit arithmetic of the conversion would overflow.
pub const MAX_JULIAN_DAY_NUMBER: i32 = 536_000_000;

/// Largest year of a date that can be converted to a Julian day number.
pub const MAX_JULIAN_YEAR: u32 = 1_500_000;

/// dBase representation of date
///
/// # Note
///
/// This is really really naive date, it just holds the day, moth, year value
/// with just a very few checks.
///
/// Also, dBase files do not have concept of timezones.
#[derive(Debug, Copy, Clone, PartialEq, Eq, Structural)]
pub struct Date {
    pub year: u32,
    pub month: u32,
    pub day: u32,
}

impl Date {
    /// A date whose Julian day number can be computed in 32 bit arithmetic:
    /// the month and day fit in a byte, the year is at most
    /// `MAX_JULIAN_YEAR`, and January and February have a previous year.
    pub open spec fn julian_ok(self) -> bool {
        &&& self.year <= MAX_JULIAN_YEAR
        &&& self.month <= 255
        &&& self.day <= 255
        &&& (self.month > 2 || self.year >= 1)
    }

    /// Creates a new dbase::Date
    ///
    /// The year has at most 4 digits, the day is at most 31 and the month at most 12.
    pub fn new(day: u32, month: u32, year: u32) -> (d: Self)
        requires
            year <= 9999,
            day <= 31,
            month <= 12,
        ensures
            d.year == year,
            d.month == month,
            d.day == day,
    {
        Self { year, month, day }
    }

    /// Returns the year
    pub fn year(&self) -> (r: u32)
        ensures
            r == self.year,
    {
        self.year
    }

    /// Returns the month
    pub fn month(&self) -> (r: u32)
        ensures
            r == self.month,
    {
        self.month
    }

    /// Returns the day
    pub fn day(&self) -> (r: u32)
        ensures
            r == self.day,
    {
        self.day
    }

    /// Number of days since 1970-01-01 (the unix epoch).
    pub fn to_unix_days(&self) -> (r: i32)
        requires
            self.julian_ok(),
        ensures
            r == spec_julian_day_number(self.year as int, self.month as int, self.day as int)
                - 2440588,
    {
        let julian_day = self.to_julian_day_number();
        julian_day - 2440588
    }

    /// The Julian day number of the date.
    pub fn to_julian_day_number(&self) -> (r: i32)
        requires
            self.julian_ok(),
        ensures
            r == spec_julian_day_number(self.year as int, self.month as int, self.day as int),
            r >= 0,
    {
        let (month, year) = if self.month > 2 {
            (self.month - 3, self.year)
        } else {
            (self.month + 9, self.year - 1)
        };
        let century = year / 100;
        let rest = year - 100 * century;
        assert(century <= 15000);
        assert(146097 * century <= 146097 * 15000) by (nonlinear_arith)
            requires
                century <= 15000,
        ;
        assert(1461 * rest <= 1461 * 99) by (nonlinear_arith)
            requires
                rest <= 99,
        ;
        let total: u32 = (146097 * century) / 4 + (1461 * rest) / 4 + (153 * month + 2) / 5
            + self.day + 1721119;
        total as i32
    }

    /// The date of a Julian day number.
    ///
    /// `None` when the day number is negative, above `MAX_JULIAN_DAY_NUMBER`,
    /// or falls before the year 1.
    pub fn julian_day_number_to_gregorian_date(jdn: i32) -> (r: Option<Date>)
        ensures
            r is Some <==> (0 <= jdn <= MAX_JULIAN_DAY_NUMBER && spec_gregorian_of_julian(
                jdn as int,
            ).0 >= 1),
            r matches Some(d) ==> d.year == spec_gregorian_of_julian(jdn as int).0 && d.month
                == spec_gregorian_of_julian(jdn as int).1 && d.day == spec_gregorian_of_julian(
                jdn as int,
            ).2,
            r matches Some(d) ==> d.julian_ok() && 1 <= d.month <= 12 && 1 <= d.day <= 31,
    {
        if jdn < 0 || jdn > MAX_JULIAN_DAY_NUMBER {
            return None;
        }
        let f = jdn + 1401 + ((4 * jdn + 274277) / 146097 * 3) / 4 - 38;
        assert(f <= 536_012_370);
        let e = 4 * f + 3;
        let g = (e % 1461) / 4;
        let h = 5 * g + 2;
        let day = (h % 153) / 5 + 1;
        let month = ((h / 153 + 2) % 12) + 1;
        let year = (e / 1461) - 4716 + (12 + 2 - month) / 12;
        if year < 1 {
            return None;
        }
        assert(year <= 1_500_000);
        Some(Date { year: year as u32, month: month as u32, day: day as u32 })
    }
}

/// FoxBase representation of a time
///
/// This is a very naive Time struct, very minimal verifications are done.
/// Its milliseconds count always fits in a signed 32 bit word.
#[derive(Debug, Copy, Clone, PartialEq, Eq, Structural)]
pub struct Time {
    hours: u32,
    minutes: u32,
    seconds: u32,
}

/// Milliseconds in an hour, a minute and a second.
pub const HOURS_FACTOR: i32 = 3_600_000;

pub const MINUTES_FACTOR: i32 = 60_000;

pub const SECONDS_FACTOR: i32 = 1_000;

/// The milliseconds count of a time of day.
pub open spec fn spec_time_word(hours: int, minutes: int, seconds: int) -> int {
    hours * 3_600_000 + minutes * 60_000 + seconds * 1_000
}

impl Time {
    #[verifier::type_invariant]
    closed spec fn word_fits(self) -> bool {
        spec_time_word(self.hours as int, self.minutes as int, self.seconds as int)
            <= 0x7fff_ffff
    }

    /// The hours, in specifications.
    pub closed spec fn spec_hours(self) -> u32 {
        self.hours
    }

    /// The minutes, in specifications.
    pub closed spec fn spec_minutes(self) -> u32 {
        self.minutes
    }

    /// The seconds, in specifications.
    pub closed spec fn spec_seconds(self) -> u32 {
        self.seconds
    }

    /// The milliseconds count of this time, in specifications.
    pub open spec fn spec_word(self) -> int {
        spec_time_word(self.spec_hours() as int, self.spec_minutes() as int, self.spec_seconds() as int)
    }

    /// Creates a new Time
    ///
    /// The hours are at most 24, the minutes and seconds at most 60.
    pub fn new(hours: u32, minutes: u32, seconds: u32) -> (t: Self)
        requires
            hours <= 24,
            minutes <= 60,
            seconds <= 60,
        ensures
            t.spec_hours() == hours,
            t.spec_minutes() == minutes,
            t.spec_seconds() == seconds,
    {
        Self { hours, minutes, seconds }
    }

    /// Returns the hours.
    pub fn hours(&self) -> (r: u32)
        ensures
            r == self.spec_hours(),
    {
        self.hours
    }

    /// Returns the minutes.
    pub fn minutes(&self) -> (r: u32)
        ensures
            r == self.spec_minutes(),
    {
        self.minutes
    }

    /// Returns the seconds.
    pub fn seconds(&self) -> (r: u32)
        ensures
            r == self.spec_seconds(),
    {
        self.seconds
    }

    /// The time of a milliseconds count; the milliseconds below a second are
    /// dropped, so a count above -1000 that is negative gives midnight.
    ///
    /// A count of -1000 or below has no time and gives an error: its seconds
    /// (or minutes, or hours) would be a negative number taken as unsigned, a
    /// time whose milliseconds count does not fit 32 bits.
    pub fn from_word(time_word: i32) -> (r: Result<Self, TimeError>)
        ensures
            time_word <= -1000 ==> r == Err::<Time, TimeError>(TimeError::NegativeTimeWord(time_word)),
            time_word > -1000 ==> r is Ok,
            time_word >= 0 ==> (r matches Ok(t) && t.spec_hours() == time_word / 3_600_000
                && t.spec_minutes() == time_word % 3_600_000 / 60_000
                && t.spec_seconds() == time_word % 60_000 / 1_000),
            -1000 < time_word < 0 ==> (r matches Ok(t) && t.spec_hours() == 0 && t.spec_minutes() == 0
                && t.spec_seconds() == 0),
    {
        if time_word <= -1000 {
            return Err(TimeError::NegativeTimeWord(time_word));
        }
        if time_word < 0 {
            return Ok(Self { hours: 0, minutes: 0, seconds: 0 });
        }
        let mut time_word = time_word;
        let ghost w = time_word;
        let hours: u32 = (time_word / HOURS_FACTOR) as u32;
        assert(hours * 3_600_000 <= w && w - hours * 3_600_000 == w % 3_600_000) by {
            vstd::arithmetic::div_mod::lemma_fundamental_div_mod(w as int, 3_600_000);
        }
        time_word -= (hours * HOURS_FACTOR as u32) as i32;
        assert(time_word == w % 3_600_000);
        let minutes: u32 = (time_word / MINUTES_FACTOR) as u32;
        let ghost w2 = time_word;
        assert(minutes * 60_000 <= w2 && w2 - minutes * 60_000 == w2 % 60_000) by {
            vstd::arithmetic::div_mod::lemma_fundamental_div_mod(w2 as int, 60_000);
        }
        time_word -= (minutes * MINUTES_FACTOR as u32) as i32;
        assert(time_word == w % 3_600_000 % 60_000);
        assert(w % 3_600_000 % 60_000 == w % 60_000) by {
            vstd::arithmetic::div_mod::lemma_mod_mod(w as int, 60_000, 60);
        }
        let seconds: u32 = (time_word / SECONDS_FACTOR) as u32;
        assert(spec_time_word(hours as int, minutes as int, seconds as int) <= w);
        Ok(Self { hours, minutes, seconds })
    }

    /// The milliseconds count of this time.
    pub fn to_time_word(&self) -> (r: i32)
        ensures
            r == self.spec_word(),
    {
        proof {
            use_type_invariant(self);
        }
        let mut time_word = self.hours * HOURS_FACTOR as u32;
        time_word += self.minutes * MINUTES_FACTOR as u32;
        time_word += self.seconds * SECONDS_FACTOR as u32;
        time_word as i32
    }
}

/// A time of day written as a milliseconds count reads back as itself, when
/// its minutes and seconds are below 60.
pub proof fn lemma_time_word_roundtrip(t: Time)
    requires
        t.spec_minutes() < 60,
        t.spec_seconds() < 60,
    ensures
        t.spec_word() >= 0,
        t.spec_word() / 3_600_000 == t.spec_hours(),
        t.spec_word() % 3_600_000 / 60_000 == t.spec_minutes(),
        t.spec_word() % 60_000 / 1_000 == t.spec_seconds(),
{
    let h = t.spec_hours() as int;
    let mi = t.spec_minutes() as int;
    let sec = t.spec_seconds() as int;
    let w = t.spec_word();
    let rest = mi * 60_000 + sec * 1_000;
    assert(0 <= rest < 3_600_000);
    vstd::arithmetic::div_mod::lemma_fundamental_div_mod_converse(w, 3_600_000, h, rest);
    vstd::arithmetic::div_mod::lemma_fundamental_div_mod_converse(rest, 60_000, mi, sec * 1_000);
    assert(w == (h * 60 + mi) * 60_000 + sec * 1_000);
    vstd::arithmetic::div_mod::lemma_fundamental_div_mod_converse(w, 60_000, h * 60 + mi, sec * 1_000);
    vstd::arithmetic::div_mod::lemma_fundamental_div_mod_converse(sec * 1_000, 1_000, sec, 0);
}

/// FoxBase representation of a DateTime
///
/// Its date always has a Julian day number.
#[derive(Debug, Copy, Clone, PartialEq, Eq, Structural)]
pub struct DateTime {
    date: Date,
    time: Time,
}

impl DateTime {
    #[verifier::type_invariant]
    closed spec fn date_has_day_number(self) -> bool {
        self.date.julian_ok()
    }

    /// The date part, in specifications.
    pub closed spec fn spec_date(self) -> Date {
        self.date
    }

    /// The time part, in specifications.
    pub closed spec fn spec_time(self) -> Time {
        self.time
    }

    /// Creates a new DateTime from a date and a time
    pub fn new(date: Date, time: Time) -> (r: Self)
        requires
            date.julian_ok(),
        ensures
            r.spec_date() == date,
            r.spec_time() == time,
    {
        Self { date, time }
    }

    /// Returns the [Date] part.
    pub fn date(&self) -> (r: Date)
        ensures
            r == self.spec_date(),
            r.julian_ok(),
    {
        proof {
            use_type_invariant(self);
        }
        self.date
    }

    /// Returns the [Time] part.
    pub fn time(&self) -> (r: Time)
        ensures
            r == self.spec_time(),
    {
        self.time
    }

    /// Seconds since 1970-01-01T00:00:00.
    pub fn to_unix_timestamp(&self) -> (r: i64)
        ensures
            r == (spec_julian_day_number(
                self.spec_date().year as int,
                self.spec_date().month as int,
                self.spec_date().day as int,
            ) - 2440588) * 86400 + self.spec_time().spec_hours() * 3600
                + self.spec_time().spec_minutes() * 60 + self.spec_time().spec_seconds(),
    {
        let date = self.date();
        let time = self.time();
        let days = date.to_unix_days() as i64;
        assert(-2_440_588 <= days <= 600_000_000);
        assert(days * 86400 <= 600_000_000 * 86400 && days * 86400 >= -2_440_588 * 86400)
            by (nonlinear_arith)
            requires
                -2_440_588 <= days <= 600_000_000,
        ;
        days * 86400 + time.hours() as i64 * 3600 + time.minutes() as i64 * 60
            + time.seconds() as i64
    }

    /// The date-time of a Julian day number and a milliseconds count.
    ///
    /// The day number must have a calendar date (see
    /// [`Date::julian_day_number_to_gregorian_date`]) and the milliseconds
    /// count must not be negative.
    pub fn from_words(julian_day_number: i32, time_word: i32) -> (r: Result<Self, ErrorKind>)
        ensures
            r == Self::spec_from_words(julian_day_number as int, time_word as int),
            time_word < 0 ==> r == Err::<DateTime, ErrorKind>(
                ErrorKind::InvalidTime(TimeError::NegativeTimeWord(time_word)),
            ),
            time_word >= 0 && !(0 <= julian_day_number <= MAX_JULIAN_DAY_NUMBER
                && spec_gregorian_of_julian(julian_day_number as int).0 >= 1) ==> r
                == Err::<DateTime, ErrorKind>(
                ErrorKind::InvalidDate(DateParseError::DayNumberOutOfRange(julian_day_number)),
            ),
            r matches Ok(dt) ==> {
                &&& 0 <= julian_day_number <= MAX_JULIAN_DAY_NUMBER
                &&& time_word >= 0
                &&& dt.spec_date().year == spec_gregorian_of_julian(julian_day_number as int).0
                &&& dt.spec_date().month == spec_gregorian_of_julian(julian_day_number as int).1
                &&& dt.spec_date().day == spec_gregorian_of_julian(julian_day_number as int).2
                &&& dt.spec_time().spec_hours() == time_word / 3_600_000
                &&& dt.spec_time().spec_minutes() == time_word % 3_600_000 / 60_000
                &&& dt.spec_time().spec_seconds() == time_word % 60_000 / 1_000
            },
    {
        if time_word < 0 {
            return Err(ErrorKind::InvalidTime(TimeError::NegativeTimeWord(time_word)));
        }
        let time = match Time::from_word(time_word) {
            Ok(t) => t,
            Err(e) => return Err(ErrorKind::InvalidTime(e)),
        };
        match Date::julian_day_number_to_gregorian_date(julian_day_number) {
            Some(date) => Ok(Self { date, time }),
            None => Err(
                ErrorKind::InvalidDate(DateParseError::DayNumberOutOfRange(julian_day_number)),
            ),
        }
    }

    /// Reads a date-time from the 8 bytes of `src` at `pos`: the Julian day
    /// number then the milliseconds count, both little endian.
    pub fn read_from(src: &[u8], pos: usize) -> (r: Result<Self, ErrorKind>)
        ensures
            pos + 8 > src@.len() ==> r matches Err(ErrorKind::UnexpectedEof),
            pos + 8 <= src@.len() ==> r == Self::spec_from_words(
                signed32(le32(src@, pos as int)),
                signed32(le32(src@, pos + 4)),
            ),
    {
        if pos > src.len() || src.len() - pos < 8 {
            return Err(ErrorKind::UnexpectedEof);
        }
        let julian_day_number = read_i32_le(src, pos);
        let time_word = read_i32_le(src, pos + 4);
        Self::from_words(julian_day_number, time_word)
    }

    /// What [`Self::from_words`] returns, in specifications.
    pub closed spec fn spec_from_words(julian_day_number: int, time_word: int) -> Result<
        DateTime,
        ErrorKind,
    > {
        if time_word < 0 {
            Err(ErrorKind::InvalidTime(TimeError::NegativeTimeWord(time_word as i32)))
        } else if !(0 <= julian_day_number <= MAX_JULIAN_DAY_NUMBER
            && spec_gregorian_of_julian(julian_day_number).0 >= 1) {
            Err(ErrorKind::InvalidDate(DateParseError::DayNumberOutOfRange(julian_day_number as i32)))
        } else {
            let g = spec_gregorian_of_julian(julian_day_number);
            Ok(
                DateTime {
                    date: Date { year: g.0 as u32, month: g.1 as u32, day: g.2 as u32 },
                    time: Time {
                        hours: (time_word / 3_600_000) as u32,
                        minutes: (time_word % 3_600_000 / 60_000) as u32,
                        seconds: (time_word % 60_000 / 1_000) as u32,
                    },
                },
            )
        }
    }

    /// Appends the 8 bytes of this date-time: the Julian day number then the
    /// milliseconds count, both little endian.
    pub fn write_to(&self, dest: &mut Vec<u8>)
        ensures
            final(dest)@ == old(dest)@ + le_bytes32(
                unsigned32(
                    spec_julian_day_number(
                        self.spec_date().year as int,
                        self.spec_date().month as int,
                        self.spec_date().day as int,
                    ),
                ),
            ) + le_bytes32(unsigned32(self.spec_time().spec_word())),
    {
        let date = self.date();
        push_i32_le(dest, date.to_julian_day_number());
        push_i32_le(dest, self.time.to_time_word());
    }
}


/// Whether the calendar date of the Julian day number of `d` is `d` itself
/// (and that day number can be read back).
pub open spec fn calendar_roundtrips(d: Date) -> bool {
    let j = spec_julian_day_number(d.year as int, d.month as int, d.day as int);
    &&& 0 <= j <= MAX_JULIAN_DAY_NUMBER
    &&& spec_gregorian_of_julian(j) == (d.year as int, d.month as int, d.day as int)
    &&& d.year >= 1
}

/// A date-time written as its two words reads back as itself, when the
/// calendar date of its Julian day number is its date (see
/// [`calendar_roundtrips`]) and its minutes and seconds are below 60.
pub proof fn lemma_date_time_words_roundtrip(dt: DateTime)
    requires
        dt.spec_date().julian_ok(),
        dt.spec_time().spec_word() <= 0x7fff_ffff,
        calendar_roundtrips(dt.spec_date()),
        dt.spec_time().spec_minutes() < 60,
        dt.spec_time().spec_seconds() < 60,
    ensures
        DateTime::spec_from_words(
            spec_julian_day_number(
                dt.spec_date().year as int,
                dt.spec_date().month as int,
                dt.spec_date().day as int,
            ),
            dt.spec_time().spec_word(),
        ) == Ok::<DateTime, ErrorKind>(dt),
{
    lemma_time_word_roundtrip(dt.spec_time());
}


/// Whether `year` is a leap year of the (proleptic) Gregorian calendar.
pub open spec fn is_leap_year(year: int) -> bool {
    year % 4 == 0 && (year % 100 != 0 || year % 400 == 0)
}

/// Number of days of a month of the (proleptic) Gregorian calendar.
pub open spec fn days_in_month(year: int, month: int) -> int {
    if month == 2 {
        if is_leap_year(year) { 29 } else { 28 }
    } else if month == 4 || month == 6 || month == 9 || month == 11 {
        30
    } else {
        31
    }
}

/// Whether the date is a day of the (proleptic) Gregorian calendar, from
/// the year 1 on.
pub open spec fn is_calendar_date(d: Date) -> bool {
    &&& d.year >= 1
    &&& 1 <= d.month <= 12
    &&& 1 <= d.day <= days_in_month(d.year as int, d.month as int)
}

/// The day after a calendar date.
pub open spec fn following_day(d: Date) -> Date {
    if d.day < days_in_month(d.year as int, d.month as int) {
        Date { year: d.year, month: d.month, day: (d.day + 1) as u32 }
    } else if d.month < 12 {
        Date { year: d.year, month: (d.month + 1) as u32, day: 1 }
    } else {
        Date { year: (d.year + 1) as u32, month: 1, day: 1 }
    }
}

/// The part of a Julian day number that comes from the years before a
/// March-based year `y`.
spec fn years_part(y: int) -> int {
    (146097 * (y / 100)) / 4 + (1461 * (y - 100 * (y / 100))) / 4
}

/// From one March-based year to the next, the day number grows by the
/// length of the year, 366 when the following February has 29 days.
proof fn lemma_years_part_step(y: int)
    requires
        y >= 1,
    ensures
        years_part(y) - years_part(y - 1) == if is_leap_year(y) { 366int } else { 365int },
{
    let c = y / 100;
    let r = y - 100 * c;
    assert(0 <= r < 100);
    if r >= 1 {
        assert((y - 1) / 100 == c);
        let q = (r - 1) / 4;
        let k = (r - 1) % 4;
        assert(r - 1 == 4 * q + k && 0 <= k < 4);
        assert(1461 * (r - 1) == 4 * (1461 * q + 365 * k) + k) by (nonlinear_arith)
            requires r - 1 == 4 * q + k;
        assert((1461 * (r - 1)) / 4 == 1461 * q + 365 * k) by {
            vstd::arithmetic::div_mod::lemma_fundamental_div_mod_converse(1461 * (r - 1), 4, 1461 * q + 365 * k, k);
        }
        assert(1461 * r == 4 * (1461 * q + 365 * k + 365) + k + 1) by (nonlinear_arith)
            requires r - 1 == 4 * q + k;
        if k == 3 {
            assert(1461 * r == 4 * (1461 * q + 365 * k + 366));
            assert((1461 * r) / 4 == 1461 * q + 365 * k + 366) by {
                vstd::arithmetic::div_mod::lemma_fundamental_div_mod_converse(1461 * r, 4, 1461 * q + 365 * k + 366, 0);
            }
            assert(r == 4 * (q + 1));
            assert(y == 4 * (25 * c + q + 1));
            assert(y % 4 == 0);
            assert(y % 100 != 0) by {
                assert(y == 100 * c + r);
            }
        } else {
            assert((1461 * r) / 4 == 1461 * q + 365 * k + 365) by {
                vstd::arithmetic::div_mod::lemma_fundamental_div_mod_converse(1461 * r, 4, 1461 * q + 365 * k + 365, k + 1);
            }
            assert(y % 4 != 0) by {
                assert(y == 4 * (25 * c + q) + k + 1);
                vstd::arithmetic::div_mod::lemma_fundamental_div_mod_converse(y, 4, 25 * c + q, k + 1);
            }
        }
    } else {
        assert(y == 100 * c);
        assert(c >= 1);
        assert((y - 1) / 100 == c - 1) by {
            vstd::arithmetic::div_mod::lemma_fundamental_div_mod_converse(y - 1, 100, c - 1, 99);
        }
        assert((y - 1) - 100 * (c - 1) == 99);
        let q = (c - 1) / 4;
        let k = (c - 1) % 4;
        assert(c - 1 == 4 * q + k && 0 <= k < 4);
        assert(146097 * (c - 1) == 4 * (146097 * q + 36524 * k) + k) by (nonlinear_arith)
            requires c - 1 == 4 * q + k;
        assert((146097 * (c - 1)) / 4 == 146097 * q + 36524 * k) by {
            vstd::arithmetic::div_mod::lemma_fundamental_div_mod_converse(146097 * (c - 1), 4, 146097 * q + 36524 * k, k);
        }
        assert(146097 * c == 4 * (146097 * q + 36524 * k + 36524) + k + 1) by (nonlinear_arith)
            requires c - 1 == 4 * q + k;
        assert(y % 100 == 0) by {
            vstd::arithmetic::div_mod::lemma_fundamental_div_mod_converse(y, 100, c, 0);
        }
        if k == 3 {
            assert((146097 * c) / 4 == 146097 * q + 36524 * k + 36525) by {
                vstd::arithmetic::div_mod::lemma_fundamental_div_mod_converse(146097 * c, 4, 146097 * q + 36524 * k + 36525, 0);
            }
            assert(y == 400 * (q + 1));
            assert(y % 400 == 0) by {
                vstd::arithmetic::div_mod::lemma_fundamental_div_mod_converse(y, 400, q + 1, 0);
            }
            assert(y % 4 == 0) by {
                vstd::arithmetic::div_mod::lemma_fundamental_div_mod_converse(y, 4, 100 * (q + 1), 0);
            }
        } else {
            assert((146097 * c) / 4 == 146097 * q + 36524 * k + 36524) by {
                vstd::arithmetic::div_mod::lemma_fundamental_div_mod_converse(146097 * c, 4, 146097 * q + 36524 * k + 36524, k + 1);
            }
            assert(y % 400 != 0) by {
                assert(y == 400 * q + 100 * (k + 1));
                vstd::arithmetic::div_mod::lemma_fundamental_div_mod_converse(y, 400, q, 100 * (k + 1));
            }
        }
    }
}

/// Julian day numbers count days: the day after a calendar date has the
/// next number, and 1970-01-01, the unix epoch, has the number 2440588
/// (the last day of the largest year is left out: its next day has no year).
pub proof fn lemma_julian_day_numbers(d: Date)
    requires
        is_calendar_date(d),
        d.year < 0xffff_ffff,
    ensures
        spec_julian_day_number(
            following_day(d).year as int,
            following_day(d).month as int,
            following_day(d).day as int,
        ) == spec_julian_day_number(d.year as int, d.month as int, d.day as int) + 1,
        spec_julian_day_number(1970, 1, 1) == 2440588,
{
    let y = d.year as int;
    let m = d.month as int;
    assert(spec_julian_day_number(1970, 1, 1) == 2440588) by {
        assert(1969int / 100 == 19);
        assert((146097int * 19) / 4 == 693960);
        assert((1461int * 69) / 4 == 25202);
        assert((153int * 10 + 2) / 5 == 306);
    }
    let n = spec_julian_day_number(d.year as int, d.month as int, d.day as int);
    let f = following_day(d);
    if d.day < days_in_month(y, m) {
        assert(f == Date { year: d.year, month: d.month, day: (d.day + 1) as u32 });
        assert(spec_julian_day_number(y, m, d.day + 1) == n + 1);
    } else if m == 2 {
        assert(following_day(d) == Date { year: d.year, month: 3, day: 1 });
        lemma_years_part_step(y);
        assert(spec_julian_day_number(y, 2, d.day as int) == years_part(y - 1) + 337 + d.day + 1721119);
        assert(spec_julian_day_number(y, 3, 1) == years_part(y) + 0 + 1 + 1721119);
    } else if m == 1 {
        assert(following_day(d) == Date { year: d.year, month: 2, day: 1 });
        assert(spec_julian_day_number(y, 1, d.day as int) == years_part(y - 1) + 306 + d.day + 1721119);
        assert(spec_julian_day_number(y, 2, 1) == years_part(y - 1) + 337 + 1 + 1721119);
    } else if m == 12 {
        assert(following_day(d) == Date { year: (d.year + 1) as u32, month: 1, day: 1 });
        assert(spec_julian_day_number(y, 12, d.day as int) == years_part(y) + 275 + d.day + 1721119);
        assert(spec_julian_day_number(y + 1, 1, 1) == years_part(y) + 306 + 1 + 1721119);
    } else {
        let mm = m - 3;
        assert(following_day(d) == Date { year: d.year, month: (m + 1) as u32, day: 1 });
        assert(spec_julian_day_number(y, m, d.day as int) == years_part(y) + (153 * mm + 2) / 5 + d.day + 1721119);
        assert(spec_julian_day_number(y, m + 1, 1) == years_part(y) + (153 * (mm + 1) + 2) / 5 + 1 + 1721119);
        assert((153 * (mm + 1) + 2) / 5 - (153 * mm + 2) / 5 == days_in_month(y, m)) by {
            if m == 3 { } else if m == 4 { } else if m == 5 { } else if m == 6 { } else if m == 7 { }
            else if m == 8 { } else if m == 9 { } else if m == 10 { } else { }
        }
    }
}

/// The day `dd` (from 0) of the month `mm` (from 0, March first) starts at
/// `(153 * mm + 2) / 5 + dd` in the year, from which the month and day are
/// found back.
proof fn lemma_month_day_of_year(mm: int, dd: int)
    requires
        0 <= mm < 12,
        0 <= dd,
        mm == 0 || mm == 2 || mm == 4 || mm == 5 || mm == 7 || mm == 9 || mm == 10 ==> dd < 31,
        mm == 1 || mm == 3 || mm == 6 || mm == 8 ==> dd < 30,
        mm == 11 ==> dd < 29,
    ensures
        ({
            let h = 5 * ((153 * mm + 2) / 5 + dd) + 2;
            &&& h / 153 == mm
            &&& h % 153 / 5 == dd
        }),
{
    let t = (153 * mm + 2) / 5;
    let h = 5 * (t + dd) + 2;
    if mm == 0 { assert(t == 0); }
    else if mm == 1 { assert(t == 31); }
    else if mm == 2 { assert(t == 61); }
    else if mm == 3 { assert(t == 92); }
    else if mm == 4 { assert(t == 122); }
    else if mm == 5 { assert(t == 153); }
    else if mm == 6 { assert(t == 184); }
    else if mm == 7 { assert(t == 214); }
    else if mm == 8 { assert(t == 245); }
    else if mm == 9 { assert(t == 275); }
    else if mm == 10 { assert(t == 306); }
    else { assert(t == 337); }
    let rem = h - 153 * mm;
    assert(0 <= rem < 153);
    vstd::arithmetic::div_mod::lemma_fundamental_div_mod_converse(h, 153, mm, rem);
    vstd::arithmetic::div_mod::lemma_fundamental_div_mod_converse(rem, 5, dd, rem - 5 * dd);
}

/// The day `dd` of the year `y4` of a count of Julian years, found back.
proof fn lemma_julian_year_of_count(y4: int, dd: int)
    requires
        y4 >= 0,
        0 <= dd <= 365,
        dd == 365 ==> y4 % 4 == 3,
    ensures
        ({
            let e = 4 * ((1461 * y4) / 4 + dd) + 3;
            &&& e / 1461 == y4
            &&& e % 1461 / 4 == dd
        }),
{
    let a = y4 / 4;
    let b = y4 % 4;
    assert(y4 == 4 * a + b);
    assert(1461 * y4 == 4 * (1461 * a + 365 * b) + b) by (nonlinear_arith)
        requires
            y4 == 4 * a + b,
    ;
    vstd::arithmetic::div_mod::lemma_fundamental_div_mod_converse(1461 * y4, 4, 1461 * a + 365 * b, b);
    let e = 4 * ((1461 * y4) / 4 + dd) + 3;
    let rem = 4 * dd + 3 - b;
    assert(e == 1461 * y4 + rem) by (nonlinear_arith)
        requires
            e == 4 * ((1461 * y4) / 4 + dd) + 3,
            (1461 * y4) / 4 == 1461 * a + 365 * b,
            y4 == 4 * a + b,
            rem == 4 * dd + 3 - b,
    ;
    assert(0 <= rem < 1461);
    vstd::arithmetic::div_mod::lemma_fundamental_div_mod_converse(e, 1461, y4, rem);
    vstd::arithmetic::div_mod::lemma_fundamental_div_mod_converse(rem, 4, dd, 3 - b);
}

/// The shift of Richards' algorithm turns the Gregorian day number of the
/// day `dd` of the (March first) year `y1` into the matching count of
/// Julian years and days.
proof fn lemma_gregorian_shift(y1: int, dd: int)
    requires
        y1 >= 0,
        0 <= dd <= 365,
        dd == 365 ==> is_leap_year(y1 + 1),
    ensures
        ({
            let c = y1 / 100;
            let r = y1 - 100 * c;
            let j = (146097 * c) / 4 + (1461 * r) / 4 + dd + 1 + 1721119;
            j + 1401 + ((4 * j + 274277) / 146097 * 3) / 4 - 38 == (1461 * (y1 + 4716)) / 4 + dd
        }),
{
    let c = y1 / 100;
    let r = y1 - 100 * c;
    assert(0 <= r < 100);
    assert(c >= 0);
    let q = c / 4;
    let s = c % 4;
    assert(c == 4 * q + s);
    let rq = r / 4;
    let rs = r % 4;
    assert(r == 4 * rq + rs);
    assert(146097 * c == 4 * (36524 * c + q) + s) by (nonlinear_arith)
        requires
            c == 4 * q + s,
    ;
    vstd::arithmetic::div_mod::lemma_fundamental_div_mod_converse(146097 * c, 4, 36524 * c + q, s);
    assert(1461 * r == 4 * (365 * r + rq) + rs) by (nonlinear_arith)
        requires
            r == 4 * rq + rs,
    ;
    vstd::arithmetic::div_mod::lemma_fundamental_div_mod_converse(1461 * r, 4, 365 * r + rq, rs);
    let j = (146097 * c) / 4 + (1461 * r) / 4 + dd + 1 + 1721119;
    let x = 1461 * r - s - rs + 4 * dd + 4;
    assert(4 * j + 274277 == 146097 * (c + 49) + x) by (nonlinear_arith)
        requires
            j == (36524 * c + q) + (365 * r + rq) + dd + 1 + 1721119,
            c == 4 * q + s,
            r == 4 * rq + rs,
            x == 1461 * r - s - rs + 4 * dd + 4,
    ;
    assert(0 <= x);
    let target = (1461 * (y1 + 4716)) / 4 + dd;
    assert(1461 * (y1 + 4716) == 4 * (36525 * c + 365 * r + rq + 1722519) + rs) by (nonlinear_arith)
        requires
            y1 == 100 * c + r,
            r == 4 * rq + rs,
    ;
    vstd::arithmetic::div_mod::lemma_fundamental_div_mod_converse(
        1461 * (y1 + 4716),
        4,
        36525 * c + 365 * r + rq + 1722519,
        rs,
    );
    if x < 146097 {
        vstd::arithmetic::div_mod::lemma_fundamental_div_mod_converse(4 * j + 274277, 146097, c + 49, x);
        let k = 3 * (c + 49);
        assert(k == 4 * (3 * q + 36) + 3 * s + 3);
        if s == 0 {
            vstd::arithmetic::div_mod::lemma_fundamental_div_mod_converse(k, 4, 3 * q + 36, 3);
        } else if s == 1 {
            vstd::arithmetic::div_mod::lemma_fundamental_div_mod_converse(k, 4, 3 * q + 37, 2);
        } else if s == 2 {
            vstd::arithmetic::div_mod::lemma_fundamental_div_mod_converse(k, 4, 3 * q + 38, 1);
        } else {
            vstd::arithmetic::div_mod::lemma_fundamental_div_mod_converse(k, 4, 3 * q + 39, 0);
        }
    } else {
        // The 29th of February of a year divisible by 400.
        assert(r == 99 && dd == 365);
        assert(y1 + 1 == 100 * (c + 1));
        assert((y1 + 1) % 400 == 0);
        assert(s == 3) by {
            let z = y1 + 1;
            assert(z % 400 == 0);
            assert(z == 100 * (4 * q + s + 1));
            assert(z == 400 * q + 100 * (s + 1));
            if s != 3 {
                vstd::arithmetic::div_mod::lemma_fundamental_div_mod_converse(z, 400, q, 100 * (s + 1));
            }
        }
        assert(x < 2 * 146097);
        vstd::arithmetic::div_mod::lemma_fundamental_div_mod_converse(4 * j + 274277, 146097, c + 50, x - 146097);
        let k = 3 * (c + 50);
        assert(k == 4 * (3 * q + 39) + 3);
        vstd::arithmetic::div_mod::lemma_fundamental_div_mod_converse(k, 4, 3 * q + 39, 3);
    }
}

/// The calendar date of the Julian day number of a date of the calendar is
/// the date itself.
#[verifier::spinoff_prover]
pub proof fn lemma_calendar_roundtrip(d: Date)
    requires
        is_calendar_date(d),
    ensures
        spec_gregorian_of_julian(spec_julian_day_number(d.year as int, d.month as int, d.day as int))
            == (d.year as int, d.month as int, d.day as int),
{
    let year = d.year as int;
    let month = d.month as int;
    let day = d.day as int;
    let mm = if month > 2 { month - 3 } else { month + 9 };
    let y1 = if month > 2 { year } else { year - 1 };
    let dd = (153 * mm + 2) / 5 + day - 1;
    lemma_month_day_of_year(mm, day - 1);
    let t = (153 * mm + 2) / 5;
    assert(0 <= t <= 337) by {
        assert(153 * mm + 2 <= 153 * 11 + 2);
        vstd::arithmetic::div_mod::lemma_div_is_ordered(153 * mm + 2, 1685, 5);
    }
    assert(dd <= 365) by {
        if mm == 11 {
            assert(t == 337);
        } else {
            assert(t <= 306) by {
                vstd::arithmetic::div_mod::lemma_div_is_ordered(153 * mm + 2, 1532, 5);
            }
        }
    }
    assert(dd == 365 ==> mm == 11 && day == 29) by {
        if mm < 11 {
            vstd::arithmetic::div_mod::lemma_div_is_ordered(153 * mm + 2, 1532, 5);
        }
    }
    assert(dd == 365 ==> is_leap_year(y1 + 1));
    lemma_gregorian_shift(y1, dd);
    let j = spec_julian_day_number(year, month, day);
    let c = y1 / 100;
    let r = y1 - 100 * c;
    assert(j == (146097 * c) / 4 + (1461 * r) / 4 + dd + 1 + 1721119);
    let y4 = y1 + 4716;
    assert(dd == 365 ==> y4 % 4 == 3);
    lemma_julian_year_of_count(y4, dd);
    lemma_month_day_of_year(mm, day - 1);
}


/// A date of the calendar whose Julian day number can be converted back is
/// given back by that conversion.
pub proof fn lemma_calendar_date_roundtrips(d: Date)
    requires
        is_calendar_date(d),
        spec_julian_day_number(d.year as int, d.month as int, d.day as int) <= MAX_JULIAN_DAY_NUMBER,
    ensures
        calendar_roundtrips(d),
{
    lemma_calendar_roundtrip(d);
    let month = d.month as int;
    let y1 = if month > 2 { d.year as int } else { d.year as int - 1 };
    let c = y1 / 100;
    let r = y1 - 100 * c;
    assert(c >= 0 && r >= 0);
    vstd::arithmetic::div_mod::lemma_div_pos_is_pos(146097 * c, 4);
    vstd::arithmetic::div_mod::lemma_div_pos_is_pos(1461 * r, 4);
}

} // verus!
