//! Calendar and clock value types: eras, formattable years and months,
//! bounded time-of-day components, a time of day built from them, day
//! and week counters, and ISO weekdays.

use crate::tinystr::{TinyStr4, TinyStr16};
use vstd::prelude::*;

verus! {

/// An era code: a short ASCII identifier of the era a year counts in.
#[derive(Clone, Debug, PartialEq, Eq)]
pub struct Era(pub TinyStr16);

impl From<TinyStr16> for Era {
    fn from(x: TinyStr16) -> (r: Self) {
        Era(x)
    }
}

impl vstd::std_specs::convert::FromSpecImpl<TinyStr16> for Era {
    open spec fn obeys_from_spec() -> bool {
        true
    }

    open spec fn from_spec(v: TinyStr16) -> Self {
        Era(v)
    }
}

/// A formattable year: its era, its number within the era, and the
/// related ISO year where the calendar uses one.
#[derive(Clone, Debug, PartialEq)]
pub struct FormattableYear {
    /// The era containing the year.
    pub era: Era,
    /// The year number in the current era (usually 1-based).
    pub number: i32,
    /// The related ISO year, where the calendar typically uses one.
    pub related_iso: Option<i32>,
}

impl FormattableYear {
    /// A year from an era and number; the related ISO year starts out
    /// unset and can be filled in afterwards.
    pub fn new(era: Era, number: i32) -> (r: Self)
        ensures
            r == (FormattableYear { era, number, related_iso: None::<i32> }),
    {
        Self { era, number, related_iso: None }
    }
}

/// A month code: a short ASCII identifier that distinguishes months
/// across leap years.
#[derive(Clone, Debug, PartialEq, Eq, Hash)]
pub struct MonthCode(pub TinyStr4);

impl From<TinyStr4> for MonthCode {
    fn from(x: TinyStr4) -> (r: Self) {
        MonthCode(x)
    }
}

impl vstd::std_specs::convert::FromSpecImpl<TinyStr4> for MonthCode {
    open spec fn obeys_from_spec() -> bool {
        true
    }

    open spec fn from_spec(v: TinyStr4) -> Self {
        MonthCode(v)
    }
}

/// A formattable month: its ordinal within the year and its month code.
#[derive(Clone, Debug, PartialEq)]
pub struct FormattableMonth {
    /// The month number in its year; months after a leap month carry an
    /// incremented number.
    pub ordinal: u32,
    /// The month code, which distinguishes months during leap years.
    pub code: MonthCode,
}

/// The position of a day within its year, with the years around it.
#[derive(Clone, Debug, PartialEq)]
pub struct DayOfYearInfo {
    /// The current day of the year, 1-based.
    pub day_of_year: u32,
    /// The number of days in the year.
    pub days_in_year: u32,
    /// The previous year.
    pub prev_year: FormattableYear,
    /// The number of days in the previous year.
    pub days_in_prev_year: u32,
    /// The next year.
    pub next_year: FormattableYear,
}

/// The error a time-of-day component outside its bounds produces.
#[derive(Clone, Copy, Debug, PartialEq, Eq)]
pub enum DateTimeError {
    /// A component exceeded `max`, the largest value its field allows.
    Overflow { field: &'static str, max: usize },
}

/// An ISO-8601 hour component, within inclusive bounds `[0, 24]`.
#[derive(Debug, Default, Clone, Copy, PartialEq, Eq, Ord, PartialOrd, Hash, Structural)]
pub struct IsoHour(pub u8);

impl IsoHour {
    /// The numeric value of this component.
    pub fn number(&self) -> (r: u8)
        ensures
            r == self.0,
    {
        self.0
    }

    /// Adds, `Some` only while the sum stays within bounds.
    pub fn try_add(self, other: u8) -> (r: Option<Self>)
        ensures
            r == if self.0 + other <= 24 {
                Some(IsoHour((self.0 + other) as u8))
            } else {
                None::<IsoHour>
            },
    {
        let sum = self.0.saturating_add(other);
        if sum > 24 {
            None
        } else {
            Some(IsoHour(sum))
        }
    }

    /// Subtracts, `Some` only while the difference stays at or above
    /// zero.
    pub fn try_sub(self, other: u8) -> (r: Option<Self>)
        ensures
            r == if self.0 >= other {
                Some(IsoHour((self.0 - other) as u8))
            } else {
                None::<IsoHour>
            },
    {
        match self.0.checked_sub(other) {
            Some(d) => Some(IsoHour(d)),
            None => None,
        }
    }
}

/// An ISO-8601 minute component, within inclusive bounds `[0, 60]`.
#[derive(Debug, Default, Clone, Copy, PartialEq, Eq, Ord, PartialOrd, Hash, Structural)]
pub struct IsoMinute(pub u8);

impl IsoMinute {
    /// The numeric value of this component.
    pub fn number(&self) -> (r: u8)
        ensures
            r == self.0,
    {
        self.0
    }

    /// Adds, `Some` only while the sum stays within bounds.
    pub fn try_add(self, other: u8) -> (r: Option<Self>)
        ensures
            r == if self.0 + other <= 60 {
                Some(IsoMinute((self.0 + other) as u8))
            } else {
                None::<IsoMinute>
            },
    {
        let sum = self.0.saturating_add(other);
        if sum > 60 {
            None
        } else {
            Some(IsoMinute(sum))
        }
    }

    /// Subtracts, `Some` only while the difference stays at or above
    /// zero.
    pub fn try_sub(self, other: u8) -> (r: Option<Self>)
        ensures
            r == if self.0 >= other {
                Some(IsoMinute((self.0 - other) as u8))
            } else {
                None::<IsoMinute>
            },
    {
        match self.0.checked_sub(other) {
            Some(d) => Some(IsoMinute(d)),
            None => None,
        }
    }
}

/// An ISO-8601 second component, within inclusive bounds `[0, 61]`.
#[derive(Debug, Default, Clone, Copy, PartialEq, Eq, Ord, PartialOrd, Hash, Structural)]
pub struct IsoSecond(pub u8);

impl IsoSecond {
    /// The numeric value of this component.
    pub fn number(&self) -> (r: u8)
        ensures
            r == self.0,
    {
        self.0
    }

    /// Adds, `Some` only while the sum stays within bounds.
    pub fn try_add(self, other: u8) -> (r: Option<Self>)
        ensures
            r == if self.0 + other <= 61 {
                Some(IsoSecond((self.0 + other) as u8))
            } else {
                None::<IsoSecond>
            },
    {
        let sum = self.0.saturating_add(other);
        if sum > 61 {
            None
        } else {
            Some(IsoSecond(sum))
        }
    }

    /// Subtracts, `Some` only while the difference stays at or above
    /// zero.
    pub fn try_sub(self, other: u8) -> (r: Option<Self>)
        ensures
            r == if self.0 >= other {
                Some(IsoSecond((self.0 - other) as u8))
            } else {
                None::<IsoSecond>
            },
    {
        match self.0.checked_sub(other) {
            Some(d) => Some(IsoSecond(d)),
            None => None,
        }
    }
}

/// A fractional second component in nanoseconds, within inclusive
/// bounds `[0, 999_999_999]`.
#[derive(Debug, Default, Clone, Copy, PartialEq, Eq, Ord, PartialOrd, Hash, Structural)]
pub struct NanoSecond(pub u32);

impl NanoSecond {
    /// The numeric value of this component.
    pub fn number(&self) -> (r: u32)
        ensures
            r == self.0,
    {
        self.0
    }

    /// Adds, `Some` only while the sum stays within bounds.
    pub fn try_add(self, other: u32) -> (r: Option<Self>)
        ensures
            r == if self.0 + other <= 999_999_999 {
                Some(NanoSecond((self.0 + other) as u32))
            } else {
                None::<NanoSecond>
            },
    {
        let sum = self.0.saturating_add(other);
        if sum > 999_999_999 {
            None
        } else {
            Some(NanoSecond(sum))
        }
    }

    /// Subtracts, `Some` only while the difference stays at or above
    /// zero.
    pub fn try_sub(self, other: u32) -> (r: Option<Self>)
        ensures
            r == if self.0 >= other {
                Some(NanoSecond((self.0 - other) as u32))
            } else {
                None::<NanoSecond>
            },
    {
        match self.0.checked_sub(other) {
            Some(d) => Some(NanoSecond(d)),
            None => None,
        }
    }
}

/// A time of day: hour, minute, second and fractional second, all
/// zero-based.
#[derive(Debug, Copy, Clone, Eq, PartialEq, Ord, PartialOrd, Hash, Structural)]
pub struct Time {
    /// 0-based hour.
    pub hour: IsoHour,
    /// 0-based minute.
    pub minute: IsoMinute,
    /// 0-based second.
    pub second: IsoSecond,
    /// Fractional second.
    pub nanosecond: NanoSecond,
}

impl Time {
    /// Assembles a time from components, without validating their
    /// numeric values.
    pub fn new(hour: IsoHour, minute: IsoMinute, second: IsoSecond, nanosecond: NanoSecond) -> (r:
        Self)
        ensures
            r == (Time { hour, minute, second, nanosecond }),
    {
        Self { hour, minute, second, nanosecond }
    }

    /// Assembles a time from numeric components, validating each
    /// against its bounds; the first component out of bounds names the
    /// error.
    pub fn try_new(hour: u8, minute: u8, second: u8, nanosecond: u32) -> (r: Result<
        Self,
        DateTimeError,
    >)
        ensures
            r is Ok <==> (hour <= 24 && minute <= 60 && second <= 61 && nanosecond
                <= 999_999_999),
            r is Ok ==> r->Ok_0 == (Time {
                hour: IsoHour(hour),
                minute: IsoMinute(minute),
                second: IsoSecond(second),
                nanosecond: NanoSecond(nanosecond),
            }),
            hour > 24 ==> (r matches Err(DateTimeError::Overflow { field: _, max }) && max == 24),
            hour <= 24 && minute > 60 ==> (r matches Err(DateTimeError::Overflow { field: _, max })
                && max == 60),
            hour <= 24 && minute <= 60 && second > 61 ==> (r matches Err(
                DateTimeError::Overflow { field: _, max },
            ) && max == 61),
            hour <= 24 && minute <= 60 && second <= 61 && nanosecond > 999_999_999 ==> (r matches
                Err(DateTimeError::Overflow { field: _, max }) && max == 999_999_999),
    {
        if hour > 24 {
            return Err(DateTimeError::Overflow { field: "hour", max: 24 });
        }
        if minute > 60 {
            return Err(DateTimeError::Overflow { field: "minute", max: 60 });
        }
        if second > 61 {
            return Err(DateTimeError::Overflow { field: "second", max: 61 });
        }
        if nanosecond > 999_999_999 {
            return Err(DateTimeError::Overflow { field: "nanosecond", max: 999_999_999 });
        }
        Ok(
            Self {
                hour: IsoHour(hour),
                minute: IsoMinute(minute),
                second: IsoSecond(second),
                nanosecond: NanoSecond(nanosecond),
            },
        )
    }
}

/// A day number in a month. Usually 1-based.
#[derive(Clone, Copy, Debug, PartialEq, Eq, Structural)]
pub struct DayOfMonth(pub u32);

/// A week number in a month. Usually 1-based.
#[derive(Clone, Copy, Debug, PartialEq, Eq, Structural)]
pub struct WeekOfMonth(pub u32);

/// A week number in a year. Usually 1-based.
#[derive(Clone, Copy, Debug, PartialEq, Eq, Structural)]
pub struct WeekOfYear(pub u32);

/// A day of week in month: which occurrence of its weekday the day is
/// within the month. 1-based.
#[derive(Clone, Copy, Debug, PartialEq, Eq, Structural)]
pub struct DayOfWeekInMonth(pub u32);

/// The occurrence a 1-based day of the month is of its weekday: day 1
/// through 7 give 1, day 8 through 14 give 2, and so on.
pub open spec fn spec_day_of_week_in_month(day_of_month: DayOfMonth) -> DayOfWeekInMonth {
    if day_of_month.0 >= 1 {
        DayOfWeekInMonth((1 + (day_of_month.0 - 1) / 7) as u32)
    } else {
        DayOfWeekInMonth(1)
    }
}

impl From<DayOfMonth> for DayOfWeekInMonth {
    fn from(day_of_month: DayOfMonth) -> (r: Self) {
        DayOfWeekInMonth(1 + day_of_month.0.saturating_sub(1) / 7)
    }
}

impl vstd::std_specs::convert::FromSpecImpl<DayOfMonth> for DayOfWeekInMonth {
    open spec fn obeys_from_spec() -> bool {
        true
    }

    open spec fn from_spec(v: DayOfMonth) -> Self {
        spec_day_of_week_in_month(v)
    }
}

/// A weekday in a 7-day week, following ISO-8601's numbering of Monday
/// as 1 through Sunday as 7.
#[derive(Clone, Copy, Debug, PartialEq, Eq, Structural)]
pub enum IsoWeekday {
    Monday,
    Tuesday,
    Wednesday,
    Thursday,
    Friday,
    Saturday,
    Sunday,
}

/// The weekday an ISO-8601 weekday number denotes, the number taken
/// modulo 7 with 0 standing for Sunday.
pub open spec fn spec_weekday_from(input: int) -> IsoWeekday {
    let ord = input % 7;
    if ord == 1 {
        IsoWeekday::Monday
    } else if ord == 2 {
        IsoWeekday::Tuesday
    } else if ord == 3 {
        IsoWeekday::Wednesday
    } else if ord == 4 {
        IsoWeekday::Thursday
    } else if ord == 5 {
        IsoWeekday::Friday
    } else if ord == 6 {
        IsoWeekday::Saturday
    } else {
        IsoWeekday::Sunday
    }
}

impl From<usize> for IsoWeekday {
    /// Converts an ISO-8601 weekday number, interpreted modulo 7 with 0
    /// standing in for 7 (Sunday).
    fn from(input: usize) -> (r: Self) {
        let ord = input % 7;
        if ord == 1 {
            IsoWeekday::Monday
        } else if ord == 2 {
            IsoWeekday::Tuesday
        } else if ord == 3 {
            IsoWeekday::Wednesday
        } else if ord == 4 {
            IsoWeekday::Thursday
        } else if ord == 5 {
            IsoWeekday::Friday
        } else if ord == 6 {
            IsoWeekday::Saturday
        } else {
            IsoWeekday::Sunday
        }
    }
}

impl vstd::std_specs::convert::FromSpecImpl<usize> for IsoWeekday {
    open spec fn obeys_from_spec() -> bool {
        true
    }

    open spec fn from_spec(v: usize) -> Self {
        spec_weekday_from(v as int)
    }
}

} // verus!
