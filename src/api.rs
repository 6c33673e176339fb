//! The values that a parsed reminder line is made of.

use vstd::prelude::*;

verus! {

/// How often a rule repeats.
#[allow(non_camel_case_types)]
#[derive(Debug, Clone, Copy, PartialEq, Eq, Structural)]
pub enum Recur {
    ANNUALLY,
    MONTHLY,
    WEEKLY,
    DAILY,
}

/// A day of the week.
#[allow(non_camel_case_types)]
#[derive(Debug, Clone, Copy, PartialEq, Eq, Structural)]
pub enum Weekday {
    MON,
    TUE,
    WED,
    THU,
    FRI,
    SAT,
    SUN,
}

/// A weekday with an ordinal: offset 0 means "every such weekday",
/// 1 to 9 mean "the n-th such weekday of the period".
#[derive(Debug, Clone, Copy, PartialEq, Eq, Structural)]
pub struct WeekdayOption {
    pub offset: u8,
    pub weekday: Weekday,
}

/// A calendar date and a time of day to the minute, without a time zone.
#[derive(Debug, Clone, Copy, PartialEq, Eq, Structural)]
pub struct DateTime {
    pub year: i32,
    pub month: u32,
    pub day: u32,
    pub hour: u32,
    pub minute: u32,
}

/// What one reminder line describes.
#[derive(Debug)]
pub struct Rule {
    pub epoch_date: DateTime,
    pub recurring: Option<Recur>,
    pub options: Vec<WeekdayOption>,
    pub description: String,
}

/// Why a line with a schedule expression could not become a rule.
#[derive(Debug)]
pub enum RuleError {
    /// The date and time at the start of the schedule expression are missing or
    /// malformed; the schedule expression is carried along.
    MalformedDate(String),
}

pub open spec fn is_leap_year(y: int) -> bool {
    (y % 4 == 0 && y % 100 != 0) || y % 400 == 0
}

pub open spec fn days_in_month(y: int, m: int) -> int {
    if m == 2 {
        if is_leap_year(y) { 29 } else { 28 }
    } else if m == 4 || m == 6 || m == 9 || m == 11 {
        30
    } else {
        31
    }
}

impl DateTime {
    /// A real calendar day and a time between 00:00 and 23:59.
    pub open spec fn valid(self) -> bool {
        &&& 1 <= self.month <= 12
        &&& 1 <= self.day <= days_in_month(self.year as int, self.month as int)
        &&& self.hour <= 23
        &&& self.minute <= 59
    }
}

} // verus!
