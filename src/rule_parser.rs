//! The parsers with signatures that take owned strings throughout and give the
//! weekday list as an option.

use vstd::prelude::*;
use crate::api::{DateTime, Recur, Rule, RuleError, WeekdayOption};
use crate::rule::{
    date_text, has_schedule, parsed_line, recur_of, schedule_of, weekday_list, weekday_token,
};
use crate::stamp::canonical_text;
use crate::text::words;

verus! {

/// Takes a line such as `[2018-01-01 00:00 a] New Years`.
pub fn parse(line: &String) -> (r: Result<Option<Rule>, RuleError>)
    ensures
        parsed_line(line@, r),
        forall|d: DateTime|
            has_schedule(line@) && words(schedule_of(line@)).len() >= 2 && #[trigger] canonical_text(
                d,
            ) == date_text(words(schedule_of(line@))) && d.valid() && 0 <= d.year <= 9999
                ==> (r matches Ok(Some(rule)) && rule.epoch_date == d),
{
    crate::rule::parse(line)
}

/// Takes a comma-separated list such as "1wed,4fri"; the list is always there,
/// tokens that are not weekdays are left out of it.
pub fn parse_weekdays(option: &String) -> (r: Option<Vec<WeekdayOption>>)
    ensures
        r matches Some(v) && v@ == weekday_list(option@),
{
    Some(crate::rule::parse_weekdays(option))
}

/// Takes a token such as "mon" or "4thu".
pub fn parse_weekday(option: &String) -> (r: Option<WeekdayOption>)
    ensures
        r == weekday_token(option@),
{
    crate::rule::parse_weekday(option)
}

/// Takes a code such as "a", "m", "w", "d".
pub fn parse_recur(option: &String) -> (r: Option<Recur>)
    ensures
        r == recur_of(option@),
{
    crate::rule::parse_recur(option.as_str())
}

} // verus!
