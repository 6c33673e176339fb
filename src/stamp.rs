//! Reading the anchor date and time of a schedule expression.

use vstd::prelude::*;
use chrono::{Datelike, NaiveDateTime, Timelike};
use crate::api::DateTime;

verus! {

/// The format of an anchor: `%Y-%m-%d %H:%M`.
pub open spec fn anchor_format() -> Seq<char> {
    seq!['%', 'Y', '-', '%', 'm', '-', '%', 'd', ' ', '%', 'H', ':', '%', 'M']
}

/// The character of a decimal digit `v`, 0 to 9.
pub open spec fn decimal_digit(v: int) -> char {
    seq!['0', '1', '2', '3', '4', '5', '6', '7', '8', '9'][v]
}

/// The last `width` decimal digits of a non-negative `v`, zero-padded.
pub open spec fn padded(v: int, width: nat) -> Seq<char>
    decreases width,
{
    if width == 0 {
        Seq::empty()
    } else {
        padded(v / 10, (width - 1) as nat).push(decimal_digit(v % 10))
    }
}

/// `d` written as `YYYY-MM-DD HH:MM`, every field zero-padded.
pub open spec fn canonical_text(d: DateTime) -> Seq<char> {
    padded(d.year as int, 4) + seq!['-'] + padded(d.month as int, 2) + seq!['-'] + padded(
        d.day as int,
        2,
    ) + seq![' '] + padded(d.hour as int, 2) + seq![':'] + padded(d.minute as int, 2)
}

/// What `NaiveDateTime::parse_from_str(s, fmt)` yields, as calendar fields.
pub uninterp spec fn parsed_datetime(s: Seq<char>, fmt: Seq<char>) -> Option<DateTime>;

/// Relies on chrono's `NaiveDateTime::parse_from_str`: the outcome depends on the
/// text and the format alone, a value it yields is always a real date and time, and
/// a real date and time of the years 0 to 9999 written as `YYYY-MM-DD HH:MM` reads
/// back under the format `%Y-%m-%d %H:%M` as itself.
#[verifier::external_body]
pub(crate) fn read_datetime(s: &str, fmt: &str) -> (r: Option<DateTime>)
    ensures
        r == parsed_datetime(s@, fmt@),
        r matches Some(d) ==> d.valid(),
        forall|d: DateTime|
            #[trigger] canonical_text(d) == s@ && fmt@ == anchor_format() && d.valid() && 0
                <= d.year <= 9999 ==> r == Some(d),
{
    match NaiveDateTime::parse_from_str(s, fmt) {
        Ok(d) => Some(
            DateTime {
                year: d.year(),
                month: d.month(),
                day: d.day(),
                hour: d.hour(),
                minute: d.minute(),
            },
        ),
        Err(_) => None,
    }
}

} // verus!
