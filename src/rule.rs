//! The grammar of a reminder line and its parsers.

use vstd::prelude::*;
use crate::api::{DateTime, Recur, Rule, RuleError, Weekday, WeekdayOption};
use crate::stamp::{anchor_format, canonical_text, parsed_datetime, read_datetime};
use crate::text::{
    copy_range, find_char, find_from, split_char, split_on, split_words, trim, trim_blanks,
    views_of, words,
};

verus! {

/// The cadence that a recurrence code names, compared exactly.
pub open spec fn recur_of(s: Seq<char>) -> Option<Recur> {
    if s == seq!['a'] {
        Some(Recur::ANNUALLY)
    } else if s == seq!['m'] {
        Some(Recur::MONTHLY)
    } else if s == seq!['w'] {
        Some(Recur::WEEKLY)
    } else if s == seq!['d'] {
        Some(Recur::DAILY)
    } else {
        None
    }
}

/// Takes a code such as "a", "m", "w", "d".
pub fn parse_recur(option: &str) -> (r: Option<Recur>)
    ensures
        r == recur_of(option@),
{
    if option.unicode_len() != 1 {
        proof {
            assert(option@ != seq!['a'] && option@ != seq!['m']);
            assert(option@ != seq!['w'] && option@ != seq!['d']);
        }
        return None;
    }
    let c = option.get_char(0);
    proof {
        assert(option@ =~= seq![c]);
    }
    if c == 'a' {
        Some(Recur::ANNUALLY)
    } else if c == 'm' {
        Some(Recur::MONTHLY)
    } else if c == 'w' {
        Some(Recur::WEEKLY)
    } else if c == 'd' {
        Some(Recur::DAILY)
    } else {
        proof {
            assert(seq![c][0] != seq!['a'][0]);
            assert(seq![c][0] != seq!['m'][0]);
            assert(seq![c][0] != seq!['w'][0]);
            assert(seq![c][0] != seq!['d'][0]);
        }
        None
    }
}

/// The three-letter lowercase abbreviation of a weekday.
pub open spec fn abbrev(w: Weekday) -> Seq<char> {
    match w {
        Weekday::MON => seq!['m', 'o', 'n'],
        Weekday::TUE => seq!['t', 'u', 'e'],
        Weekday::WED => seq!['w', 'e', 'd'],
        Weekday::THU => seq!['t', 'h', 'u'],
        Weekday::FRI => seq!['f', 'r', 'i'],
        Weekday::SAT => seq!['s', 'a', 't'],
        Weekday::SUN => seq!['s', 'u', 'n'],
    }
}

/// The weekday whose abbreviation is exactly `s`.
pub open spec fn weekday_of(s: Seq<char>) -> Option<Weekday> {
    if s == abbrev(Weekday::MON) {
        Some(Weekday::MON)
    } else if s == abbrev(Weekday::TUE) {
        Some(Weekday::TUE)
    } else if s == abbrev(Weekday::WED) {
        Some(Weekday::WED)
    } else if s == abbrev(Weekday::THU) {
        Some(Weekday::THU)
    } else if s == abbrev(Weekday::FRI) {
        Some(Weekday::FRI)
    } else if s == abbrev(Weekday::SAT) {
        Some(Weekday::SAT)
    } else if s == abbrev(Weekday::SUN) {
        Some(Weekday::SUN)
    } else {
        None
    }
}

pub open spec fn is_digit(c: char) -> bool {
    '0' <= c <= '9'
}

pub open spec fn digit_value(c: char) -> int {
    c as int - '0' as int
}

/// A weekday token: one digit and an abbreviation, the digit being the offset,
/// or an abbreviation alone with offset 0. The token must be exactly that.
pub open spec fn weekday_token(s: Seq<char>) -> Option<WeekdayOption> {
    if s.len() == 4 && is_digit(s[0]) && weekday_of(s.subrange(1, 4)) is Some {
        Some(
            WeekdayOption {
                offset: digit_value(s[0]) as u8,
                weekday: weekday_of(s.subrange(1, 4))->Some_0,
            },
        )
    } else {
        match weekday_of(s) {
            Some(w) => Some(WeekdayOption { offset: 0, weekday: w }),
            None => None,
        }
    }
}

/// The qualifiers of the recognised tokens among `ps`, in order.
pub open spec fn keep_options(ps: Seq<Seq<char>>) -> Seq<WeekdayOption>
    decreases ps.len(),
{
    if ps.len() == 0 {
        Seq::empty()
    } else {
        let init = keep_options(ps.drop_last());
        match weekday_token(ps.last()) {
            Some(o) => init.push(o),
            None => init,
        }
    }
}

/// The qualifiers of a comma-separated list, unrecognised tokens left out.
pub open spec fn weekday_list(s: Seq<char>) -> Seq<WeekdayOption> {
    if s.len() == 0 {
        Seq::empty()
    } else {
        keep_options(split_on(s, ','))
    }
}

proof fn lemma_three_chars_eq(t: Seq<char>, u: Seq<char>)
    requires
        t.len() == 3,
        u.len() == 3,
    ensures
        t == u <==> (t[0] == u[0] && t[1] == u[1] && t[2] == u[2]),
{
    if t[0] == u[0] && t[1] == u[1] && t[2] == u[2] {
        assert(t =~= u);
    }
}

/// The weekday abbreviated by the three characters of `s` from `i`.
fn weekday_at(s: &str, i: usize) -> (r: Option<Weekday>)
    requires
        i <= 1,
        i + 3 <= s@.len(),
    ensures
        r == weekday_of(s@.subrange(i as int, i + 3)),
{
    let a = s.get_char(i);
    let b = s.get_char(i + 1);
    let c = s.get_char(i + 2);
    let ghost t = s@.subrange(i as int, i + 3);
    proof {
        lemma_three_chars_eq(t, abbrev(Weekday::MON));
        lemma_three_chars_eq(t, abbrev(Weekday::TUE));
        lemma_three_chars_eq(t, abbrev(Weekday::WED));
        lemma_three_chars_eq(t, abbrev(Weekday::THU));
        lemma_three_chars_eq(t, abbrev(Weekday::FRI));
        lemma_three_chars_eq(t, abbrev(Weekday::SAT));
        lemma_three_chars_eq(t, abbrev(Weekday::SUN));
    }
    if a == 'm' && b == 'o' && c == 'n' {
        Some(Weekday::MON)
    } else if a == 't' && b == 'u' && c == 'e' {
        Some(Weekday::TUE)
    } else if a == 'w' && b == 'e' && c == 'd' {
        Some(Weekday::WED)
    } else if a == 't' && b == 'h' && c == 'u' {
        Some(Weekday::THU)
    } else if a == 'f' && b == 'r' && c == 'i' {
        Some(Weekday::FRI)
    } else if a == 's' && b == 'a' && c == 't' {
        Some(Weekday::SAT)
    } else if a == 's' && b == 'u' && c == 'n' {
        Some(Weekday::SUN)
    } else {
        None
    }
}

/// Takes a token such as "mon" or "4thu".
pub fn parse_weekday(option: &String) -> (r: Option<WeekdayOption>)
    ensures
        r == weekday_token(option@),
{
    let s = option.as_str();
    let n = s.unicode_len();
    if n == 4 {
        let c = s.get_char(0);
        if '0' <= c && c <= '9' {
            match weekday_at(s, 1) {
                Some(w) => {
                    return Some(WeekdayOption { offset: (c as u32 - '0' as u32) as u8, weekday: w });
                },
                None => {},
            }
        }
    }
    if n == 3 {
        proof {
            assert(s@.subrange(0, 3) =~= s@);
        }
        match weekday_at(s, 0) {
            Some(w) => Some(WeekdayOption { offset: 0, weekday: w }),
            None => None,
        }
    } else {
        None
    }
}

/// Takes a comma-separated list such as "mon", "4thu", "1wed,4fri", "mon,tue,wed";
/// tokens that are not weekdays are left out.
pub fn parse_weekdays(options: &String) -> (r: Vec<WeekdayOption>)
    ensures
        r@ == weekday_list(options@),
{
    if options.unicode_len() == 0 {
        return Vec::new();
    }
    let pieces = split_char(options.as_str(), ',');
    let ghost ps = views_of(pieces@);
    let mut acc: Vec<WeekdayOption> = Vec::new();
    let mut i: usize = 0;
    proof {
        assert(ps.subrange(0, 0) =~= Seq::<Seq<char>>::empty());
    }
    while i < pieces.len()
        invariant
            ps == views_of(pieces@),
            ps == split_on(options@, ','),
            i <= pieces.len(),
            acc@ == keep_options(ps.subrange(0, i as int)),
        decreases pieces.len() - i,
    {
        proof {
            assert(ps.subrange(0, i + 1).drop_last() =~= ps.subrange(0, i as int));
            assert(ps[i as int] == pieces@[i as int]@);
        }
        match parse_weekday(&pieces[i]) {
            Some(o) => acc.push(o),
            None => {},
        }
        i = i + 1;
    }
    proof {
        assert(ps.subrange(0, i as int) =~= ps);
    }
    acc
}

/// Index of the first `[` of a line.
pub open spec fn open_at(s: Seq<char>) -> int {
    find_from(s, '[', 0)
}

/// Index of the first `]` after the first `[` of a line.
pub open spec fn close_at(s: Seq<char>) -> int {
    find_from(s, ']', open_at(s) + 1)
}

/// The line holds a `[` and, after it, a `]`.
pub open spec fn has_schedule(s: Seq<char>) -> bool {
    open_at(s) < s.len() && close_at(s) < s.len()
}

/// The text between the first `[` and the `]` that closes it.
pub open spec fn schedule_of(s: Seq<char>) -> Seq<char> {
    s.subrange(open_at(s) + 1, close_at(s))
}

/// The text after the `]` that closes the schedule expression.
pub open spec fn after_schedule(s: Seq<char>) -> Seq<char> {
    s.subrange(close_at(s) + 1, s.len() as int)
}

/// The date word and the time word of a schedule expression, joined by one space.
pub open spec fn date_text(t: Seq<Seq<char>>) -> Seq<char> {
    t[0] + seq![' '] + t[1]
}

/// The anchor read from the first two words of a schedule expression.
pub open spec fn schedule_anchor(schedule: Seq<char>) -> Option<DateTime> {
    let t = words(schedule);
    if t.len() >= 2 {
        parsed_datetime(date_text(t), anchor_format())
    } else {
        None
    }
}

/// `rule` is what a schedule expression, the text after it, and the anchor read
/// from it make: the third word gives the cadence, the fourth the qualifiers.
pub open spec fn rule_built(
    schedule: Seq<char>,
    description: Seq<char>,
    anchor: Option<DateTime>,
    rule: Rule,
) -> bool {
    let t = words(schedule);
    &&& t.len() >= 2
    &&& anchor == Some(rule.epoch_date)
    &&& rule.recurring == if t.len() > 2 {
        recur_of(t[2])
    } else {
        None
    }
    &&& rule.options@ == if t.len() > 3 {
        weekday_list(t[3])
    } else {
        Seq::empty()
    }
    &&& rule.description@ == trim(description)
}

/// `e` rejects a schedule expression whose date and time are missing or unreadable.
pub open spec fn date_rejected(schedule: Seq<char>, anchor: Option<DateTime>, e: RuleError) -> bool {
    &&& words(schedule).len() < 2 || anchor is None
    &&& e matches RuleError::MalformedDate(m) && m@ == schedule
}

/// Makes the rule of a schedule expression and the text that follows it, given the
/// anchor that was read from the expression's first two words.
pub fn rule_from_parts(schedule: &str, description: &str, anchor: Option<DateTime>) -> (r: Result<
    Rule,
    RuleError,
>)
    ensures
        match r {
            Ok(rule) => rule_built(schedule@, description@, anchor, rule),
            Err(e) => date_rejected(schedule@, anchor, e),
        },
{
    let t = split_words(schedule);
    proof {
        assert(views_of(t@).len() == t@.len());
    }
    if t.len() < 2 {
        return Err(RuleError::MalformedDate(String::from_str(schedule)));
    }
    match anchor {
        None => Err(RuleError::MalformedDate(String::from_str(schedule))),
        Some(d) => {
            let recurring = if t.len() > 2 {
                proof {
                    assert(views_of(t@)[2] == t@[2]@);
                }
                parse_recur(t[2].as_str())
            } else {
                None
            };
            let options = if t.len() > 3 {
                proof {
                    assert(views_of(t@)[3] == t@[3]@);
                }
                parse_weekdays(&t[3])
            } else {
                Vec::new()
            };
            let description = trim_blanks(description);
            Ok(Rule { epoch_date: d, recurring, options, description })
        },
    }
}

/// `r` is what parsing `line` gives: nothing without a bracketed schedule
/// expression, else the rule that the expression and the text after it make, or
/// the rejection of its date and time.
pub open spec fn parsed_line(line: Seq<char>, r: Result<Option<Rule>, RuleError>) -> bool {
    match r {
        Ok(None) => !has_schedule(line),
        Ok(Some(rule)) => has_schedule(line) && rule_built(
            schedule_of(line),
            after_schedule(line),
            schedule_anchor(schedule_of(line)),
            rule,
        ),
        Err(e) => has_schedule(line) && date_rejected(
            schedule_of(line),
            schedule_anchor(schedule_of(line)),
            e,
        ),
    }
}

/// Takes a line such as `[2018-01-01 00:00 a] New Years`. A line without a
/// bracketed schedule expression gives `Ok(None)`; one whose date and time are
/// missing or malformed gives an error. A schedule expression that starts with a
/// real date and time written `YYYY-MM-DD HH:MM` always gives a rule.
pub fn parse(line: &String) -> (r: Result<Option<Rule>, RuleError>)
    ensures
        parsed_line(line@, r),
        forall|d: DateTime|
            has_schedule(line@) && words(schedule_of(line@)).len() >= 2 && #[trigger] canonical_text(
                d,
            ) == date_text(words(schedule_of(line@))) && d.valid() && 0 <= d.year <= 9999
                ==> (r matches Ok(Some(rule)) && rule.epoch_date == d),
{
    let s = line.as_str();
    let n = s.unicode_len();
    let open = find_char(s, '[', 0);
    if open == n {
        return Ok(None);
    }
    let close = find_char(s, ']', open + 1);
    if close == n {
        return Ok(None);
    }
    let schedule = copy_range(s, open + 1, close);
    let description = copy_range(s, close + 1, n);
    let t = split_words(schedule.as_str());
    proof {
        assert(views_of(t@).len() == t@.len());
    }
    let anchor = if t.len() >= 2 {
        let mut text = t[0].clone();
        text.append(" ");
        text.append(t[1].as_str());
        let fmt = "%Y-%m-%d %H:%M";
        proof {
            reveal_strlit(" ");
            reveal_strlit("%Y-%m-%d %H:%M");
            assert(views_of(t@)[0] == t@[0]@);
            assert(views_of(t@)[1] == t@[1]@);
            assert(text@ =~= date_text(words(schedule@)));
            assert(fmt@ =~= anchor_format());
        }
        read_datetime(text.as_str(), fmt)
    } else {
        None
    };
    match rule_from_parts(schedule.as_str(), description.as_str(), anchor) {
        Ok(rule) => Ok(Some(rule)),
        Err(e) => Err(e),
    }
}

/// Each weekday's abbreviation alone is a token with offset 0 and that weekday.
pub proof fn lemma_abbrev_alone(w: Weekday)
    ensures
        weekday_token(abbrev(w)) == Some(WeekdayOption { offset: 0, weekday: w }),
{
}

/// A digit followed by a weekday's abbreviation is a token whose offset is the
/// digit's value and whose weekday is that weekday.
pub proof fn lemma_digit_abbrev(c: char, w: Weekday)
    requires
        is_digit(c),
    ensures
        weekday_token(seq![c] + abbrev(w)) == Some(
            WeekdayOption { offset: digit_value(c) as u8, weekday: w },
        ),
        0 <= digit_value(c) <= 9,
{
    let s = seq![c] + abbrev(w);
    assert(s.subrange(1, 4) =~= abbrev(w));
    assert(s[0] == c);
}

/// No single character but `a`, `m`, `w` and `d` is a recurrence code.
pub proof fn lemma_other_codes(c: char)
    requires
        c != 'a',
        c != 'm',
        c != 'w',
        c != 'd',
    ensures
        recur_of(seq![c]) is None,
{
    assert(seq![c][0] != seq!['a'][0]);
    assert(seq![c][0] != seq!['m'][0]);
    assert(seq![c][0] != seq!['w'][0]);
    assert(seq![c][0] != seq!['d'][0]);
}

} // verus!
