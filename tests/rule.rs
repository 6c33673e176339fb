use remind_rules::api::{DateTime, Recur, RuleError, Weekday, WeekdayOption};
use remind_rules::rule;

#[test]
fn rule_returns_some_value() {
    let res = rule::parse(&String::from("[2018-01-01 00:00 a] New Years"));
    let rule = match res {
        Ok(Some(rule)) => rule,
        _ => panic!("expected a rule"),
    };
    assert_eq!(
        rule.epoch_date,
        DateTime { year: 2018, month: 1, day: 1, hour: 0, minute: 0 }
    );
    assert_eq!(rule.recurring, Some(Recur::ANNUALLY));
    assert_eq!(rule.options.len(), 0);
    assert_eq!(rule.description, "New Years");
}

#[test]
fn rule_returns_none_for_invalid() {
    let res = rule::parse(&String::from("no brackets here"));
    assert!(matches!(res, Ok(None)));
}

#[test]
fn rule_returns_first_set() {
    let res = rule::parse(&String::from("[2018-03-04 05:06] first [2019-02-02 10:30 d] second"));
    let rule = match res {
        Ok(Some(rule)) => rule,
        _ => panic!("expected a rule"),
    };
    assert_eq!(
        rule.epoch_date,
        DateTime { year: 2018, month: 3, day: 4, hour: 5, minute: 6 }
    );
    assert_eq!(rule.recurring, None);
    assert_eq!(rule.description, "first [2019-02-02 10:30 d] second");
}

#[test]
fn rule_parse_weekday_with_option() {
    let res: WeekdayOption = rule::parse_weekday(&String::from("4mon"))
        .expect("to find a weekday option");
    assert_eq!(res.weekday, Weekday::MON);
    assert_eq!(res.offset, 4);
}

#[test]
fn rule_parse_weekday_no_option() {
    let res: WeekdayOption = rule::parse_weekday(&String::from("mon"))
        .expect("to find a weekday option");
    assert_eq!(res.weekday, Weekday::MON);
    assert_eq!(res.offset, 0);
}

#[test]
fn rule_parse_tue() {
    let res: WeekdayOption = rule::parse_weekday(&String::from("tue"))
        .expect("to find a weekday option");
    assert_eq!(res.weekday, Weekday::TUE);
    assert_eq!(res.offset, 0);
}

#[test]
fn rule_parse_wed() {
    let res: WeekdayOption = rule::parse_weekday(&String::from("wed"))
        .expect("to find a weekday option");
    assert_eq!(res.weekday, Weekday::WED);
    assert_eq!(res.offset, 0);
}

#[test]
fn rule_parse_thu() {
    let res: WeekdayOption = rule::parse_weekday(&String::from("thu"))
        .expect("to find a weekday option");
    assert_eq!(res.weekday, Weekday::THU);
    assert_eq!(res.offset, 0);
}

#[test]
fn rule_parse_fri() {
    let res: WeekdayOption = rule::parse_weekday(&String::from("fri"))
        .expect("to find a weekday option");
    assert_eq!(res.weekday, Weekday::FRI);
    assert_eq!(res.offset, 0);
}

#[test]
fn rule_parse_sat() {
    let res: WeekdayOption = rule::parse_weekday(&String::from("sat"))
        .expect("to find a weekday option");
    assert_eq!(res.weekday, Weekday::SAT);
    assert_eq!(res.offset, 0);
}

#[test]
fn rule_parse_sun() {
    let res: WeekdayOption = rule::parse_weekday(&String::from("sun"))
        .expect("to find a weekday option");
    assert_eq!(res.weekday, Weekday::SUN);
    assert_eq!(res.offset, 0);
}

#[test]
fn rule_gets_annually() {
    let res: Recur = rule::parse_recur("a").unwrap();
    assert_eq!(res, Recur::ANNUALLY);
}

#[test]
fn rule_gets_monthly() {
    let res: Recur = rule::parse_recur("m").unwrap();
    assert_eq!(res, Recur::MONTHLY);
}

#[test]
fn rule_gets_weekly() {
    let res: Recur = rule::parse_recur("w").unwrap();
    assert_eq!(res, Recur::WEEKLY);
}

#[test]
fn rule_gets_daily() {
    let res: Recur = rule::parse_recur("d").unwrap();
    assert_eq!(res, Recur::DAILY);
}

#[test]
fn none_when_empty() {
    let res = rule::parse_weekdays(&String::from(""));
    assert_eq!(res.len(), 0);
}

#[test]
fn one_option() {
    let res: Vec<WeekdayOption> = rule::parse_weekdays(&String::from("wed"));
    assert_eq!(res[0].weekday, Weekday::WED);
}

#[test]
fn many_options() {
    let res: Vec<WeekdayOption> = rule::parse_weekdays(&String::from("2wed,thu"));
    assert_eq!(res[0].weekday, Weekday::WED);
    assert_eq!(res[0].offset, 2);
    assert_eq!(res[1].weekday, Weekday::THU);
    assert_eq!(res[1].offset, 0);
}

#[test]
fn none_for_garbage() {
    let res = rule::parse_weekday(&String::from("asd"));
    assert_eq!(res.is_none(), true);
}

#[test]
fn none_for_garbage_with_offset() {
    let res = rule::parse_weekday(&String::from("4asd"));
    assert_eq!(res.is_none(), true);
}

#[test]
fn malformed_date_is_an_error() {
    let res = rule::parse(&String::from("[garbage] desc"));
    match res {
        Err(RuleError::MalformedDate(m)) => assert_eq!(m, "garbage"),
        _ => panic!("expected a malformed date"),
    }
}
