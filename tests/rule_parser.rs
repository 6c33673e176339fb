use remind_rules::api::{DateTime, Recur, RuleError, Weekday, WeekdayOption};
use remind_rules::rule_parser;

#[test]
fn rule_parser_returns_some_value() {
    let res = rule_parser::parse(&String::from("[2018-01-01 00:00 a] New Years"));
    let rule = match res {
        Ok(Some(rule)) => rule,
        _ => panic!("expected a rule"),
    };
    assert_eq!(
        rule.epoch_date,
        DateTime { year: 2018, month: 1, day: 1, hour: 0, minute: 0 }
    );
    assert_eq!(rule.recurring, Some(Recur::ANNUALLY));
    assert_eq!(rule.options.len(), 0);
    assert_eq!(rule.description, "New Years");
}

#[test]
fn rule_parser_returns_none_for_invalid() {
    let res = rule_parser::parse(&String::from("no brackets here"));
    assert!(matches!(res, Ok(None)));
}

#[test]
fn rule_parser_returns_first_set() {
    let res = rule_parser::parse(&String::from("[2018-03-04 05:06] first [2019-02-02 10:30 d] second"));
    let rule = match res {
        Ok(Some(rule)) => rule,
        _ => panic!("expected a rule"),
    };
    assert_eq!(
        rule.epoch_date,
        DateTime { year: 2018, month: 3, day: 4, hour: 5, minute: 6 }
    );
    assert_eq!(rule.recurring, None);
    assert_eq!(rule.description, "first [2019-02-02 10:30 d] second");
}

#[test]
fn rule_parser_parse_weekday_with_option() {
    let res: WeekdayOption = rule_parser::parse_weekday(&String::from("4mon"))
        .expect("to find a weekday option");
    assert_eq!(res.weekday, Weekday::MON);
    assert_eq!(res.offset, 4);
}

#[test]
fn rule_parser_parse_weekday_no_option() {
    let res: WeekdayOption = rule_parser::parse_weekday(&String::from("mon"))
        .expect("to find a weekday option");
    assert_eq!(res.weekday, Weekday::MON);
    assert_eq!(res.offset, 0);
}

#[test]
fn rule_parser_parse_tue() {
    let res: WeekdayOption = rule_parser::parse_weekday(&String::from("tue"))
        .expect("to find a weekday option");
    assert_eq!(res.weekday, Weekday::TUE);
    assert_eq!(res.offset, 0);
}

#[test]
fn rule_parser_parse_wed() {
    let res: WeekdayOption = rule_parser::parse_weekday(&String::from("wed"))
        .expect("to find a weekday option");
    assert_eq!(res.weekday, Weekday::WED);
    assert_eq!(res.offset, 0);
}

#[test]
fn rule_parser_parse_thu() {
    let res: WeekdayOption = rule_parser::parse_weekday(&String::from("thu"))
        .expect("to find a weekday option");
    assert_eq!(res.weekday, Weekday::THU);
    assert_eq!(res.offset, 0);
}

#[test]
fn rule_parser_parse_fri() {
    let res: WeekdayOption = rule_parser::parse_weekday(&String::from("fri"))
        .expect("to find a weekday option");
    assert_eq!(res.weekday, Weekday::FRI);
    assert_eq!(res.offset, 0);
}

#[test]
fn rule_parser_parse_sat() {
    let res: WeekdayOption = rule_parser::parse_weekday(&String::from("sat"))
        .expect("to find a weekday option");
    assert_eq!(res.weekday, Weekday::SAT);
    assert_eq!(res.offset, 0);
}

#[test]
fn rule_parser_parse_sun() {
    let res: WeekdayOption = rule_parser::parse_weekday(&String::from("sun"))
        .expect("to find a weekday option");
    assert_eq!(res.weekday, Weekday::SUN);
    assert_eq!(res.offset, 0);
}

#[test]
fn rule_parser_gets_annually() {
    let option: String = "a".to_owned();
    let res: Recur = rule_parser::parse_recur(&option).unwrap();
    assert_eq!(res, Recur::ANNUALLY);
}

#[test]
fn rule_parser_gets_monthly() {
    let option: String = "m".to_owned();
    let res: Recur = rule_parser::parse_recur(&option).unwrap();
    assert_eq!(res, Recur::MONTHLY);
}

#[test]
fn rule_parser_gets_weekly() {
    let option: String = "w".to_owned();
    let res: Recur = rule_parser::parse_recur(&option).unwrap();
    assert_eq!(res, Recur::WEEKLY);
}

#[test]
fn rule_parser_gets_daily() {
    let option: String = "d".to_owned();
    let res: Recur = rule_parser::parse_recur(&option).unwrap();
    assert_eq!(res, Recur::DAILY);
}

#[test]
fn rule_parser_weekday_list_is_always_there() {
    let res = rule_parser::parse_weekdays(&String::from("2wed,bogus,thu")).unwrap();
    assert_eq!(
        res,
        vec![
            WeekdayOption { offset: 2, weekday: Weekday::WED },
            WeekdayOption { offset: 0, weekday: Weekday::THU },
        ]
    );
    assert_eq!(rule_parser::parse_weekdays(&String::from("")).unwrap().len(), 0);
}

#[test]
fn rule_parser_malformed_date_is_an_error() {
    let res = rule_parser::parse(&String::from("[2018-13-01 00:00 a] bad month"));
    assert!(matches!(res, Err(RuleError::MalformedDate(_))));
}
