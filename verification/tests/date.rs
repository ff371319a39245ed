use changelogging::date::{
    date_from, parse, parse_or_today, parse_str, today, Date, Error, FORMAT, MAX_YEAR, MIN_YEAR,
};

#[test]
fn parses_dates() {
    let date = parse_str("2024-01-05").unwrap();
    assert_eq!((date.year(), date.month(), date.day()), (2024, 1, 5));
    assert_eq!(date, Date::new(2024, 1, 5).unwrap());
    assert_eq!(parse("2020-02-29").unwrap(), Date::new(2020, 2, 29).unwrap());
    assert_eq!(FORMAT, "[year]-[month]-[day]");
}

#[test]
fn rejects_what_is_no_date() {
    for string in ["", "today", "2024-13-01", "2023-02-29", "2024-1-5", "2024-01-05 ", "2024/01/05", "05-01-2024"] {
        let error = parse(string).unwrap_err();
        assert_eq!(error.string, string);
    }
    assert_eq!(Error::new("x".to_owned()).string, "x");
}

#[test]
fn writes_dates() {
    assert_eq!(Date::new(2024, 1, 5).unwrap().to_text(), "2024-01-05");
    assert_eq!(Date::new(2019, 12, 31).unwrap().to_text(), "2019-12-31");
    assert_eq!(Date::new(33, 3, 3).unwrap().to_text(), "0033-03-03");
    assert_eq!(Date::new(9999, 12, 31).unwrap().to_text(), "9999-12-31");
    assert_eq!(Date::new(-1, 1, 1).unwrap().to_text(), "-0001-01-01");
    assert_eq!(Date::new(0, 2, 29).unwrap().to_text(), "0000-02-29");
}

#[test]
fn writes_what_it_parsed() {
    for string in ["2024-01-05", "2000-02-29", "1999-12-31", "0001-01-01"] {
        assert_eq!(parse(string).unwrap().to_text(), string);
    }
}

#[test]
fn knows_the_calendar() {
    assert!(Date::new(2024, 2, 29).is_some());
    assert!(Date::new(2023, 2, 29).is_none());
    assert!(Date::new(1900, 2, 29).is_none());
    assert!(Date::new(2000, 2, 29).is_some());
    assert!(Date::new(-4, 2, 29).is_some());
    assert!(Date::new(-100, 2, 29).is_none());
    assert!(Date::new(-400, 2, 29).is_some());
    assert!(Date::new(2024, 4, 30).is_some());
    assert!(Date::new(2024, 4, 31).is_none());
    assert!(Date::new(2024, 1, 31).is_some());
    assert!(Date::new(2024, 1, 32).is_none());
    assert!(Date::new(2024, 0, 1).is_none());
    assert!(Date::new(2024, 13, 1).is_none());
    assert!(Date::new(2024, 1, 0).is_none());
    assert!(Date::new(MAX_YEAR, 12, 31).is_some());
    assert!(Date::new(MAX_YEAR + 1, 1, 1).is_none());
    assert!(Date::new(MIN_YEAR, 1, 1).is_some());
    assert!(Date::new(MIN_YEAR - 1, 12, 31).is_none());
}

#[test]
fn makes_dates_of_what_was_read() {
    assert_eq!(date_from(Some((2024, 1, 5)), "x").unwrap(), Date::new(2024, 1, 5).unwrap());
    assert_eq!(date_from(Some((2024, 2, 30)), "x").unwrap_err().string, "x");
    assert_eq!(date_from(None, "y").unwrap_err().string, "y");
}

#[test]
fn today_is_a_day() {
    let date = today();
    assert!(date.year() >= 2024);
    assert_eq!(Date::new(date.year(), date.month(), date.day()), Some(date));
}

#[test]
fn takes_the_date_that_is_given() {
    assert_eq!(parse_or_today(Some("2024-01-05")).unwrap(), Date::new(2024, 1, 5).unwrap());
    assert_eq!(parse_or_today(Some("yesterday")).unwrap_err().string, "yesterday");
    assert!(parse_or_today(None).unwrap().year() >= 2024);
}

#[test]
fn errors_say_what_was_no_date() {
    assert_eq!(Error::new("x".to_owned()).message(), "failed to parse `x` into date");
    assert_eq!(parse("2024-13-01").unwrap_err().message(), "failed to parse `2024-13-01` into date");
}
