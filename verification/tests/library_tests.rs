use smart_date::calendar::CalendarDate;
use smart_date::{FlexibleDate, Weekday};

fn all_literals() -> Vec<(&'static str, FlexibleDate)> {
    vec![
        ("today", FlexibleDate::Today),
        ("tod", FlexibleDate::Today),
        ("tomorrow", FlexibleDate::Tomorrow),
        ("tom", FlexibleDate::Tomorrow),
        ("tmrw", FlexibleDate::Tomorrow),
        ("sunday", FlexibleDate::Weekday(Weekday::Sunday)),
        ("sun", FlexibleDate::Weekday(Weekday::Sunday)),
        ("monday", FlexibleDate::Weekday(Weekday::Monday)),
        ("mon", FlexibleDate::Weekday(Weekday::Monday)),
        ("tuesday", FlexibleDate::Weekday(Weekday::Tuesday)),
        ("tue", FlexibleDate::Weekday(Weekday::Tuesday)),
        ("wednesday", FlexibleDate::Weekday(Weekday::Wednesday)),
        ("wed", FlexibleDate::Weekday(Weekday::Wednesday)),
        ("thursday", FlexibleDate::Weekday(Weekday::Thursday)),
        ("thurs", FlexibleDate::Weekday(Weekday::Thursday)),
        ("friday", FlexibleDate::Weekday(Weekday::Friday)),
        ("fri", FlexibleDate::Weekday(Weekday::Friday)),
        ("saturday", FlexibleDate::Weekday(Weekday::Saturday)),
        ("sat", FlexibleDate::Weekday(Weekday::Saturday)),
    ]
}

#[test]
fn every_literal_is_found_whole() {
    for (lit, expected) in all_literals() {
        let parsed = FlexibleDate::find_and_parse_in_str(lit).unwrap();
        assert_eq!(parsed.data, expected);
        assert_eq!(parsed.range, (0..lit.len()));
    }
}

#[test]
fn every_literal_parses_exactly() {
    for (lit, expected) in all_literals() {
        assert_eq!(FlexibleDate::parse_from_str(lit), Some(expected));
    }
}

#[test]
fn find_is_case_insensitive() {
    let upper = FlexibleDate::find_and_parse_in_str("TODAY").unwrap();
    let lower = FlexibleDate::find_and_parse_in_str("today").unwrap();
    assert_eq!(upper.data, lower.data);
    assert_eq!(upper.range, lower.range);

    let mixed = FlexibleDate::find_and_parse_in_str("Tomorrow").unwrap();
    let lower = FlexibleDate::find_and_parse_in_str("tomorrow").unwrap();
    assert_eq!(mixed.data, lower.data);
    assert_eq!(mixed.range, lower.range);

    assert_eq!(FlexibleDate::parse_from_str("TODAY"), Some(FlexibleDate::Today));
    assert_eq!(FlexibleDate::parse_from_str("toMorRoW"), Some(FlexibleDate::Tomorrow));
}

#[test]
fn near_miss_tokens_are_rejected() {
    assert!(FlexibleDate::find_and_parse_in_str("todd tomm tday tomrow todayyy").is_none());
    assert_eq!(FlexibleDate::parse_from_str("tod"), Some(FlexibleDate::Today));
    assert_eq!(FlexibleDate::parse_from_str("today!"), None);
}

#[test]
fn exact_parse_ignores_surrounding_whitespace() {
    assert_eq!(FlexibleDate::parse_from_str("  today \t"), Some(FlexibleDate::Today));
    assert_eq!(FlexibleDate::parse_from_str("   "), None);
    assert_eq!(FlexibleDate::parse_from_str(""), None);
    assert_eq!(FlexibleDate::parse_from_str("go home today"), None);
}

#[test]
fn found_range_is_a_byte_offset() {
    let input = "before tomorrow after";
    let parsed = FlexibleDate::find_and_parse_in_str(input).unwrap();
    assert_eq!(parsed.data, FlexibleDate::Tomorrow);
    assert_eq!(parsed.range, (7..15));
    assert_eq!(&input[parsed.range], "tomorrow");
}

#[test]
fn exact_and_find_agree_on_bare_tokens() {
    let tokens = ["today", "tod", "tomorrow", "tmrw", "fri", "saturday", "teapot", "today!", "tody", "x"];
    for token in tokens {
        let exact = FlexibleDate::parse_from_str(token);
        let found = FlexibleDate::find_and_parse_in_str(token);
        match found {
            Some(parsed) => {
                let spans_all = parsed.range == (0..token.len());
                assert_eq!(exact.is_some(), spans_all);
                if spans_all {
                    assert_eq!(exact, Some(parsed.data));
                }
            }
            None => assert!(exact.is_none()),
        }
    }
}

#[test]
fn tokens_split_on_any_ascii_whitespace() {
    // the earlier whitespace-delimited token wins, across a newline too
    let input = "xx\ntod yy tom zz";
    let parsed = FlexibleDate::find_and_parse_in_str(input).unwrap();
    assert_eq!(parsed.data, FlexibleDate::Today);
    assert_eq!(parsed.range, (3..6));
    assert_eq!(&input[parsed.range], "tod");

    let parsed = FlexibleDate::find_and_parse_in_str("skip\r\nfri now").unwrap();
    assert_eq!(parsed.data, FlexibleDate::Weekday(Weekday::Friday));
    assert_eq!(parsed.range, (6..9));
}

#[test]
fn find_handles_boundary_inputs() {
    assert!(FlexibleDate::find_and_parse_in_str("").is_none());
    assert!(FlexibleDate::find_and_parse_in_str(" \t ").is_none());
    // punctuation right after a phrase is not a token boundary
    assert!(FlexibleDate::find_and_parse_in_str("today!").is_none());
    // a phrase at the very end of the input, with nothing after it, is one
    let parsed = FlexibleDate::find_and_parse_in_str("do a barrel tom").unwrap();
    assert_eq!(parsed.data, FlexibleDate::Tomorrow);
    assert_eq!(parsed.range, (12..15));
}

#[test]
fn resolves_against_a_sunday() {
    // 2023-10-08 was a Sunday.
    let today = CalendarDate::new(2023, 10, 8).unwrap();

    let date = FlexibleDate::Today.into_naive_date(today);
    assert_eq!((date.year, date.month, date.day), (2023, 10, 8));

    let date = FlexibleDate::Tomorrow.into_naive_date(today);
    assert_eq!((date.year, date.month, date.day), (2023, 10, 9));

    let date = FlexibleDate::Weekday(Weekday::Wednesday).into_naive_date(today);
    assert_eq!((date.year, date.month, date.day), (2023, 10, 11));

    // The same weekday resolves to the reference date itself, not a week later.
    let date = FlexibleDate::Weekday(Weekday::Sunday).into_naive_date(today);
    assert_eq!((date.year, date.month, date.day), (2023, 10, 8));
}

#[test]
fn tomorrow_rolls_over_a_month_boundary() {
    let today = CalendarDate::new(2023, 9, 30).unwrap();
    let date = FlexibleDate::Tomorrow.into_naive_date(today);
    assert_eq!((date.year, date.month, date.day), (2023, 10, 1));

    let checked = FlexibleDate::Tomorrow.try_into_naive_date(today).unwrap();
    assert_eq!(checked, date);
}

#[test]
fn calendar_date_checks_validity() {
    assert!(CalendarDate::new(2024, 2, 29).is_some());
    assert!(CalendarDate::new(2023, 2, 29).is_none());
    assert!(CalendarDate::new(2023, 4, 31).is_none());
    assert!(CalendarDate::new(2023, 0, 1).is_none());
    assert!(CalendarDate::new(2023, 13, 1).is_none());
    assert!(CalendarDate::new(2023, 12, 31).is_some());
    assert!(CalendarDate::new(1900, 2, 29).is_none());
    assert!(CalendarDate::new(2000, 2, 29).is_some());
}

#[test]
fn parsed_map_keeps_the_range() {
    let parsed = FlexibleDate::find_and_parse_in_str("go home fri okay").unwrap();
    let mapped = parsed.map(|d| d == FlexibleDate::Weekday(Weekday::Friday));
    assert!(mapped.data);
    assert_eq!(mapped.range, (8..11));
}
