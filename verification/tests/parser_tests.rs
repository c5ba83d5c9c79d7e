use smart_date::parser::{
    parse_flex_date, parse_flex_date_exact, parse_today, parse_tomorrow, parse_weekday,
};
use smart_date::{FlexibleDate, Parsed, Weekday};

#[test]
fn test_parse_today() {
    let (_, result) = parse_today("today").unwrap();
    assert_eq!(result, FlexibleDate::Today);

    let (_, result) = parse_today("tod").unwrap();
    assert_eq!(result, FlexibleDate::Today);
}

#[test]
fn test_parse_tomorrow() {
    let (_, result) = parse_tomorrow("tomorrow").unwrap();
    assert_eq!(result, FlexibleDate::Tomorrow);

    let (_, result) = parse_tomorrow("tom").unwrap();
    assert_eq!(result, FlexibleDate::Tomorrow);

    let (_, result) = parse_tomorrow("tmrw").unwrap();
    assert_eq!(result, FlexibleDate::Tomorrow);
}

#[test]
fn test_parse_weekday() {
    let (_, result) = parse_weekday("sunday").unwrap();
    assert_eq!(result, FlexibleDate::Weekday(Weekday::Sunday));

    let (_, result) = parse_weekday("sat").unwrap();
    assert_eq!(result, FlexibleDate::Weekday(Weekday::Saturday));
}

#[test]
fn test_parse_flex_date_exact() {
    let (_, result) = parse_flex_date_exact("tomorrow").unwrap();
    assert_eq!(result, FlexibleDate::Tomorrow);

    let (_, result) = parse_flex_date_exact("tod").unwrap();
    assert_eq!(result, FlexibleDate::Today);
}

#[test]
fn test_parse_flex_date_substring() {
    let Parsed { data, range } = parse_flex_date("tomorrow after").unwrap();
    assert_eq!(data, FlexibleDate::Tomorrow);
    assert_eq!(range, (0..8));

    let Parsed { data, range } = parse_flex_date("before tomorrow").unwrap();
    assert_eq!(data, FlexibleDate::Tomorrow);
    assert_eq!(range, (7..15));

    let input = "before tomorrow after";
    let Parsed { data, range } = parse_flex_date(input).unwrap();
    assert_eq!(data, FlexibleDate::Tomorrow);
    assert_eq!(range, (7..15));
    assert_eq!(&input[range], "tomorrow");

    let Parsed { data, range } = parse_flex_date("do a barrel roll tod").unwrap();
    assert_eq!(data, FlexibleDate::Today);
    assert_eq!(range, (17..20));

    let Parsed { data, range } = parse_flex_date("go home fri okay").unwrap();
    assert_eq!(data, FlexibleDate::Weekday(Weekday::Friday));
    assert_eq!(range, (8..11));
}

#[test]
fn text_parse_variations() {
    let Parsed { data, .. } = parse_flex_date("Today").unwrap();
    assert_eq!(data, FlexibleDate::Today);

    let Parsed { data, .. } = parse_flex_date("toMorRoW").unwrap();
    assert_eq!(data, FlexibleDate::Tomorrow);
}

#[test]
fn test_parse_junk() {
    let result = parse_flex_date("I'm a little teapot");
    assert!(result.is_none());

    // Make sure we only recognize dates that appear as full tokens
    let result = parse_flex_date("todd tomm ttoday dtomorrow todayyy");
    assert!(result.is_none());
}
