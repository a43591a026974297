use chrono::Utc;
use cloudtruth::time::{normalize_time_on, parse_datetime, parse_tag, CalendarDay, ISO8601};

#[test]
fn timedate_and_tag_parsing() {
    // full RFC2822144
    let now = Utc::now();
    let input = now.to_rfc2822();
    let output = parse_datetime(Some(&input)).unwrap();
    assert_eq!(now.format("%FT%TZ").to_string(), output); // no fractional seconds
    assert_eq!(parse_tag(Some(&input)), None);

    // full RFC23339
    let now = Utc::now();
    let input = now.to_rfc3339();
    let output = parse_datetime(Some(&input)).unwrap();
    assert_eq!(now.format(ISO8601).to_string(), output);
    assert_eq!(parse_tag(Some(&input)), None);

    // ISO8601
    let input = Some("2021-07-27T18:34:23.270824Z");
    let expected = input.map(String::from);
    assert_eq!(parse_datetime(input), expected);
    assert_eq!(parse_tag(input), None);

    // ISO8601 - missing trailing Z
    let input = Some("2021-07-27T18:34:23.270824");
    let output = parse_datetime(input);
    assert!(output.unwrap().contains(input.unwrap()));
    assert_eq!(parse_tag(input), None);

    // time only, without milliseconds
    let input = Some("02:04:08");
    let output = parse_datetime(input).unwrap();
    assert!(output.contains("02:04:08"));
    assert_eq!(parse_tag(input), None);

    // time only, with milliseconds
    let input = Some("03:05:12.345");
    let output = parse_datetime(input).unwrap();
    assert!(output.contains("T03:05:12.345Z"));
    assert_eq!(parse_tag(input), None);

    // full date (no time)
    let input = Some("2020-02-02");
    let output = parse_datetime(input).unwrap();
    assert_eq!(output, String::from("2020-02-02T00:00:00Z"));
    assert_eq!(parse_tag(input), None);

    // US date with slashes
    let input = Some("01/19/2021");
    let output = parse_datetime(input).unwrap();
    assert_eq!(output, String::from("2021-01-19T00:00:00Z"));
    assert_eq!(parse_tag(input), None);

    // US date with dashes
    let input = Some("01-19-2021");
    let output = parse_datetime(input).unwrap();
    assert_eq!(output, String::from("2021-01-19T00:00:00Z"));
    assert_eq!(parse_tag(input), None);

    // unfortunately, it lets this through too!
    let input = Some("this is bogus");
    let expected = input.map(String::from);
    assert_eq!(parse_datetime(input), None);
    assert_eq!(parse_tag(input), expected);

    // finally, no option given
    assert_eq!(parse_datetime(None), None);
    assert_eq!(parse_tag(None), None);
}

#[test]
fn empty_text_is_neither_time_nor_tag() {
    assert_eq!(parse_datetime(Some("")), None);
    assert_eq!(parse_tag(Some("")), None);
}

#[test]
fn tag_names_are_not_times() {
    for s in ["production-2024-01", "v1.2", "staging_tag", "x"] {
        assert_eq!(parse_datetime(Some(s)), None);
        assert_eq!(parse_tag(Some(s)), Some(s.to_string()));
    }
}

#[test]
fn exactly_one_of_time_and_tag() {
    for s in ["2020-02-02", "12:00:00", "release", "01/19/2021", "not a date", "2021-13-45"] {
        let t = parse_datetime(Some(s));
        let g = parse_tag(Some(s));
        assert!(t.is_some() != g.is_some(), "{}", s);
    }
}

#[test]
fn time_of_day_lands_on_given_day() {
    let day = CalendarDay { year: 2024, month: 3, day: 5 };
    assert_eq!(
        normalize_time_on("02:04:08", day),
        Some("2024-03-05T02:04:08Z".to_string())
    );
    assert_eq!(
        normalize_time_on("03:05:12.345", day),
        Some("2024-03-05T03:05:12.345Z".to_string())
    );
}

#[test]
fn offset_times_become_utc() {
    let day = CalendarDay { year: 2000, month: 1, day: 1 };
    assert_eq!(
        normalize_time_on("2021-07-27T18:34:23+02:00", day),
        Some("2021-07-27T16:34:23Z".to_string())
    );
    assert_eq!(
        normalize_time_on("2021-01-01T10:00:00+02:00", day),
        Some("2021-01-01T08:00:00Z".to_string())
    );
    assert_eq!(
        normalize_time_on("Fri, 01 Jan 2021 10:00:00 -0500", day),
        Some("2021-01-01T15:00:00Z".to_string())
    );
}

#[test]
fn canonical_time_normalizes_to_itself() {
    for s in ["2021-07-27T18:34:23.270824Z", "2020-02-02T00:00:00Z", "2021-01-19T00:00:00.123Z"] {
        let once = parse_datetime(Some(s)).unwrap();
        let twice = parse_datetime(Some(&once)).unwrap();
        assert_eq!(once, twice);
    }
    let once = parse_datetime(Some("01/19/2021")).unwrap();
    assert_eq!(parse_datetime(Some(&once)), Some(once.clone()));
}
