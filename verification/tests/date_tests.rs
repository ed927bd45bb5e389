use ferio::{get_month, parse_month, render_title, HolidayDate, HolidayDateError};

#[test]
fn render_explicit_date() {
    assert_eq!(render_title(1, 1), "January_1");
    assert_eq!(render_title(12, 25), "December_25");
    assert_eq!(render_title(2, 29), "February_29");
    assert_eq!(render_title(7, 4), "July_4");
}

#[test]
fn render_all_months_total_and_deterministic() {
    let expected = [
        "January", "February", "March", "April", "May", "June", "July", "August", "September",
        "October", "November", "December",
    ];
    for m in 1..=12u32 {
        let first = render_title(m, 15);
        let second = render_title(m, 15);
        assert_eq!(first, second);
        assert_eq!(first, format!("{}_15", expected[(m - 1) as usize]));
        assert_eq!(get_month(m), expected[(m - 1) as usize]);
    }
}

#[test]
fn render_via_get_date() {
    let date = HolidayDate::ManualDate { month: 10, day: 31 };
    assert_eq!(date.get_date(), "October_31");
}

#[test]
fn round_trip_explicit_dates() {
    for m in 1..=12u32 {
        for d in [1u32, 9, 10, 28, 31, 99, u32::MAX] {
            let title = render_title(m, d);
            let parsed = HolidayDate::from_str(&title);
            assert_eq!(parsed, Ok(HolidayDate::ManualDate { month: m, day: d }));
        }
    }
}

#[test]
fn round_trip_today() {
    let title = HolidayDate::Today.get_date();
    match HolidayDate::from_str(&title) {
        Ok(HolidayDate::ManualDate { month, day }) => {
            assert!((1..=12).contains(&month));
            assert!((1..=31).contains(&day));
            assert_eq!(render_title(month, day), title);
        }
        other => panic!("today's title failed to parse: {:?}", other),
    }
}

#[test]
fn parse_simple_title() {
    assert_eq!(
        HolidayDate::from_str("January_1"),
        Ok(HolidayDate::ManualDate { month: 1, day: 1 })
    );
}

#[test]
fn parse_is_case_sensitive() {
    assert_eq!(
        HolidayDate::from_str("january_1"),
        Err(HolidayDateError::MonthParseError("january".to_string()))
    );
}

#[test]
fn parse_needs_separator() {
    assert_eq!(
        HolidayDate::from_str("January1"),
        Err(HolidayDateError::InvalidDate("January1".to_string()))
    );
}

#[test]
fn parse_refuses_extra_separators() {
    assert_eq!(
        HolidayDate::from_str("January_1_2"),
        Err(HolidayDateError::InvalidDate("January_1_2".to_string()))
    );
}

#[test]
fn parse_refuses_non_numeric_day() {
    assert_eq!(
        HolidayDate::from_str("January_abc"),
        Err(HolidayDateError::DayParseError("abc".to_string()))
    );
}

#[test]
fn parse_refuses_empty_day() {
    assert_eq!(
        HolidayDate::from_str("January_"),
        Err(HolidayDateError::DayParseError(String::new()))
    );
}

#[test]
fn parse_day_at_limits() {
    assert_eq!(
        HolidayDate::from_str("January_4294967295"),
        Ok(HolidayDate::ManualDate { month: 1, day: u32::MAX })
    );
    assert_eq!(
        HolidayDate::from_str("January_4294967296"),
        Err(HolidayDateError::DayParseError("4294967296".to_string()))
    );
}

#[test]
fn parse_does_not_range_check_day() {
    // validity of the day within the month is deferred to the remote source
    assert_eq!(
        HolidayDate::from_str("February_31"),
        Ok(HolidayDate::ManualDate { month: 2, day: 31 })
    );
}

#[test]
fn render_does_not_range_check_day() {
    assert_eq!(render_title(5, 205), "May_205");
    assert_eq!(render_title(1, 0), "January_0");
}

#[test]
fn day_digits_render_and_parse() {
    assert_eq!(ferio::text::u32_to_dec(0), "0");
    assert_eq!(ferio::text::u32_to_dec(10), "10");
    assert_eq!(ferio::text::u32_to_dec(4294967295), "4294967295");
    assert_eq!(ferio::text::parse_u32_dec("0"), Some(0));
    assert_eq!(ferio::text::parse_u32_dec("007"), Some(7));
    assert_eq!(ferio::text::parse_u32_dec(""), None);
    assert_eq!(ferio::text::parse_u32_dec("+7"), None);
    assert_eq!(ferio::text::parse_u32_dec("4294967296"), None);
}

#[test]
fn parse_month_by_name() {
    assert_eq!(parse_month("September"), Ok(9));
    assert_eq!(parse_month("May"), Ok(5));
    assert_eq!(
        parse_month("Septembre"),
        Err(HolidayDateError::MonthParseError("Septembre".to_string()))
    );
}
