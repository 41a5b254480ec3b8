use usps_tracker::dates::{standard_date, to_standard_time, CalendarDate};

fn date(year: i32, month: u32, day: u32) -> Option<CalendarDate> {
    Some(CalendarDate { year, month, day })
}

#[test]
fn the_plain_forms_are_read() {
    for text in [
        "2024-01-05T10:11:12-08:00",
        "2024-01-05T10:11:12Z",
        "2024-01-05T10:11:12",
        "2024-01-05",
    ] {
        assert_eq!(to_standard_time(text), Some("January 05, 2024".to_string()), "{}", text);
    }
}

#[test]
fn an_offset_does_not_move_the_date() {
    assert_eq!(
        to_standard_time("2024-12-31T23:30:00-08:00"),
        Some("December 31, 2024".to_string())
    );
    assert_eq!(
        to_standard_time("2024-03-01T00:10:00.250+05:30"),
        Some("March 01, 2024".to_string())
    );
    let day = "2024-06-01";
    for time in ["00:00:00", "12:34:56", "23:59:59"] {
        for end in ["", "Z", "+00:00", "-00:00", "+23:59", "-23:59", "+00:01", "-12:00", "+14:00"] {
            let text = format!("{}T{}{}", day, time, end);
            assert_eq!(to_standard_time(&text), to_standard_time(day), "{}", text);
            assert_eq!(to_standard_time(&text), Some("June 01, 2024".to_string()), "{}", text);
        }
    }
    for text in ["0000-01-01T00:00:00+23:59", "0000-01-01T00:00:00-23:59"] {
        assert_eq!(to_standard_time(text), Some("January 01, 0000".to_string()), "{}", text);
    }
    for text in ["9999-12-31T23:59:59+23:59", "9999-12-31T23:59:59-23:59"] {
        assert_eq!(to_standard_time(text), Some("December 31, 9999".to_string()), "{}", text);
    }
}

#[test]
fn days_that_the_calendar_lacks_are_no_dates() {
    for day in ["2024-02-30", "2023-02-29", "2024-04-31", "2024-00-10", "2024-13-01", "2024-01-00", "2024-01-32"] {
        for end in ["", "T10:11:12", "T10:11:12Z", "T10:11:12+05:30", "T10:11:12-23:59", " and more"] {
            let text = format!("{}{}", day, end);
            assert_eq!(to_standard_time(&text), None, "{}", text);
        }
    }
}

#[test]
fn a_text_that_starts_with_a_date_gives_that_date_or_none() {
    assert_eq!(to_standard_time("2024-01-05T10:11:12+24:00"), None);
    assert_eq!(to_standard_time("2024-01-05T10:11:12+05:60"), None);
    assert_eq!(to_standard_time("2024-01-051"), None);
    assert_eq!(
        to_standard_time("2024-01-05T10:11:12.999Z"),
        Some("January 05, 2024".to_string())
    );
    assert_eq!(to_standard_time("2024-12-31T23:59:60Z"), Some("December 31, 2024".to_string()));
}

#[test]
fn other_texts_are_no_dates() {
    for text in ["", "yesterday", "2024-02-30", "2024-13-01", "2024-01-05T25:00:00Z", "2024/01/05"] {
        assert_eq!(to_standard_time(text), None, "{}", text);
    }
}

#[test]
fn leap_days() {
    assert_eq!(to_standard_time("2024-02-29"), Some("February 29, 2024".to_string()));
    assert_eq!(to_standard_time("2023-02-29"), None);
    assert_eq!(to_standard_time("1900-02-29"), None);
    assert_eq!(to_standard_time("2000-02-29"), Some("February 29, 2000".to_string()));
}

#[test]
fn years_beyond_four_digits_carry_a_sign() {
    assert_eq!(to_standard_time("+12345-06-07"), Some("June 07, +12345".to_string()));
    assert_eq!(to_standard_time("-0001-06-07"), Some("June 07, -0001".to_string()));
    assert_eq!(to_standard_time("0042-06-07"), Some("June 07, 0042".to_string()));
}

#[test]
fn every_month_has_its_name() {
    let names = [
        "January", "February", "March", "April", "May", "June", "July", "August", "September",
        "October", "November", "December",
    ];
    for (i, name) in names.iter().enumerate() {
        assert_eq!(
            standard_date(None, None, date(2024, i as u32 + 1, 9)),
            Some(format!("{} 09, 2024", name))
        );
    }
}

#[test]
fn the_first_reading_counts() {
    let (a, b, c) = (date(2001, 1, 1), date(2002, 2, 2), date(2003, 3, 3));
    assert_eq!(standard_date(a, b, c), Some("January 01, 2001".to_string()));
    assert_eq!(standard_date(None, b, c), Some("February 02, 2002".to_string()));
    assert_eq!(standard_date(None, None, c), Some("March 03, 2003".to_string()));
    assert_eq!(standard_date(None, None, None), None);
}

#[test]
fn the_ends_of_the_four_digit_years() {
    for text in ["0000-01-01T00:00:00", "0000-01-01T00:00:00Z", "0000-01-01"] {
        assert_eq!(to_standard_time(text), Some("January 01, 0000".to_string()), "{}", text);
    }
    for text in ["9999-12-31T23:59:59", "9999-12-31T23:59:59Z", "9999-12-31"] {
        assert_eq!(to_standard_time(text), Some("December 31, 9999".to_string()), "{}", text);
    }
}
