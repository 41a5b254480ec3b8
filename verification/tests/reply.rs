use usps_tracker::json::Json;
use usps_tracker::reply::{
    build_row, choose_time, error_in_text, extract_error, find_month_date, parse_danhao_json,
};

fn read(text: &str) -> Json {
    Json::parse(text).unwrap()
}

fn row(text: &str) -> Option<Vec<String>> {
    parse_danhao_json(&read(text))
}

fn list(fields: [&str; 4]) -> Option<Vec<String>> {
    Some(fields.iter().map(|s| s.to_string()).collect())
}

fn own(text: &str) -> Option<String> {
    Some(text.to_string())
}

#[test]
fn a_reply_with_an_event() {
    let text = "{\"trackingNumber\":\"9400\",\"status\":\"Delivered\",\"statusSummary\":\"Left on May 1, 2020.\",\
        \"mailPieceIntakeDate\":\"2024-01-01\",\"trackingEvents\":[{\"GMTTimestamp\":\"2024-01-05T01:00:00Z\",\
        \"eventTimestamp\":\"2024-01-04T20:00:00\"},{\"eventTimestamp\":\"2023-01-01\"}]}";
    assert_eq!(row(text), list(["9400", "Delivered", "Left on May 1, 2020.", "January 04, 2024"]));
}

#[test]
fn the_event_in_gmt_stands_in_for_the_event() {
    let text = "{\"trackingNumber\":\"1\",\"status\":\"S\",\"statusSummary\":\"D\",\
        \"trackingEvents\":[{\"GMTTimestamp\":\"2024-01-05T01:00:00Z\",\"eventTimestamp\":\"\"}]}";
    assert_eq!(row(text), list(["1", "S", "D", "January 05, 2024"]));
    let text = "{\"trackingNumber\":\"1\",\"status\":\"S\",\"statusSummary\":\"D\",\
        \"trackingEvents\":[{\"GMTTimestamp\":\"2024-01-05T01:00:00Z\",\"eventTimestamp\":\"soon\"}]}";
    assert_eq!(row(text), list(["1", "S", "D", "January 05, 2024"]));
}

#[test]
fn the_date_of_intake_stands_in_for_the_events() {
    let text = "{\"trackingNumber\":\"1\",\"status\":\"S\",\"statusSummary\":\"On July 4, 2021\",\
        \"mailPieceIntakeDate\":\"2024-02-03\",\"trackingEvents\":[]}";
    assert_eq!(row(text), list(["1", "S", "On July 4, 2021", "February 03, 2024"]));
}

#[test]
fn the_summary_stands_in_for_every_date() {
    let text = "{\"trackingNumber\":\"1\",\"status\":\"S\",\
        \"statusSummary\":\"Delivered at 3:00 pm on July 4, 2021 in X, then August 5, 2022.\"}";
    assert_eq!(
        row(text),
        list([
            "1",
            "S",
            "Delivered at 3:00 pm on July 4, 2021 in X, then August 5, 2022.",
            "July 4, 2021"
        ])
    );
    assert_eq!(row("{\"statusSummary\":\"D\"}"), list(["", "", "D", ""]));
}

#[test]
fn no_row_without_a_description() {
    assert_eq!(row("{\"trackingNumber\":\"1\",\"status\":\"S\"}"), None);
    assert_eq!(row("{\"status\":\"Unknow\",\"statusSummary\":\"D\"}"), None);
    assert_eq!(row("[]"), None);
    assert_eq!(row("7"), None);
}

#[test]
fn an_error_text_of_json_reports_its_error() {
    let text = "{\"trackingNumber\":\"1\",\"error\":\"{\\\"error\\\":{\\\"message\\\":\\\"Tracking is not available yet\\\"}}\"}";
    assert_eq!(
        row(text),
        list(["1", "Tracking is not available", "Tracking is not available yet", ""])
    );
}

#[test]
fn a_blank_error_is_none() {
    let text = "{\"trackingNumber\":\"1\",\"status\":\"S\",\"statusSummary\":\"D\",\"error\":\"{\\\"error\\\":{}}\"}";
    assert_eq!(row(text), list(["1", "S", "D", ""]));
    assert!(extract_error(&read("{\"error\":\"{}\"}")).is_none());
    assert!(extract_error(&read("{\"error\":\"{\\\"error\\\":null}\"}")).is_none());
    assert!(extract_error(&read("{}")).is_none());
}

#[test]
fn an_error_text_is_its_own_message() {
    let error = extract_error(&read("{\"error\":\"Not Found\"}")).unwrap();
    assert_eq!(error.to_text(), "{\"message\":\"Not Found\"}");
    let text = "{\"trackingNumber\":\"1\",\"error\":\"x Tracking is not available x\"}";
    assert_eq!(
        row(text),
        list(["1", "Tracking is not available", "x Tracking is not available x", ""])
    );
}

#[test]
fn an_error_that_is_no_text_is_reported_as_json() {
    let error = extract_error(&read("{\"error\":{\"b\": 1, \"a\": [2.50]}}")).unwrap();
    assert_eq!(error.get_str("message"), own("{\"a\":[2.5],\"b\":1}"));
    let error = extract_error(&read("{\"error\":null}")).unwrap();
    assert_eq!(error.get_str("message"), own("null"));
    let text = "{\"error\":{\"message\":\"Tracking is not available\"}}";
    assert_eq!(
        row(text),
        list([
            "",
            "Tracking is not available",
            "{\"message\":\"Tracking is not available\"}",
            ""
        ])
    );
}

#[test]
fn reports_of_failed_look_ups_have_no_row() {
    for error in ["Not Found", "Max retries exceeded", "All proxies unavailable"] {
        let text = format!("{{\"trackingNumber\":\"1\",\"error\":\"{}\"}}", error);
        assert_eq!(row(&text), None);
    }
}

#[test]
fn error_in_text_goes_by_the_document() {
    assert_eq!(error_in_text("m", None).unwrap().to_text(), "{\"message\":\"m\"}");
    let document = Some(read("{\"error\":{\"code\":1}}"));
    assert_eq!(error_in_text("m", document).unwrap().to_text(), "{\"code\":1}");
    assert!(error_in_text("m", Some(read("{\"error\":{}}"))).is_none());
    assert!(error_in_text("m", Some(read("3"))).is_none());
}

#[test]
fn month_dates_in_running_text() {
    assert_eq!(find_month_date("on May  1,\t2020"), own("May  1,\t2020"));
    assert_eq!(find_month_date("May 1 2020, June 12, 20215"), own("June 12, 2021"));
    assert_eq!(find_month_date("may 1, 2020"), None);
    assert_eq!(find_month_date("May 123, 2020"), None);
    assert_eq!(find_month_date("May1, 2020"), None);
    assert_eq!(find_month_date(""), None);
    assert_eq!(find_month_date("寄出 May\u{3000}1,\u{a0}2020 送达"), own("May\u{3000}1,\u{a0}2020"));
    assert_eq!(find_month_date("送达 may 1, 2020"), None);
}

#[test]
fn times_are_chosen_in_order() {
    assert_eq!(choose_time(own("g"), own("e"), own("i"), own("s")), "e");
    assert_eq!(choose_time(own("g"), None, own("i"), own("s")), "g");
    assert_eq!(choose_time(None, None, own("i"), own("s")), "i");
    assert_eq!(choose_time(None, None, None, own("s")), "s");
    assert_eq!(choose_time(None, None, None, None), "");
}

#[test]
fn rows_are_built_from_their_parts() {
    let s = |text: &str| text.to_string();
    assert_eq!(build_row(s("1"), None, s("S"), s("D"), s("T")), list(["1", "S", "D", "T"]));
    assert_eq!(build_row(s("1"), None, s("S"), s(""), s("T")), None);
    assert_eq!(build_row(s("1"), None, s("Unknow"), s("D"), s("T")), None);
    assert_eq!(build_row(s("1"), own("other"), s("S"), s("D"), s("T")), None);
    assert_eq!(
        build_row(s("1"), own("Tracking is not available"), s("S"), s("D"), s("T")),
        list(["1", "Tracking is not available", "Tracking is not available", ""])
    );
}
