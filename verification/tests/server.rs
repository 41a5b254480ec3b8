use usps_tracker::numbers::{
    numbers_url, parse_numbers, results_url, submit_actions, submit_to_cache, SubmitAction,
};

#[test]
fn addresses_go_by_the_source() {
    assert_eq!(numbers_url("mysql", 34), "http://43.128.111.219:8082/get_mysql_usps_num?num=34");
    assert_eq!(numbers_url("big", 0), "http://kungfu.bj.cn:8082/get_big_usps_num?num=0");
    assert_eq!(numbers_url("MYSQL", 1), "http://kungfu.bj.cn:8082/get_big_usps_num?num=1");
    assert_eq!(results_url("mysql"), "http://43.128.111.219:8082/set_mysql_usps_num_res");
    assert_eq!(results_url(""), "http://kungfu.bj.cn:8082/set_big_usps_num_res");
}

#[test]
fn numbers_stand_before_the_first_bar() {
    assert_eq!(parse_numbers("9400|a|b,skip,|x,92 |y,"), vec!["9400", "", "92 "]);
    assert_eq!(parse_numbers(""), Vec::<String>::new());
    assert_eq!(parse_numbers("none"), Vec::<String>::new());
}

#[test]
fn numbers_hold_neither_mark() {
    for number in parse_numbers(",a|,|b,c|d|e,||,f") {
        assert!(!number.contains(',') && !number.contains('|'));
    }
}

#[test]
fn rows_are_submitted_with_their_number() {
    let rows = vec![
        vec!["1".to_string(), "T".to_string(), "é\"".to_string(), String::new()],
        Vec::new(),
    ];
    assert_eq!(
        submit_actions(&rows).to_text(),
        "[{\"num\":\"1\",\"res\":[\"1\",\"T\",\"é\\\"\",\"\"]},{\"num\":\"\",\"res\":[]}]"
    );
    assert_eq!(submit_actions(&Vec::new()).to_text(), "[]");
}

#[test]
fn submissions_are_repeated_until_accepted() {
    assert_eq!(submit_to_cache(true), SubmitAction::Done);
    assert_eq!(submit_to_cache(false), SubmitAction::RetryAfter(1));
}

#[test]
fn lists_with_a_comma_between_them_are_read_in_turn() {
    let lists = ["", "1|a", "1|a,2|b", "x", ",", "|,3|c|d", "4"];
    for first in lists {
        for second in lists {
            let mut expected = parse_numbers(first);
            expected.extend(parse_numbers(second));
            assert_eq!(parse_numbers(&format!("{},{}", first, second)), expected);
        }
    }
}
