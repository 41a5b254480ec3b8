use usps_tracker::json::{is_empty_obj, Json};

fn read(text: &str) -> Json {
    Json::parse(text).unwrap()
}

#[test]
fn parse_refuses_what_is_no_json() {
    for text in ["", "x", "{", "[1,]", "{\"a\":1} 2", "Not Found"] {
        assert!(Json::parse(text).is_none(), "{}", text);
    }
}

#[test]
fn to_text_is_compact_and_sorted() {
    let json = read("{ \"b\" : [1, -2, 1.50, true, null],\n \"a\": \"q\\\"\\u00e9\" }");
    assert_eq!(json.to_text(), "{\"a\":\"q\\\"é\",\"b\":[1,-2,1.5,true,null]}");
}

#[test]
fn members_are_found_by_key() {
    let json = read("{\"a\":{\"b\":\"c\"},\"n\":403,\"f\":403.0,\"m\":-1,\"t\":\"403\"}");
    assert_eq!(json.get("a").unwrap().to_text(), "{\"b\":\"c\"}");
    assert_eq!(json.get("a").unwrap().get_str("b"), Some("c".to_string()));
    assert!(json.get("x").is_none());
    assert!(read("[1]").get("a").is_none());
    assert_eq!(json.get_str("n"), None);
    assert_eq!(json.get_str("x"), None);
    assert_eq!(json.get_u64("n"), Some(403));
    assert_eq!(json.get_u64("f"), None);
    assert_eq!(json.get_u64("m"), None);
    assert_eq!(json.get_u64("t"), None);
    assert_eq!(json.get_u64("x"), None);
}

#[test]
fn only_texts_have_characters() {
    assert_eq!(read("\"a\\nb\"").as_str(), Some("a\nb"));
    assert_eq!(read("1").as_str(), None);
    assert_eq!(read("null").as_str(), None);
}

#[test]
fn first_item_of_an_array() {
    assert_eq!(read("[2,1]").first().unwrap().to_text(), "2");
    assert!(read("[]").first().is_none());
    assert!(read("{\"0\":1}").first().is_none());
}

#[test]
fn blank_values() {
    assert!(is_empty_obj(&read("{}")));
    assert!(is_empty_obj(&read("null")));
    for text in ["{\"a\":1}", "[]", "\"\"", "0", "false"] {
        assert!(!is_empty_obj(&read(text)), "{}", text);
    }
}

#[test]
fn values_are_built_from_their_parts() {
    let items = vec![Json::text("x".to_string()), Json::unsigned(u64::MAX)];
    let json = Json::object(vec![
        ("z".to_string(), Json::array(items)),
        ("a".to_string(), Json::unsigned(0)),
    ]);
    assert_eq!(json.to_text(), "{\"a\":0,\"z\":[\"x\",18446744073709551615]}");
    assert_eq!(json.get_u64("a"), Some(0));
}
