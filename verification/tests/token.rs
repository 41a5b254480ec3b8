use usps_tracker::json::Json;
use usps_tracker::token::{
    access_token, load_local_token, TokenAction, TokenError, TokenEvent, TokenStage,
};

fn own(text: &str) -> Option<String> {
    Some(text.to_string())
}

fn start(at_hand: Option<String>, fresh: bool) -> (TokenStage, TokenAction) {
    TokenStage::get_valid_token(at_hand, fresh, "id", "secret")
}

#[test]
fn a_fresh_token_is_used() {
    match start(own("t"), true) {
        (TokenStage::Done, TokenAction::Use(token)) => assert_eq!(token, "t"),
        _ => panic!("not used"),
    }
}

#[test]
fn a_token_is_asked_for() {
    for (at_hand, fresh) in [(None, true), (None, false), (own("t"), false)] {
        match start(at_hand, fresh) {
            (TokenStage::Reply, TokenAction::Request { url, form }) => {
                assert_eq!(url, "https://apis.usps.com/oauth2/v3/token");
                let expected: Vec<(String, String)> = [
                    ("grant_type", "client_credentials"),
                    ("client_id", "id"),
                    ("client_secret", "secret"),
                    ("scope", "tracking"),
                ]
                .iter()
                .map(|(k, v)| (k.to_string(), v.to_string()))
                .collect();
                assert_eq!(form, expected);
            }
            _ => panic!("not asked"),
        }
    }
}

#[test]
fn the_token_in_the_reply_is_kept() {
    let (stage, action) = TokenStage::Reply.step(TokenEvent::Replied(200));
    assert!(matches!(action, TokenAction::ReadDocument));
    let json = Json::parse("{\"access_token\":\"t\",\"expires_in\":10}").unwrap();
    match stage.step(TokenEvent::DocumentRead(json)) {
        (TokenStage::Done, TokenAction::Keep(token)) => assert_eq!(token, "t"),
        _ => panic!("not kept"),
    }
}

#[test]
fn a_reply_without_a_token_gives_an_empty_one() {
    assert_eq!(access_token(&Json::parse("{}").unwrap()), "");
    assert_eq!(access_token(&Json::parse("{\"access_token\":5}").unwrap()), "");
}

fn failed(step: (TokenStage, TokenAction)) -> String {
    match step {
        (TokenStage::Done, TokenAction::Fail(error)) => error.message(),
        _ => panic!("no error"),
    }
}

#[test]
fn failures_are_told_apart() {
    let event = TokenEvent::SendFailed("down".to_string());
    assert_eq!(failed(TokenStage::Reply.step(event)), "OAuth2 请求失败: down");
    let event = TokenEvent::DocumentFailed("eof".to_string());
    assert_eq!(failed(TokenStage::Document.step(event)), "OAuth2 响应解析失败: eof");
    let (stage, action) = TokenStage::Reply.step(TokenEvent::Replied(401));
    assert!(matches!(action, TokenAction::ReadMessage));
    let event = TokenEvent::MessageRead("no".to_string());
    assert_eq!(failed(stage.step(event)), "OAuth2 认证失败: no");
    assert_eq!(TokenError::Denied(String::new()).message(), "OAuth2 认证失败: ");
}

#[test]
fn a_token_file_keeps_a_token() {
    assert_eq!(load_local_token("{\"token\":\"t\",\"expiry\":1.5}"), Some(own("t")));
    assert_eq!(load_local_token("{\"token\":null}"), Some(None));
    assert_eq!(load_local_token("token"), None);
}

#[test]
fn a_kept_token_serves_every_call_until_it_is_stale() {
    let (stage, _) = start(None, false);
    let (stage, _) = stage.step(TokenEvent::Replied(200));
    let reply = Json::parse(r#"{"access_token": "abc", "expires_in": 3600}"#).unwrap();
    let kept = match stage.step(TokenEvent::DocumentRead(reply)) {
        (TokenStage::Done, TokenAction::Keep(token)) => token,
        _ => panic!("not kept"),
    };
    for _ in 0..5 {
        match start(Some(kept.clone()), true) {
            (TokenStage::Done, TokenAction::Use(token)) => assert_eq!(token, "abc"),
            _ => panic!("not used"),
        }
    }
    match start(Some(kept), false) {
        (TokenStage::Reply, TokenAction::Request { url, form }) => {
            assert_eq!(url, "https://apis.usps.com/oauth2/v3/token");
            assert_eq!(form.len(), 4);
        }
        _ => panic!("not asked for anew"),
    }
}
