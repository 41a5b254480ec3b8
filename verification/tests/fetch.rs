use usps_tracker::fetch::{Fetch, FetchAction, FetchEvent, FetchStage};
use usps_tracker::json::Json;
use usps_tracker::worker::{worker, WorkerAction};

fn replied(status: u16) -> FetchEvent {
    FetchEvent::Replied { status, retry_after: None }
}

fn asking(fetch: &mut Fetch) -> FetchAction {
    fetch.step(FetchEvent::TokenReady("T".to_string()))
}

fn slept(action: FetchAction) -> u64 {
    match action {
        FetchAction::Sleep(seconds) => seconds,
        _ => panic!("no pause"),
    }
}

fn result(action: FetchAction) -> String {
    match action {
        FetchAction::Finish(json) => json.to_text(),
        _ => panic!("no result"),
    }
}

#[test]
fn a_request_names_the_number_and_the_token() {
    let (mut fetch, action) = Fetch::start("9400".to_string(), 0);
    assert!(matches!(action, FetchAction::GetToken));
    match asking(&mut fetch) {
        FetchAction::Send { url, authorization } => {
            assert_eq!(url, "https://apis.usps.com/tracking/v3/tracking/9400?expand=DETAIL");
            assert_eq!(authorization, "Bearer T");
        }
        _ => panic!("no request"),
    }
}

#[test]
fn a_document_is_the_result() {
    let (mut fetch, _) = Fetch::start("1".to_string(), 0);
    asking(&mut fetch);
    assert!(matches!(fetch.step(replied(200)), FetchAction::ReadDocument));
    let document = Json::parse("{\"a\":1}");
    assert_eq!(result(fetch.step(FetchEvent::DocumentRead(document))), "{\"a\":1}");
    assert_eq!(fetch.stage(), FetchStage::Done);
}

#[test]
fn a_body_that_is_no_document_uses_an_attempt_up_without_a_pause() {
    let (mut fetch, _) = Fetch::start("1".to_string(), 0);
    for attempt in 1..3 {
        asking(&mut fetch);
        fetch.step(replied(200));
        assert!(matches!(fetch.step(FetchEvent::DocumentRead(None)), FetchAction::GetToken));
        assert_eq!(fetch.attempt(), attempt);
    }
    asking(&mut fetch);
    fetch.step(replied(200));
    assert_eq!(
        result(fetch.step(FetchEvent::DocumentRead(None))),
        "{\"error\":\"Max retries exceeded\",\"trackingNumber\":\"1\"}"
    );
}

#[test]
fn not_found_is_final() {
    let (mut fetch, _) = Fetch::start("1".to_string(), 0);
    asking(&mut fetch);
    assert_eq!(
        result(fetch.step(replied(404))),
        "{\"error\":\"Not Found\",\"status\":404,\"trackingNumber\":\"1\"}"
    );
}

#[test]
fn pauses_double() {
    for status in [429u16, 500, 502, 503, 504] {
        let (mut fetch, _) = Fetch::start("1".to_string(), 0);
        for seconds in [1u64, 2, 4] {
            asking(&mut fetch);
            assert_eq!(slept(fetch.step(replied(status))), seconds);
            if seconds < 4 {
                assert!(matches!(fetch.step(FetchEvent::Woke), FetchAction::GetToken));
            }
        }
        assert_eq!(
            result(fetch.step(FetchEvent::Woke)),
            "{\"error\":\"Max retries exceeded\",\"trackingNumber\":\"1\"}"
        );
    }
}

#[test]
fn a_reply_may_ask_for_a_pause() {
    let ask = |text: &str| {
        let (mut fetch, _) = Fetch::start("1".to_string(), 0);
        asking(&mut fetch);
        let retry_after = Some(text.to_string());
        slept(fetch.step(FetchEvent::Replied { status: 429, retry_after }))
    };
    assert_eq!(ask("17"), 17);
    assert_eq!(ask("0"), 0);
    assert_eq!(ask("Wed, 21 Oct 2015 07:28:00 GMT"), 1);
    assert_eq!(ask("-5"), 1);
}

#[test]
fn any_other_status_is_reported_with_its_text() {
    let (mut fetch, _) = Fetch::start("1".to_string(), 0);
    asking(&mut fetch);
    assert!(matches!(fetch.step(replied(400)), FetchAction::ReadMessage));
    assert_eq!(
        result(fetch.step(FetchEvent::MessageRead("bad \"x\"".to_string()))),
        "{\"error\":\"bad \\\"x\\\"\",\"status\":400,\"trackingNumber\":\"1\"}"
    );
}

#[test]
fn failures_without_proxies_use_attempts_up() {
    let (mut fetch, _) = Fetch::start("1".to_string(), 0);
    let mut requests = 0;
    for seconds in [1u64, 2, 4] {
        asking(&mut fetch);
        requests += 1;
        let event = FetchEvent::SendFailed { connect: true, timeout: true };
        assert_eq!(slept(fetch.step(event)), seconds);
        if requests < 3 {
            fetch.step(FetchEvent::Woke);
        }
    }
    assert!(matches!(fetch.step(FetchEvent::Woke), FetchAction::Finish(_)));
    assert_eq!(requests, 3);
}

#[test]
fn token_failures_use_attempts_up() {
    let (mut fetch, _) = Fetch::start("1".to_string(), 5);
    assert_eq!(slept(fetch.step(FetchEvent::TokenFailed)), 1);
    fetch.step(FetchEvent::Woke);
    assert_eq!(slept(fetch.step(FetchEvent::TokenFailed)), 2);
    fetch.step(FetchEvent::Woke);
    assert_eq!(slept(fetch.step(FetchEvent::TokenFailed)), 4);
    assert!(matches!(fetch.step(FetchEvent::Woke), FetchAction::Finish(_)));
}

fn proxy_failures(proxies: usize) -> usize {
    let (mut fetch, mut action) = Fetch::start("1".to_string(), proxies);
    let mut failures = 0;
    loop {
        match action {
            FetchAction::GetToken => {
                asking(&mut fetch);
                failures += 1;
                action = fetch.step(FetchEvent::SendFailed { connect: failures % 2 == 0, timeout: failures % 2 == 1 });
                assert_eq!(fetch.attempt(), 0);
            }
            other => {
                assert_eq!(
                    result(other),
                    "{\"error\":\"All proxies unavailable\",\"trackingNumber\":\"1\"}"
                );
                return failures;
            }
        }
    }
}

#[test]
fn failing_proxies_are_switched_at_no_cost_until_too_many_failed() {
    assert_eq!(proxy_failures(1), 10);
    assert_eq!(proxy_failures(10), 10);
    assert_eq!(proxy_failures(25), 25);
}

#[test]
fn other_failures_with_proxies_use_attempts_up() {
    let (mut fetch, _) = Fetch::start("1".to_string(), 2);
    asking(&mut fetch);
    assert_eq!(slept(fetch.step(FetchEvent::SendFailed { connect: false, timeout: false })), 1);
    assert_eq!(fetch.proxy_switches(), 0);
    assert_eq!(fetch.attempt(), 1);
}

#[test]
fn a_look_up_with_proxies_sends_at_most_two_requests_more_than_proxies_may_fail() {
    let (mut fetch, _) = Fetch::start("1".to_string(), 1);
    let mut requests = 0;
    for _ in 0..2 {
        asking(&mut fetch);
        requests += 1;
        fetch.step(replied(500));
        fetch.step(FetchEvent::Woke);
    }
    loop {
        asking(&mut fetch);
        requests += 1;
        let event = FetchEvent::SendFailed { connect: true, timeout: false };
        if matches!(fetch.step(event), FetchAction::Finish(_)) {
            break;
        }
    }
    assert_eq!(requests, 12);
}

#[test]
fn refused_results_are_dropped() {
    let kept = |text: &str| match worker(Json::parse(text).unwrap()) {
        WorkerAction::Drop => None,
        WorkerAction::Forward(json) => Some(json.to_text()),
    };
    assert_eq!(kept("{\"status\":403}"), None);
    for text in ["{\"status\":404}", "{\"status\":\"403\"}", "{\"status\":403.0}", "{}", "403"] {
        assert_eq!(kept(text), Some(text.to_string()));
    }
}

#[test]
fn a_look_up_that_was_refused_is_dropped() {
    let (mut fetch, _) = Fetch::start("1".to_string(), 0);
    asking(&mut fetch);
    fetch.step(replied(403));
    match fetch.step(FetchEvent::MessageRead(String::new())) {
        FetchAction::Finish(json) => assert!(matches!(worker(json), WorkerAction::Drop)),
        _ => panic!("no result"),
    }
}
