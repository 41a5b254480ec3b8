use std::collections::VecDeque;

use usps_tracker::fetch::{Fetch, FetchAction, FetchEvent};
use usps_tracker::json::Json;
use usps_tracker::lifecycle::{RunAction, RunEvent, RunStage};
use usps_tracker::producer::{Producer, ProducerAction, ProducerEvent};
use usps_tracker::submitter::{received_reply, Submitter, SubmitterEvent};
use usps_tracker::worker::{worker, WorkerAction};

/// What the carrier answers: every fourth request is refused.
fn look_up(number: &str) -> Json {
    let (mut fetch, mut action) = Fetch::start(number.to_string(), 0);
    loop {
        let event = match action {
            FetchAction::GetToken => FetchEvent::TokenReady("t".to_string()),
            FetchAction::Send { .. } => {
                let status = if number.ends_with('4') || number.ends_with('8') { 403 } else { 200 };
                FetchEvent::Replied { status, retry_after: None }
            }
            FetchAction::ReadDocument => FetchEvent::DocumentRead(Json::parse(&format!(
                r#"{{"trackingNumber": "{}", "status": "Sent", "statusSummary": "ok"}}"#,
                number
            ))),
            FetchAction::ReadMessage => FetchEvent::MessageRead("refused".to_string()),
            FetchAction::Sleep(_) => FetchEvent::Woke,
            FetchAction::Finish(json) => return json,
        };
        action = fetch.step(event);
    }
}

/// Everything that the parts of a run share.
#[derive(Default)]
struct Shared {
    queue: VecDeque<String>,
    queued: Vec<String>,
    looked_up: Vec<String>,
    results: VecDeque<Json>,
    handed_in: Vec<Vec<String>>,
}

/// Lets the producer offer two overlapping lists.
fn produce(shared: &mut Shared) {
    let (mut producer, mut action) = Producer::start();
    let mut lists: VecDeque<Vec<String>> = VecDeque::new();
    lists.push_back((0..50).map(|n| n.to_string()).collect());
    lists.push_back((30..95).map(|n| n.to_string()).collect());
    loop {
        let event = match action {
            ProducerAction::Poll => ProducerEvent::Polled { shutdown: lists.is_empty() },
            ProducerAction::Fetch(_) => ProducerEvent::Fetched(lists.pop_front().unwrap()),
            ProducerAction::Sleep(_) => ProducerEvent::Woke,
            ProducerAction::Enqueue(number) => {
                shared.queue.push_back(number.clone());
                shared.queued.push(number);
                ProducerEvent::Enqueued(true)
            }
            ProducerAction::CheckQueue => {
                ProducerEvent::Queue { queued: shared.queue.len(), shutdown: false }
            }
            ProducerAction::Stop => return,
        };
        action = producer.step(event);
    }
}

/// Lets a worker look the next number up.
fn work(shared: &mut Shared) {
    if let Some(number) = shared.queue.pop_front() {
        if let WorkerAction::Forward(json) = worker(look_up(&number)) {
            shared.results.push_back(json);
        }
        shared.looked_up.push(number);
    }
}

fn submit(submitter: &mut Submitter, event: SubmitterEvent, shared: &mut Shared) {
    let step = submitter.step(event);
    shared.handed_in.extend(step.submit.unwrap_or_default());
}

#[test]
fn a_whole_run_loses_nothing() {
    let mut shared = Shared::default();
    let mut submitter = Submitter::new();
    let (mut stage, mut action) = RunStage::start();
    let mut looks: u64 = 0;
    while action != RunAction::Exit {
        let mut event = RunEvent::Done;
        match action {
            RunAction::StartProducer => produce(&mut shared),
            RunAction::CheckPending => {
                event = RunEvent::Pending {
                    count: shared.queue.len(),
                    waited_millis: looks * 200,
                };
                looks += 1;
            }
            RunAction::Rest(_) => {
                work(&mut shared);
                if let Some(result) = shared.results.pop_front() {
                    submit(&mut submitter, received_reply(&result), &mut shared);
                }
            }
            RunAction::AwaitSubmitter(_) => {
                while let Some(result) = shared.results.pop_front() {
                    submit(&mut submitter, received_reply(&result), &mut shared);
                }
                submit(&mut submitter, SubmitterEvent::Closed, &mut shared);
            }
            _ => {}
        }
        let next = stage.step(1, 5, event);
        stage = next.0;
        action = next.1;
    }
    let all: Vec<String> = (0..95).map(|n| n.to_string()).collect();
    assert_eq!(shared.queued, all);
    assert_eq!(shared.looked_up, all);
    let due: Vec<Vec<String>> = all
        .iter()
        .filter(|n| !n.ends_with('4') && !n.ends_with('8'))
        .map(|n| vec![n.clone(), "Sent".to_string(), "ok".to_string(), String::new()])
        .collect();
    assert_eq!(shared.handed_in, due);
}
