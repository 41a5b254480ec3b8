use usps_tracker::lifecycle::{run_length, run_seconds, RunAction, RunEvent, RunStage};
use usps_tracker::producer::{Producer, ProducerAction, ProducerEvent, ProducerStage};
use usps_tracker::report_ip::{IpAction, IpEvent, IpReport, IpStage};
use usps_tracker::submitter::{Submitter, SubmitterEvent};

fn own(text: &str) -> Option<String> {
    Some(text.to_string())
}

#[test]
fn a_run_without_a_set_length_takes_three_to_five_minutes() {
    for variable in [None, own("soon"), own("-1"), own("")] {
        for _ in 0..50 {
            let seconds = run_seconds(variable.clone());
            assert!(180 <= seconds && seconds <= 300);
        }
    }
}

#[test]
fn the_length_of_a_run_is_left_to_chance() {
    let first = run_seconds(None);
    assert!((0..500).any(|_| run_seconds(None) != first));
}

#[test]
fn the_length_of_a_run_can_be_set() {
    assert_eq!(run_seconds(own("0")), 0);
    assert_eq!(run_seconds(own("45")), 45);
    assert_eq!(run_length(own("45"), 200), 45);
    assert_eq!(run_length(own("x"), 200), 200);
    assert_eq!(run_length(None, 200), 200);
}

fn actions(events: &[RunEvent], seconds: u64) -> Vec<RunAction> {
    let (mut stage, action) = RunStage::start();
    let mut out = vec![action];
    for event in events {
        let next = stage.step(4, seconds, *event);
        stage = next.0;
        out.push(next.1);
    }
    out
}

#[test]
fn a_run_takes_its_steps_in_order() {
    let done = RunEvent::Done;
    let events = [
        done,
        done,
        done,
        done,
        done,
        done,
        RunEvent::Pending { count: 2, waited_millis: 0 },
        done,
        RunEvent::Pending { count: 0, waited_millis: 201 },
        done,
        done,
        done,
    ];
    assert_eq!(
        actions(&events, 60),
        vec![
            RunAction::ReportIp,
            RunAction::StartSubmitter,
            RunAction::StartWorkers(4),
            RunAction::StartProducer,
            RunAction::RunFor(60),
            RunAction::StopProducer,
            RunAction::CheckPending,
            RunAction::Rest(200),
            RunAction::CheckPending,
            RunAction::CloseTasks,
            RunAction::JoinWorkers,
            RunAction::AwaitSubmitter(30),
            RunAction::Exit,
        ]
    );
}

#[test]
fn the_wait_for_what_is_pending_runs_out() {
    let looked = |count: usize, waited_millis: u64| {
        RunStage::Draining.step(1, 1, RunEvent::Pending { count, waited_millis })
    };
    assert_eq!(looked(1, 119_800), (RunStage::Resting, RunAction::Rest(200)));
    assert_eq!(looked(1, 119_801), (RunStage::Resting, RunAction::Rest(199)));
    assert_eq!(looked(1, 119_999), (RunStage::Resting, RunAction::Rest(1)));
    assert_eq!(looked(1, 120_000), (RunStage::ClosingTasks, RunAction::CloseTasks));
    assert_eq!(looked(1, 130_000), (RunStage::ClosingTasks, RunAction::CloseTasks));
    assert_eq!(looked(0, 0), (RunStage::ClosingTasks, RunAction::CloseTasks));
    assert_eq!(
        RunStage::Resting.step(1, 1, RunEvent::Done),
        (RunStage::Draining, RunAction::CheckPending)
    );
}

#[test]
fn a_run_of_zero_seconds_has_no_end() {
    let done = RunEvent::Done;
    assert_eq!(actions(&[done, done, done, done], 0)[4], RunAction::RunForever);
}

fn numbers(list: &[&str]) -> Vec<String> {
    list.iter().map(|s| s.to_string()).collect()
}

/// One round in which every number is taken: the numbers that were queued.
fn round(producer: &mut Producer, list: &[&str]) -> Vec<String> {
    let action = producer.step(ProducerEvent::Polled { shutdown: false });
    assert!(matches!(action, ProducerAction::Fetch(34)));
    let mut action = producer.step(ProducerEvent::Fetched(numbers(list)));
    let mut queued: Vec<String> = Vec::new();
    while let ProducerAction::Enqueue(number) = action {
        queued.push(number);
        action = producer.step(ProducerEvent::Enqueued(true));
    }
    assert!(matches!(action, ProducerAction::CheckQueue));
    let action = producer.step(ProducerEvent::Queue { queued: 500, shutdown: false });
    assert!(matches!(action, ProducerAction::Poll));
    queued
}

#[test]
fn only_new_numbers_are_queued() {
    let (mut producer, action) = Producer::start();
    assert!(matches!(action, ProducerAction::Poll));
    assert_eq!(round(&mut producer, &["b", "a", "b", "c"]), vec!["b", "a", "c"]);
    assert_eq!(round(&mut producer, &["c", "d", "b", "d"]), vec!["d"]);
    assert_eq!(round(&mut producer, &["a"]), Vec::<String>::new());
}

#[test]
fn too_many_numbers_are_forgotten() {
    let (mut producer, _) = Producer::start();
    let many: Vec<String> = (0..10000).map(|n| n.to_string()).collect();
    let list: Vec<&str> = many.iter().map(|s| s.as_str()).collect();
    assert_eq!(round(&mut producer, &list), list);
    assert_eq!(round(&mut producer, &["5"]), Vec::<String>::new());
    assert_eq!(producer.remembered(), 10000);
    assert_eq!(round(&mut producer, &["x"]), vec!["x"]);
    assert_eq!(producer.remembered(), 0);
    assert_eq!(round(&mut producer, &["5"]), vec!["5"]);
}

#[test]
fn an_empty_round_is_followed_by_a_pause() {
    let (mut producer, _) = Producer::start();
    producer.step(ProducerEvent::Polled { shutdown: false });
    let action = producer.step(ProducerEvent::Fetched(Vec::new()));
    assert!(matches!(action, ProducerAction::Sleep(10)));
    assert!(matches!(producer.step(ProducerEvent::Woke), ProducerAction::Poll));
}

#[test]
fn a_full_queue_is_waited_for() {
    let (mut producer, _) = Producer::start();
    producer.step(ProducerEvent::Polled { shutdown: false });
    producer.step(ProducerEvent::Fetched(numbers(&["a"])));
    producer.step(ProducerEvent::Enqueued(true));
    let action = producer.step(ProducerEvent::Queue { queued: 501, shutdown: false });
    assert!(matches!(action, ProducerAction::Sleep(10)));
    assert!(matches!(producer.step(ProducerEvent::Woke), ProducerAction::CheckQueue));
    let action = producer.step(ProducerEvent::Queue { queued: 501, shutdown: true });
    assert!(matches!(action, ProducerAction::Poll));
}

#[test]
fn the_producer_stops() {
    let (mut producer, _) = Producer::start();
    let action = producer.step(ProducerEvent::Polled { shutdown: true });
    assert!(matches!(action, ProducerAction::Stop));
    assert_eq!(producer.stage(), ProducerStage::Done);

    let (mut producer, _) = Producer::start();
    producer.step(ProducerEvent::Polled { shutdown: false });
    producer.step(ProducerEvent::Fetched(numbers(&["a", "b"])));
    let action = producer.step(ProducerEvent::Enqueued(false));
    assert!(matches!(action, ProducerAction::Stop));
    assert_eq!(producer.remembered(), 0);
}

fn row(n: usize) -> Vec<String> {
    vec![n.to_string()]
}

#[test]
fn a_full_batch_is_handed_in() {
    let mut submitter = Submitter::new();
    for n in 0..29 {
        let step = submitter.step(SubmitterEvent::Received(Some(row(n))));
        assert!(step.submit.is_none() && !step.stop);
    }
    let step = submitter.step(SubmitterEvent::Received(None));
    assert!(step.submit.is_none());
    let step = submitter.step(SubmitterEvent::Received(Some(row(29))));
    let expected: Vec<Vec<String>> = (0..30).map(row).collect();
    assert_eq!(step.submit, Some(expected));
    assert!(!step.stop);
    assert_eq!(submitter.total(), 31);
    assert!(submitter.step(SubmitterEvent::Idle).submit.is_none());
}

#[test]
fn what_waits_is_handed_in_when_idle_and_at_the_end() {
    let mut submitter = Submitter::new();
    let step = submitter.step(SubmitterEvent::Idle);
    assert!(step.submit.is_none() && !step.stop);
    submitter.step(SubmitterEvent::Received(Some(row(1))));
    let step = submitter.step(SubmitterEvent::Idle);
    assert_eq!(step.submit, Some(vec![row(1)]));
    assert!(!step.stop);
    submitter.step(SubmitterEvent::Received(Some(row(2))));
    let step = submitter.step(SubmitterEvent::Closed);
    assert_eq!(step.submit, Some(vec![row(2)]));
    assert!(step.stop);
    let step = submitter.step(SubmitterEvent::Closed);
    assert!(step.submit.is_none() && step.stop);
}

#[test]
fn no_row_is_lost_over_a_run() {
    let mut submitter = Submitter::new();
    let mut handed_in: Vec<Vec<String>> = Vec::new();
    for n in 0..100 {
        let step = submitter.step(SubmitterEvent::Received(Some(row(n))));
        handed_in.extend(step.submit.unwrap_or_default());
        if n % 17 == 0 {
            let step = submitter.step(SubmitterEvent::Idle);
            handed_in.extend(step.submit.unwrap_or_default());
        }
    }
    let step = submitter.step(SubmitterEvent::Closed);
    handed_in.extend(step.submit.unwrap_or_default());
    let expected: Vec<Vec<String>> = (0..100).map(row).collect();
    assert_eq!(handed_in, expected);
}

fn url(action: IpAction) -> String {
    match action {
        IpAction::Query(url) => url,
        _ => panic!("no query"),
    }
}

#[test]
fn services_are_asked_in_order() {
    let (report, action) = IpReport::start();
    assert_eq!(url(action), "https://api.ipify.org");
    let (report, action) = report.step(IpEvent::Failed);
    assert_eq!(url(action), "https://ifconfig.me/ip");
    let (report, action) = report.step(IpEvent::Status(503));
    assert_eq!(url(action), "https://icanhazip.com");
    let (report, action) = report.step(IpEvent::Status(200));
    assert!(matches!(action, IpAction::ReadBody));
    let (report, action) = report.step(IpEvent::Body(own(" \n")));
    assert!(matches!(action, IpAction::Skip));
    assert_eq!(report.stage(), IpStage::Done);
}

#[test]
fn the_first_address_told_is_reported() {
    let (report, _) = IpReport::start();
    let (report, _) = report.step(IpEvent::Status(200));
    let (report, action) = report.step(IpEvent::Body(None));
    assert_eq!(url(action), "https://ifconfig.me/ip");
    let (report, _) = report.step(IpEvent::Status(200));
    let (report, action) = report.step(IpEvent::Body(own("1.2.3.4\n")));
    match action {
        IpAction::Report { url, ip } => {
            assert_eq!(url, "http://43.128.111.219:8082/now_ip");
            assert_eq!(ip, "1.2.3.4");
        }
        _ => panic!("no report"),
    }
    let (report, action) = report.step(IpEvent::Reported);
    assert!(matches!(action, IpAction::Stop));
    assert_eq!(report.stage(), IpStage::Done);
}
