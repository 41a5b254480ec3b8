use usps_tracker::json::Json;
use usps_tracker::submitter::{received_reply, Submitter, SubmitterEvent};
use usps_tracker::worker::{worker, WorkerAction};

/// The result of a look-up: one in five was refused, one in seven has no summary.
fn result(n: usize) -> Json {
    let text = if n % 5 == 0 {
        format!(r#"{{"trackingNumber": "{}", "error": "no", "status": 403}}"#, n)
    } else if n % 7 == 0 {
        format!(r#"{{"trackingNumber": "{}", "status": "Delivered"}}"#, n)
    } else {
        format!(
            r#"{{"trackingNumber": "{}", "status": "Delivered", "statusSummary": "On May 5, 2024"}}"#,
            n
        )
    };
    Json::parse(&text).unwrap()
}

/// What a run hands in over the results, in batches.
fn batches(order: &[usize], idle_after: usize) -> Vec<Vec<Vec<String>>> {
    let mut submitter = Submitter::new();
    let mut out = Vec::new();
    for (i, n) in order.iter().enumerate() {
        if let WorkerAction::Forward(json) = worker(result(*n)) {
            let step = submitter.step(received_reply(&json));
            out.extend(step.submit);
        }
        if i == idle_after {
            out.extend(submitter.step(SubmitterEvent::Idle).submit);
        }
    }
    let step = submitter.step(SubmitterEvent::Closed);
    assert!(step.stop);
    out.extend(step.submit);
    out
}

fn due(order: &[usize]) -> Vec<Vec<String>> {
    order
        .iter()
        .filter(|n| *n % 5 != 0 && *n % 7 != 0)
        .map(|n| {
            let number = n.to_string();
            [number.as_str(), "Delivered", "On May 5, 2024", "May 5, 2024"]
                .iter()
                .map(|s| s.to_string())
                .collect()
        })
        .collect()
}

#[test]
fn a_run_hands_in_what_is_due() {
    let order: Vec<usize> = (0..200).collect();
    let all = batches(&order, 17);
    assert_eq!(all.concat(), due(&order));
    assert!(all.iter().all(|rows| !rows.is_empty() && rows.len() <= 30));
    assert!(all.last().unwrap().len() < 30);
}

#[test]
fn the_order_of_results_loses_no_row() {
    let order: Vec<usize> = (0..200).collect();
    let shuffled: Vec<usize> = (0..200).map(|n| n * 77 % 200).collect();
    let mut handed_in = batches(&shuffled, 3).concat();
    assert_eq!(handed_in, due(&shuffled));
    handed_in.sort();
    let mut expected = due(&order);
    expected.sort();
    assert_eq!(handed_in, expected);
}

#[test]
fn a_run_of_refused_requests_hands_nothing_in() {
    assert!(batches(&[0, 5, 10], 1).is_empty());
}
