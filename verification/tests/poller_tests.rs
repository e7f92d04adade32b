use completion_pipeline::poller::{
    decode_record, poll_step, wait_until_terminal, ExecutionRecord, ExecutionStatus, PollOutcome,
    PollStep,
};

fn record(status: ExecutionStatus, result: Option<&str>) -> ExecutionRecord {
    ExecutionRecord {
        status,
        result_text: result.map(|s| s.to_string()),
    }
}

#[test]
fn pending_then_done_within_deadline_succeeds() {
    let observations = vec![
        record(ExecutionStatus::Pending, None),
        record(ExecutionStatus::Pending, None),
        record(ExecutionStatus::Done, Some("a poem")),
    ];
    match wait_until_terminal(&observations, 1, 120) {
        PollOutcome::Success { result_text } => assert_eq!(result_text, "a poem"),
        _ => panic!("expected success"),
    }
}

#[test]
fn never_done_past_deadline_times_out_with_snapshot() {
    let observations = vec![
        record(ExecutionStatus::Pending, None),
        record(ExecutionStatus::Running, None),
        record(ExecutionStatus::Running, Some("partial")),
        record(ExecutionStatus::Running, None),
    ];
    match wait_until_terminal(&observations, 1, 2) {
        PollOutcome::Timeout { snapshot } => {
            // elapsed passes the deadline of 2 at the fourth read
            assert!(matches!(snapshot.status, ExecutionStatus::Running));
            assert_eq!(snapshot.result_text, None);
        }
        _ => panic!("expected a timeout"),
    }
}

#[test]
fn done_with_empty_result_is_incomplete() {
    let observations = vec![
        record(ExecutionStatus::Pending, None),
        record(ExecutionStatus::Done, Some("")),
    ];
    assert!(matches!(
        wait_until_terminal(&observations, 1, 120),
        PollOutcome::IncompleteResult
    ));
}

#[test]
fn done_with_missing_result_is_incomplete() {
    let observations = vec![record(ExecutionStatus::Done, None)];
    assert!(matches!(
        wait_until_terminal(&observations, 1, 120),
        PollOutcome::IncompleteResult
    ));
}

#[test]
fn done_after_deadline_still_succeeds() {
    // The record is checked for being done before the clock is consulted.
    let observations = vec![
        record(ExecutionStatus::Pending, None),
        record(ExecutionStatus::Done, Some("late but done")),
    ];
    match wait_until_terminal(&observations, 100, 50) {
        PollOutcome::Success { result_text } => assert_eq!(result_text, "late but done"),
        _ => panic!("expected success"),
    }
}

#[test]
fn failed_status_is_waited_out_like_any_other() {
    let observations = vec![
        record(ExecutionStatus::Failed, None),
        record(ExecutionStatus::Failed, None),
    ];
    match wait_until_terminal(&observations, 60, 50) {
        PollOutcome::Timeout { snapshot } => {
            assert!(matches!(snapshot.status, ExecutionStatus::Failed));
        }
        _ => panic!("expected a timeout"),
    }
}

#[test]
fn poll_step_keeps_waiting_before_the_deadline() {
    let r = poll_step(record(ExecutionStatus::Pending, None), 10, 120);
    assert!(matches!(r, PollStep::KeepWaiting));
}

#[test]
fn poll_step_times_out_strictly_after_the_deadline() {
    let r = poll_step(record(ExecutionStatus::Pending, None), 120, 120);
    assert!(matches!(r, PollStep::KeepWaiting));
    let r = poll_step(record(ExecutionStatus::Pending, None), 121, 120);
    assert!(matches!(r, PollStep::TimedOut { .. }));
}

#[test]
fn poll_step_completes_on_done_with_result() {
    let r = poll_step(record(ExecutionStatus::Done, Some("x")), 0, 120);
    match r {
        PollStep::Complete { result_text } => assert_eq!(result_text, "x"),
        _ => panic!("expected completion"),
    }
}

#[test]
fn decode_record_reads_status_and_response() {
    let doc = b"{\"status\":\"SUCCESS\",\"cluster_response\":\"a poem\"}";
    let rec = decode_record(doc).unwrap();
    assert!(matches!(rec.status, ExecutionStatus::Done));
    assert_eq!(rec.result_text.as_deref(), Some("a poem"));
}

#[test]
fn decode_record_maps_the_wire_statuses() {
    let doc = b"{\"status\":\"PENDING\"}";
    assert!(matches!(
        decode_record(doc).unwrap().status,
        ExecutionStatus::Pending
    ));
    let doc = b"{\"status\":\"RUNNING\"}";
    assert!(matches!(
        decode_record(doc).unwrap().status,
        ExecutionStatus::Running
    ));
    let doc = b"{\"status\":\"FAILED\"}";
    assert!(matches!(
        decode_record(doc).unwrap().status,
        ExecutionStatus::Failed
    ));
    let doc = b"{\"status\":\"SOMETHING_NEW\"}";
    assert!(matches!(
        decode_record(doc).unwrap().status,
        ExecutionStatus::Other
    ));
}

#[test]
fn running_out_of_observations_is_reported() {
    let observations = vec![record(ExecutionStatus::Pending, None)];
    assert!(matches!(
        wait_until_terminal(&observations, 1, 120),
        PollOutcome::ObservationsEnded
    ));
}

#[test]
fn decode_record_without_status_fails() {
    assert!(decode_record(b"{\"cluster_response\":\"x\"}").is_none());
    assert!(decode_record(b"not json").is_none());
}
