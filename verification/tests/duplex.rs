use jsonrpc_engine::duplex::{
    duplex, Duplex, Event, Fault, FlushOutcome, Inbound, Intake, Next, Phase, RpcMessage,
    SendOutcome, Step,
};
use jsonrpc_engine::error::RpcError;

fn call(method: &str, params: Option<&str>, sender: u32) -> RpcMessage<u32> {
    RpcMessage::Call {
        method: method.to_string(),
        params: params.map(|p| p.to_string()),
        sender,
    }
}

fn notify(method: &str, params: Option<&str>) -> RpcMessage<u32> {
    RpcMessage::Notify { method: method.to_string(), params: params.map(|p| p.to_string()) }
}

fn sent_text(step: &Step<u32>) -> String {
    match &step.next {
        Next::StartSend(text) => text.clone(),
        other => panic!("expected a request to send, got {:?}", other),
    }
}

/// Drives a correlator from idle to the point where it polls the stream,
/// with a transport that takes every request.
fn drive_to_receiving(correlator: &mut Duplex<u32>, messages: Vec<RpcMessage<u32>>) -> Vec<String> {
    let mut written = Vec::new();
    let mut step = correlator.poll(Event::Activate);
    for message in messages {
        assert!(matches!(step.next, Next::PollIntake));
        step = correlator.poll(Event::Intake(Intake::Message(message)));
        assert!(step.completions.is_empty());
    }
    if matches!(step.next, Next::PollIntake) {
        step = correlator.poll(Event::Intake(Intake::NotReady));
    }
    while let Next::StartSend(text) = &step.next {
        written.push(text.clone());
        step = correlator.poll(Event::Sent(SendOutcome::Accepted));
    }
    assert!(matches!(step.next, Next::PollComplete));
    let step = correlator.poll(Event::Flushed(FlushOutcome::Complete));
    assert!(matches!(step.next, Next::PollStream));
    assert_eq!(correlator.phase(), Phase::Receiving);
    written
}

#[test]
fn new_correlator_is_idle_and_empty() {
    let correlator: Duplex<u32> = duplex();
    assert_eq!(correlator.phase(), Phase::Idle);
    assert!(correlator.intake_open());
    assert_eq!(correlator.pending_len(), 0);
    assert_eq!(correlator.outgoing_len(), 0);
    assert!(!correlator.may_finish());
}

#[test]
fn echo_call_resolves_once_and_leaves_nothing_pending() {
    let mut correlator: Duplex<u32> = Duplex::new();
    let written = drive_to_receiving(&mut correlator, vec![call("echo", Some("[\"x\"]"), 7)]);
    assert_eq!(
        written,
        vec![r#"{"jsonrpc":"2.0","method":"echo","params":["x"],"id":1}"#.to_string()]
    );
    assert_eq!(correlator.pending_len(), 1);
    assert!(correlator.is_pending(1));

    let step = correlator.poll(Event::Inbound(Inbound::Payload(
        r#"{"jsonrpc":"2.0","result":"x","id":1}"#.to_string(),
    )));
    assert!(matches!(step.next, Next::PollStream));
    assert_eq!(step.completions.len(), 1);
    assert_eq!(step.completions[0].sender, 7);
    match &step.completions[0].result {
        Ok(text) => assert_eq!(text, "\"x\""),
        Err(e) => panic!("unexpected error {:?}", e),
    }
    assert_eq!(correlator.pending_len(), 0);
    assert!(!correlator.is_pending(1));
}

#[test]
fn calls_resolve_by_identifier_in_any_arrival_order() {
    let mut correlator: Duplex<u32> = Duplex::new();
    let messages = (0..5u32).map(|i| call("m", None, 100 + i)).collect();
    let written = drive_to_receiving(&mut correlator, messages);
    assert_eq!(written.len(), 5);
    assert_eq!(written[0], r#"{"jsonrpc":"2.0","method":"m","id":1}"#);
    assert_eq!(written[4], r#"{"jsonrpc":"2.0","method":"m","id":5}"#);
    assert_eq!(correlator.pending_len(), 5);

    let mut seen = Vec::new();
    for id in [3u64, 1, 5, 2, 4] {
        let payload = format!(r#"{{"jsonrpc":"2.0","result":{},"id":{}}}"#, id * 10, id);
        let step = correlator.poll(Event::Inbound(Inbound::Payload(payload)));
        assert!(matches!(step.next, Next::PollStream));
        assert_eq!(step.completions.len(), 1);
        let completion = &step.completions[0];
        assert_eq!(completion.sender as u64, 99 + id);
        assert_eq!(completion.result.as_ref().unwrap(), &format!("{}", id * 10));
        seen.push(completion.sender);
    }
    assert_eq!(seen, vec![102, 100, 104, 101, 103]);
    assert_eq!(correlator.pending_len(), 0);
}

#[test]
fn batch_of_responses_resolves_each_call() {
    let mut correlator: Duplex<u32> = Duplex::new();
    let written =
        drive_to_receiving(&mut correlator, vec![call("a", None, 1), call("b", None, 2)]);
    assert_eq!(written.len(), 2);
    let step = correlator.poll(Event::Inbound(Inbound::Payload(
        r#"[{"jsonrpc":"2.0","result":true,"id":2},{"jsonrpc":"2.0","error":{"code":-32601,"message":"Method not found"},"id":1}]"#
            .to_string(),
    )));
    assert!(matches!(step.next, Next::PollStream));
    assert_eq!(step.completions.len(), 2);
    assert_eq!(step.completions[0].sender, 2);
    assert_eq!(step.completions[0].result.as_ref().unwrap(), "true");
    assert_eq!(step.completions[1].sender, 1);
    match &step.completions[1].result {
        Err(RpcError::JsonRpc(failure)) => {
            assert_eq!(failure.code, -32601);
            assert_eq!(failure.message, "Method not found");
            assert!(failure.data.is_none());
        }
        other => panic!("unexpected outcome {:?}", other),
    }
    assert_eq!(correlator.pending_len(), 0);
}

#[test]
fn unknown_identifier_is_fatal_and_stops_writing() {
    let mut correlator: Duplex<u32> = Duplex::new();
    drive_to_receiving(&mut correlator, vec![call("a", None, 1)]);
    // A second request is still queued when the stranger arrives.
    assert!(correlator.submit(call("b", None, 2)).is_ok());
    assert_eq!(correlator.outgoing_len(), 1);

    let step = correlator.poll(Event::Inbound(Inbound::Payload(
        r#"{"jsonrpc":"2.0","result":1,"id":42}"#.to_string(),
    )));
    assert!(matches!(step.next, Next::Fail(Fault::UnknownId)));
    assert!(step.completions.is_empty());
    assert_eq!(correlator.phase(), Phase::Failed(Fault::UnknownId));
    assert!(!correlator.intake_open());

    // Nothing is handed to the transport any more, whatever the driver says.
    for event in [
        Event::Activate,
        Event::Sent(SendOutcome::Accepted),
        Event::Flushed(FlushOutcome::Complete),
        Event::Inbound(Inbound::NotReady),
        Event::Intake(Intake::NotReady),
    ] {
        let step = correlator.poll(event);
        assert!(matches!(step.next, Next::Fail(Fault::UnknownId)));
        assert!(step.completions.is_empty());
    }
    assert_eq!(correlator.outgoing_len(), 1);
    assert_eq!(correlator.pending_len(), 2);
}

#[test]
fn unknown_identifier_after_known_ones_still_delivers_the_known() {
    let mut correlator: Duplex<u32> = Duplex::new();
    drive_to_receiving(&mut correlator, vec![call("a", None, 11), call("b", None, 12)]);
    let step = correlator.poll(Event::Inbound(Inbound::Payload(
        r#"[{"jsonrpc":"2.0","result":1,"id":1},{"jsonrpc":"2.0","result":2,"id":"x"},{"jsonrpc":"2.0","result":3,"id":2}]"#
            .to_string(),
    )));
    assert!(matches!(step.next, Next::Fail(Fault::UnknownId)));
    assert_eq!(step.completions.len(), 1);
    assert_eq!(step.completions[0].sender, 11);
    assert!(correlator.is_pending(2));
    assert!(!correlator.is_pending(1));
}

#[test]
fn duplicate_response_is_an_unknown_identifier() {
    let mut correlator: Duplex<u32> = Duplex::new();
    drive_to_receiving(&mut correlator, vec![call("a", None, 1)]);
    let payload = r#"{"jsonrpc":"2.0","result":1,"id":1}"#;
    let step = correlator.poll(Event::Inbound(Inbound::Payload(payload.to_string())));
    assert!(matches!(step.next, Next::PollStream));
    let step = correlator.poll(Event::Inbound(Inbound::Payload(payload.to_string())));
    assert!(matches!(step.next, Next::Fail(Fault::UnknownId)));
}

#[test]
fn submit_after_intake_closed_fails_and_queues_nothing() {
    let mut correlator: Duplex<u32> = Duplex::new();
    correlator.close_intake();
    let rejected = correlator.submit(call("late", None, 9)).unwrap_err();
    assert!(matches!(rejected.error, RpcError::Closed));
    assert_eq!(rejected.sender, Some(9));
    assert_eq!(correlator.outgoing_len(), 0);
    assert_eq!(correlator.pending_len(), 0);

    let rejected = correlator.submit(notify("late", None)).unwrap_err();
    assert!(matches!(rejected.error, RpcError::Closed));
    assert_eq!(rejected.sender, None);
    assert_eq!(correlator.outgoing_len(), 0);
}

#[test]
fn intake_closed_through_the_driver_rejects_later_messages() {
    let mut correlator: Duplex<u32> = Duplex::new();
    let step = correlator.poll(Event::Activate);
    assert!(matches!(step.next, Next::PollIntake));
    let step = correlator.poll(Event::Intake(Intake::Closed));
    assert!(matches!(step.next, Next::PollComplete));
    assert!(!correlator.intake_open());
    assert!(correlator.submit(call("late", None, 1)).is_err());
    assert_eq!(correlator.outgoing_len(), 0);
}

#[test]
fn notification_is_sent_but_never_pending() {
    let mut correlator: Duplex<u32> = Duplex::new();
    assert_eq!(correlator.submit(notify("tick", Some("{\"n\":1}"))).ok(), Some(None));
    assert_eq!(correlator.pending_len(), 0);
    assert_eq!(correlator.outgoing_len(), 1);

    let step = correlator.poll(Event::Activate);
    assert!(matches!(step.next, Next::PollIntake));
    let step = correlator.poll(Event::Intake(Intake::Closed));
    assert_eq!(sent_text(&step), r#"{"jsonrpc":"2.0","method":"tick","params":{"n":1}}"#);
    let step = correlator.poll(Event::Sent(SendOutcome::Accepted));
    assert!(matches!(step.next, Next::PollComplete));
    let step = correlator.poll(Event::Flushed(FlushOutcome::Complete));
    assert!(matches!(step.next, Next::PollStream));
    // Nothing waits for an answer: with the intake closed the correlator is done.
    let step = correlator.poll(Event::Inbound(Inbound::NotReady));
    assert!(matches!(step.next, Next::Ready));
    assert_eq!(correlator.phase(), Phase::Done);
}

#[test]
fn method_name_is_written_as_a_json_string() {
    let mut correlator: Duplex<u32> = Duplex::new();
    assert_eq!(correlator.submit(call("say \"hi\"\n", None, 1)).ok(), Some(Some(1)));
    let step = correlator.poll(Event::Activate);
    assert!(matches!(step.next, Next::PollIntake));
    let step = correlator.poll(Event::Intake(Intake::NotReady));
    assert_eq!(sent_text(&step), r#"{"jsonrpc":"2.0","method":"say \"hi\"\n","id":1}"#);
}

#[test]
fn rejected_request_goes_back_to_the_front() {
    let mut correlator: Duplex<u32> = Duplex::new();
    let step = correlator.poll(Event::Activate);
    assert!(matches!(step.next, Next::PollIntake));
    for (i, name) in ["a", "b", "c"].iter().enumerate() {
        let step = correlator.poll(Event::Intake(Intake::Message(call(name, None, i as u32))));
        assert!(matches!(step.next, Next::PollIntake));
    }
    let step = correlator.poll(Event::Intake(Intake::NotReady));
    let first = sent_text(&step);
    assert_eq!(first, r#"{"jsonrpc":"2.0","method":"a","id":1}"#);
    let step = correlator.poll(Event::Sent(SendOutcome::Accepted));
    let second = sent_text(&step);
    assert_eq!(second, r#"{"jsonrpc":"2.0","method":"b","id":2}"#);
    assert_eq!(correlator.outgoing_len(), 1);

    // The transport applies backpressure: the request comes back.
    let step = correlator.poll(Event::Sent(SendOutcome::Rejected(second.clone())));
    assert!(matches!(step.next, Next::PollComplete));
    assert_eq!(correlator.outgoing_len(), 2);
    let step = correlator.poll(Event::Flushed(FlushOutcome::Pending));
    assert!(matches!(step.next, Next::PollStream));
    let step = correlator.poll(Event::Inbound(Inbound::NotReady));
    assert!(matches!(step.next, Next::NotReady));
    assert_eq!(correlator.phase(), Phase::Idle);

    // The next activation writes the same request first, then the rest.
    let step = correlator.poll(Event::Activate);
    assert!(matches!(step.next, Next::PollIntake));
    let step = correlator.poll(Event::Intake(Intake::NotReady));
    assert_eq!(sent_text(&step), second);
    let step = correlator.poll(Event::Sent(SendOutcome::Accepted));
    assert_eq!(sent_text(&step), r#"{"jsonrpc":"2.0","method":"c","id":3}"#);
}

#[test]
fn finishes_only_when_closed_drained_answered_and_flushed() {
    // Intake still open: not done.
    let mut correlator: Duplex<u32> = Duplex::new();
    drive_to_receiving(&mut correlator, vec![]);
    let step = correlator.poll(Event::Inbound(Inbound::NotReady));
    assert!(matches!(step.next, Next::NotReady));

    // Intake closed but a call is pending: not done.
    let mut correlator: Duplex<u32> = Duplex::new();
    drive_to_receiving(&mut correlator, vec![call("a", None, 1)]);
    correlator.close_intake();
    assert!(!correlator.may_finish());
    let step = correlator.poll(Event::Inbound(Inbound::NotReady));
    assert!(matches!(step.next, Next::NotReady));

    // Intake closed, nothing pending, but the flush is not complete: not done.
    let mut correlator: Duplex<u32> = Duplex::new();
    let step = correlator.poll(Event::Activate);
    assert!(matches!(step.next, Next::PollIntake));
    let step = correlator.poll(Event::Intake(Intake::Closed));
    assert!(matches!(step.next, Next::PollComplete));
    let step = correlator.poll(Event::Flushed(FlushOutcome::Pending));
    assert!(matches!(step.next, Next::PollStream));
    let step = correlator.poll(Event::Inbound(Inbound::NotReady));
    assert!(matches!(step.next, Next::NotReady));

    // Now the flush completes: done.
    let step = correlator.poll(Event::Activate);
    assert!(matches!(step.next, Next::PollComplete));
    let step = correlator.poll(Event::Flushed(FlushOutcome::Complete));
    assert!(matches!(step.next, Next::PollStream));
    assert!(correlator.may_finish());
    let step = correlator.poll(Event::Inbound(Inbound::NotReady));
    assert!(matches!(step.next, Next::Ready));
    assert_eq!(correlator.phase(), Phase::Done);
    let step = correlator.poll(Event::Activate);
    assert!(matches!(step.next, Next::Ready));
}

#[test]
fn end_of_stream_finishes_despite_pending_calls() {
    let mut correlator: Duplex<u32> = Duplex::new();
    drive_to_receiving(&mut correlator, vec![call("a", None, 1)]);
    let step = correlator.poll(Event::Inbound(Inbound::End));
    assert!(matches!(step.next, Next::Ready));
    assert_eq!(correlator.phase(), Phase::Done);
    assert_eq!(correlator.pending_len(), 1);
    assert!(correlator.submit(call("late", None, 2)).is_err());
}

#[test]
fn transport_faults_end_the_correlator() {
    let mut correlator: Duplex<u32> = Duplex::new();
    assert!(correlator.submit(call("a", None, 1)).is_ok());
    let step = correlator.poll(Event::Activate);
    assert!(matches!(step.next, Next::PollIntake));
    let step = correlator.poll(Event::Intake(Intake::NotReady));
    assert!(matches!(step.next, Next::StartSend(_)));
    let step = correlator.poll(Event::Sent(SendOutcome::Failed));
    assert!(matches!(step.next, Next::Fail(Fault::Transport)));

    let mut correlator: Duplex<u32> = Duplex::new();
    let step = correlator.poll(Event::Activate);
    assert!(matches!(step.next, Next::PollIntake));
    let step = correlator.poll(Event::Intake(Intake::NotReady));
    assert!(matches!(step.next, Next::PollComplete));
    let step = correlator.poll(Event::Flushed(FlushOutcome::Failed));
    assert!(matches!(step.next, Next::Fail(Fault::Transport)));

    let mut correlator: Duplex<u32> = Duplex::new();
    drive_to_receiving(&mut correlator, vec![]);
    let step = correlator.poll(Event::Inbound(Inbound::Failed));
    assert!(matches!(step.next, Next::Fail(Fault::Transport)));
    assert_eq!(correlator.phase(), Phase::Failed(Fault::Transport));
}

#[test]
fn malformed_payload_is_a_parse_fault() {
    let mut correlator: Duplex<u32> = Duplex::new();
    drive_to_receiving(&mut correlator, vec![call("a", None, 1)]);
    let step = correlator.poll(Event::Inbound(Inbound::Payload("{not json".to_string())));
    assert!(matches!(step.next, Next::Fail(Fault::Parse)));
    assert!(step.completions.is_empty());
    assert_eq!(correlator.pending_len(), 1);
}

#[test]
fn intake_error_is_polled_again() {
    let mut correlator: Duplex<u32> = Duplex::new();
    let step = correlator.poll(Event::Activate);
    assert!(matches!(step.next, Next::PollIntake));
    let step = correlator.poll(Event::Intake(Intake::Failed));
    assert!(matches!(step.next, Next::PollIntake));
    assert_eq!(correlator.phase(), Phase::Intake);
}

#[test]
fn event_out_of_turn_is_a_fault() {
    let mut correlator: Duplex<u32> = Duplex::new();
    let step = correlator.poll(Event::Sent(SendOutcome::Accepted));
    assert!(matches!(step.next, Next::Fail(Fault::OutOfTurn)));
    assert_eq!(correlator.phase(), Phase::Failed(Fault::OutOfTurn));
}

#[test]
fn message_rejected_during_intake_comes_back_as_a_completion() {
    let mut correlator: Duplex<u32> = Duplex::new();
    let step = correlator.poll(Event::Activate);
    assert!(matches!(step.next, Next::PollIntake));
    correlator.close_intake();
    let step = correlator.poll(Event::Intake(Intake::Message(call("a", None, 5))));
    assert!(matches!(step.next, Next::PollIntake));
    assert_eq!(step.completions.len(), 1);
    assert_eq!(step.completions[0].sender, 5);
    assert!(matches!(step.completions[0].result, Err(RpcError::Closed)));
    assert_eq!(correlator.outgoing_len(), 0);
}

#[test]
fn pending_identifier_is_skipped_when_assigning() {
    let mut correlator: Duplex<u32> = Duplex::new();
    assert_eq!(correlator.submit(call("a", None, 1)).ok(), Some(Some(1)));
    assert_eq!(correlator.submit(call("b", None, 2)).ok(), Some(Some(2)));
    assert_eq!(correlator.submit(notify("n", None)).ok(), Some(None));
    assert_eq!(correlator.submit(call("c", None, 3)).ok(), Some(Some(3)));
    assert!(correlator.is_pending(1) && correlator.is_pending(2) && correlator.is_pending(3));
    assert_eq!(correlator.pending_len(), 3);
    assert_eq!(correlator.outgoing_len(), 4);
}

#[test]
fn abandoned_calls_are_reclaimed() {
    let mut correlator: Duplex<u32> = Duplex::new();
    drive_to_receiving(
        &mut correlator,
        vec![call("a", None, 10), call("b", None, 21), call("c", None, 30), call("d", None, 41)],
    );
    assert_eq!(correlator.pending_len(), 4);
    // The callers with odd sinks have gone.
    correlator.reclaim(|sink: &u32| sink % 2 == 1);
    assert_eq!(correlator.pending_len(), 2);
    assert!(correlator.is_pending(1) && correlator.is_pending(3));
    assert!(!correlator.is_pending(2) && !correlator.is_pending(4));
    assert_eq!(correlator.phase(), Phase::Receiving);
    // Nobody has gone: nothing changes.
    correlator.reclaim(|_: &u32| false);
    assert_eq!(correlator.pending_len(), 2);
    // The answers to the calls that are left still arrive.
    let step = correlator.poll(Event::Inbound(Inbound::Payload(
        r#"{"jsonrpc":"2.0","result":1,"id":3}"#.to_string(),
    )));
    assert_eq!(step.completions.len(), 1);
    assert_eq!(step.completions[0].sender, 30);
    // A late answer to a call that was reclaimed finds no call.
    let step = correlator.poll(Event::Inbound(Inbound::Payload(
        r#"{"jsonrpc":"2.0","result":1,"id":2}"#.to_string(),
    )));
    assert!(matches!(step.next, Next::Fail(Fault::UnknownId)));
}

#[test]
fn reclaimed_identifier_is_free_again() {
    let mut correlator: Duplex<u32> = Duplex::new();
    assert_eq!(correlator.submit(call("a", None, 1)).ok(), Some(Some(1)));
    correlator.reclaim(|_: &u32| true);
    assert_eq!(correlator.pending_len(), 0);
    // The search goes on from where it stood: identifiers are not reused early.
    assert_eq!(correlator.submit(call("b", None, 2)).ok(), Some(Some(2)));
}
