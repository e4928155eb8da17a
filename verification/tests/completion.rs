use jsonrpc_engine::completion::Slot;
use jsonrpc_engine::duplex::{Duplex, Event, FlushOutcome, Inbound, Intake, Next, RpcMessage};
use jsonrpc_engine::error::Outcome;
use std::cell::RefCell;
use std::rc::Rc;

#[test]
fn first_resolution_wins() {
    let mut slot: Slot<&str> = Slot::new();
    assert!(!slot.is_resolved());
    assert_eq!(slot.take(), None);
    assert_eq!(slot.resolve("response"), None);
    assert!(slot.is_resolved());
    // The timer fires after the response has arrived: nothing changes.
    assert_eq!(slot.resolve("timeout"), Some("timeout"));
    assert_eq!(slot.take(), Some("response"));
    assert_eq!(slot.take(), None);
    assert!(slot.is_resolved());
    assert_eq!(slot.resolve("again"), Some("again"));
    assert_eq!(slot.take(), None);
}

#[test]
fn timer_wins_over_a_late_response() {
    // The caller and the correlator share the slot of a call.
    let slot: Rc<RefCell<Slot<Outcome>>> = Rc::new(RefCell::new(Slot::new()));
    let mut correlator: Duplex<Rc<RefCell<Slot<Outcome>>>> = Duplex::new();
    assert!(matches!(correlator.poll(Event::Activate).next, Next::PollIntake));
    let message =
        RpcMessage::Call { method: "slow".to_string(), params: None, sender: slot.clone() };
    assert!(matches!(
        correlator.poll(Event::Intake(Intake::Message(message))).next,
        Next::PollIntake
    ));
    assert!(matches!(
        correlator.poll(Event::Intake(Intake::NotReady)).next,
        Next::StartSend(_)
    ));
    assert!(matches!(
        correlator.poll(Event::Sent(jsonrpc_engine::duplex::SendOutcome::Accepted)).next,
        Next::PollComplete
    ));
    assert!(matches!(
        correlator.poll(Event::Flushed(FlushOutcome::Complete)).next,
        Next::PollStream
    ));

    // The caller's timer fires first.
    assert!(slot.borrow_mut().resolve(Err(jsonrpc_engine::error::RpcError::Closed)).is_none());

    // The response arrives late: the correlator is not disturbed, and the
    // caller keeps the outcome of the timer.
    let step = correlator.poll(Event::Inbound(Inbound::Payload(
        r#"{"jsonrpc":"2.0","result":1,"id":1}"#.to_string(),
    )));
    assert!(matches!(step.next, Next::PollStream));
    assert_eq!(step.completions.len(), 1);
    for completion in step.completions {
        let late = completion.sender.borrow_mut().resolve(completion.result);
        assert!(matches!(late, Some(Ok(text)) if text == "1"));
    }
    assert_eq!(correlator.pending_len(), 0);
    assert!(matches!(
        slot.borrow_mut().take(),
        Some(Err(jsonrpc_engine::error::RpcError::Closed))
    ));
}
