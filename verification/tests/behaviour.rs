use pipedream_rs::{
    handler_outcome, release_tracker, Completion, Envelope, Fault, Fetched, HandlerAction,
    HandlerEvent, HandlerOutcome, Inner, IntoResult, PanicPayload, Payload, PendingSend,
    ReadyGuard, Received, Relay, RelayIds, RelayReceiver, RelaySender, SendError, SendStep,
    TrackerTable, TypeKey, WaitAction, WaitPoint, DEFAULT_CHANNEL_SIZE,
};
use std::any::{Any, TypeId};
use std::sync::Arc;

type Message = Payload<u32, String>;
type State = Inner<u32, String>;
type Trackers = TrackerTable<String>;

struct Red;
struct Blue;

fn key<T: Any>() -> TypeKey {
    TypeKey::Of(TypeId::of::<T>())
}

fn message<T: Any>(value: u32) -> Message {
    Payload::Value { value, type_id: TypeId::of::<T>(), label: "colour" }
}

fn setup(size: usize) -> (State, RelaySender, RelayReceiver, Trackers) {
    let mut ids = RelayIds::new();
    let (inner, tx, rx) = Relay::channel_with_size(&mut ids, size);
    (inner, tx, rx, TrackerTable::new())
}

fn value(payload: &Message) -> u32 {
    match payload {
        Payload::Value { value, .. } => *value,
        _ => panic!("no value"),
    }
}

/// The value that a subscription yields next.
fn next(inner: &mut State, trackers: &mut Trackers, subscription: u64) -> Option<u32> {
    inner.try_recv(subscription, trackers).map(|m| value(&m))
}

/// Begin to send, and go on as far as it goes without waiting.
fn send(
    inner: &mut State,
    trackers: &mut Trackers,
    tx: &RelaySender,
    m: Message,
) -> SendStep<u32, String> {
    match tx.send(inner, m) {
        Ok(pending) => pending.step(inner, trackers),
        Err(error) => SendStep::Finished(Err(error)),
    }
}

fn waiting(step: SendStep<u32, String>) -> PendingSend<u32, String> {
    match step {
        SendStep::WaitCompletion(pending) => pending,
        _ => panic!("does not wait"),
    }
}

fn done(step: SendStep<u32, String>) -> bool {
    matches!(step, SendStep::Finished(Ok(())))
}

#[test]
fn relays_have_ids_of_their_own() {
    let mut ids = RelayIds::new();
    let (a, ta, ra) = Relay::channel::<u32, String>(&mut ids);
    let (b, tb, rb) = Relay::channel::<u32, String>(&mut ids);
    assert_eq!(a.id(), 1);
    assert_eq!(b.id(), 2);
    assert_eq!((ta.id(), ra.id()), (1, 1));
    assert_eq!((tb.id(), rb.id()), (2, 2));
    assert_eq!(DEFAULT_CHANNEL_SIZE, 65536);
}

#[test]
fn order_is_kept_and_other_types_are_skipped() {
    let (mut inner, tx, rx, mut trackers) = setup(8);
    let sub = rx.subscribe(&mut inner, key::<Red>());
    for n in 0..3 {
        assert!(done(send(&mut inner, &mut trackers, &tx, message::<Blue>(100 + n))));
        assert!(done(send(&mut inner, &mut trackers, &tx, message::<Red>(n))));
    }
    assert_eq!(next(&mut inner, &mut trackers, sub), Some(0));
    assert_eq!(inner.current_msg_id(sub), Some(1));
    assert_eq!(next(&mut inner, &mut trackers, sub), Some(1));
    assert_eq!(next(&mut inner, &mut trackers, sub), Some(2));
    assert_eq!(inner.current_msg_id(sub), Some(5));
    assert_eq!(next(&mut inner, &mut trackers, sub), None);
    assert_eq!(inner.current_msg_id(sub), None);
}

#[test]
fn a_full_mailbox_drops_the_newest_and_reports_it() {
    let (mut inner, tx, rx, mut trackers) = setup(2);
    let slow = rx.subscribe(&mut inner, key::<Red>());
    let watch = rx.subscribe(&mut inner, TypeKey::Dropped);
    for n in 0..2 {
        assert!(done(send(&mut inner, &mut trackers, &tx, message::<Red>(n))));
        // The monitor skips what it does not want.
        assert_eq!(next(&mut inner, &mut trackers, watch), None);
    }
    assert!(done(send(&mut inner, &mut trackers, &tx, message::<Red>(2))));
    match inner.try_recv(watch, &mut trackers).as_deref() {
        Some(Payload::Dropped(dropped)) => {
            assert_eq!(dropped.msg_id, 2);
            assert_eq!(dropped.origin_stream_id, 1);
            assert_eq!(dropped.event_type_name, "colour");
        }
        _ => panic!("no notice"),
    }
    assert_eq!(next(&mut inner, &mut trackers, slow), Some(0));
    assert_eq!(next(&mut inner, &mut trackers, slow), Some(1));
    assert_eq!(next(&mut inner, &mut trackers, slow), None);
    // There is room again.
    assert!(done(send(&mut inner, &mut trackers, &tx, message::<Red>(3))));
    assert_eq!(next(&mut inner, &mut trackers, slow), Some(3));
}

#[test]
fn nothing_is_reported_while_everyone_keeps_up() {
    let (mut inner, tx, rx, mut trackers) = setup(1);
    let watch = rx.subscribe_all(&mut inner);
    assert!(done(send(&mut inner, &mut trackers, &tx, message::<Red>(5))));
    match inner.recv_envelope(watch) {
        Fetched::Item(envelope) => {
            assert_eq!(value(&envelope.value), 5);
            assert_eq!(envelope.origin(), 1);
        }
        _ => panic!("no envelope"),
    }
    assert!(matches!(inner.recv_envelope(watch), Fetched::Empty));
    tx.close(&mut inner);
    assert!(matches!(inner.recv_envelope(watch), Fetched::Disconnected));
}

#[test]
fn subscribe_all_yields_every_type() {
    let (mut inner, tx, rx, mut trackers) = setup(4);
    let all = rx.subscribe_all(&mut inner);
    assert!(done(send(&mut inner, &mut trackers, &tx, message::<Red>(1))));
    assert!(done(send(&mut inner, &mut trackers, &tx, message::<Blue>(2))));
    assert_eq!(next(&mut inner, &mut trackers, all), Some(1));
    assert_eq!(next(&mut inner, &mut trackers, all), Some(2));
}

#[test]
fn a_closed_relay_refuses_and_changes_nothing() {
    let (mut inner, tx, rx, mut trackers) = setup(4);
    let sub = rx.subscribe(&mut inner, key::<Red>());
    assert!(done(send(&mut inner, &mut trackers, &tx, message::<Red>(1))));
    tx.close(&mut inner);
    assert!(matches!(
        send(&mut inner, &mut trackers, &tx, message::<Red>(2)),
        SendStep::Finished(Err(SendError::Closed))
    ));
    let envelope = Envelope::new(message::<Red>(3), 0, None);
    assert!(matches!(tx.send_envelope(&inner, envelope.clone()), Err(SendError::Closed)));
    assert!(tx.deliver_envelope(&mut inner, &mut trackers, &envelope).is_ok());
    assert_eq!(next(&mut inner, &mut trackers, sub), Some(1));
    assert!(matches!(inner.recv(sub, &mut trackers), Received::Closed));
    assert!(matches!(inner.recv(sub, &mut trackers), Received::Closed));
}

#[test]
fn subscribing_to_a_closed_relay_yields_nothing() {
    let (mut inner, tx, rx, mut trackers) = setup(4);
    tx.close(&mut inner);
    let sub = rx.subscribe(&mut inner, key::<Red>());
    assert!(matches!(inner.recv(sub, &mut trackers), Received::Closed));
}

#[test]
fn weak_senders_need_an_open_relay() {
    let (mut inner, tx, rx, mut trackers) = setup(4);
    let sub = rx.subscribe(&mut inner, key::<Red>());
    let weak = tx.weak();
    assert!(!weak.is_closed(Some(&inner)));
    assert!(weak.is_closed::<u32, String>(None));

    let pending = weak.send(Some(&mut inner), message::<Red>(1)).unwrap();
    assert!(done(pending.step(&mut inner, &mut trackers)));
    let shared = Arc::new(message::<Red>(2));
    let pending = weak
        .send_any(Some(&mut inner), shared.clone(), key::<Red>())
        .unwrap();
    assert!(done(pending.step(&mut inner, &mut trackers)));
    let pending = weak
        .send_any_with_origin(Some(&mut inner), shared.clone(), key::<Red>(), 9)
        .unwrap();
    assert!(done(pending.step(&mut inner, &mut trackers)));
    assert_eq!(next(&mut inner, &mut trackers, sub), Some(1));
    assert_eq!(next(&mut inner, &mut trackers, sub), Some(2));
    assert_eq!(next(&mut inner, &mut trackers, sub), Some(2));

    assert!(matches!(
        weak.send::<u32, String>(None, message::<Red>(1)),
        Err(SendError::Closed)
    ));
    assert!(matches!(
        weak.send_any::<u32, String>(None, shared.clone(), key::<Red>()),
        Err(SendError::Closed)
    ));
    tx.drop(&mut inner);
    assert!(weak.is_closed(Some(&inner)));
    assert!(matches!(
        weak.send(Some(&mut inner), message::<Red>(1)),
        Err(SendError::Closed)
    ));
    assert!(matches!(
        weak.send_any_with_origin(Some(&mut inner), shared, key::<Red>(), 9),
        Err(SendError::Closed)
    ));
    let envelope = Envelope::new(message::<Red>(3), 0, None);
    assert!(matches!(weak.send_envelope_inner(&inner, envelope), Err(SendError::Closed)));
}

#[test]
fn messages_are_numbered_in_turn() {
    let (mut inner, tx, rx, mut trackers) = setup(8);
    let all = rx.subscribe_all(&mut inner);
    for n in 0..3 {
        assert!(done(send(&mut inner, &mut trackers, &tx, message::<Red>(n))));
    }
    for n in 0..3u64 {
        match inner.recv_envelope(all) {
            Fetched::Item(envelope) => assert_eq!(envelope.msg_id(), n),
            _ => panic!("no envelope"),
        }
    }
}

#[test]
fn the_first_relay_stamps_its_id() {
    let mut ids = RelayIds::new();
    let mut trackers: Trackers = TrackerTable::new();
    let (mut a, ta, ra) = Relay::channel_with_size::<u32, String>(&mut ids, 4);
    let (mut b, tb, rb) = Relay::channel_with_size::<u32, String>(&mut ids, 4);
    let from_a = ra.subscribe_all(&mut a);
    let from_b = rb.subscribe_all(&mut b);

    let envelope = Envelope::new(message::<Red>(1), 5, None);
    let pending = ta.send_envelope(&a, envelope).unwrap();
    assert!(done(pending.step(&mut a, &mut trackers)));
    let envelope = match a.recv_envelope(from_a) {
        Fetched::Item(envelope) => envelope,
        _ => panic!("no envelope"),
    };
    assert_eq!(envelope.origin(), 1);

    let pending = tb.send_envelope(&b, envelope).unwrap();
    assert!(done(pending.step(&mut b, &mut trackers)));
    match b.recv_envelope(from_b) {
        Fetched::Item(envelope) => {
            assert_eq!(envelope.origin(), 1);
            assert_eq!(envelope.msg_id(), 5);
        }
        _ => panic!("no envelope"),
    }

    let shared = Arc::new(message::<Red>(2));
    let pending = ta.send_any_with_origin(&mut a, shared, key::<Red>(), 77).unwrap();
    assert!(done(pending.step(&mut a, &mut trackers)));
    match a.recv_envelope(from_a) {
        Fetched::Item(envelope) => assert_eq!(envelope.origin(), 77),
        _ => panic!("no envelope"),
    }
}

#[test]
fn a_sending_waits_for_the_handlers_of_the_moment() {
    let (mut inner, tx, rx, mut trackers) = setup(4);
    let first = rx.sink(&mut inner, key::<Red>());
    let pending = tx.send(&mut inner, message::<Red>(1)).unwrap();
    // Not yet delivered: this one is waited for too.
    let second = rx.sink(&mut inner, key::<Red>());
    let mut pending = waiting(pending.step(&mut inner, &mut trackers));
    assert_eq!(trackers.get(0).map(|t| t.expected()), Some(2));
    // This one comes too late.
    let late = rx.sink(&mut inner, key::<Red>());
    assert_eq!(tx.handler_count(&inner), 3);

    for task in [&first, &second] {
        assert!(!trackers.take_signal());
        pending = waiting(pending.step(&mut inner, &mut trackers));
        let step = task.advance(&mut inner, &mut trackers, HandlerEvent::Ready);
        assert!(matches!(step.action, HandlerAction::Run(_)));
        let ended = HandlerEvent::Ended(HandlerOutcome::Completed);
        let step = task.advance(&mut inner, &mut trackers, ended);
        assert!(matches!(step.action, HandlerAction::Wait));
        assert!(step.emit.is_none());
    }
    assert!(trackers.take_signal());
    assert!(done(pending.step(&mut inner, &mut trackers)));
    let step = late.advance(&mut inner, &mut trackers, HandlerEvent::Ready);
    assert!(matches!(step.action, HandlerAction::Wait));
}

#[test]
fn handlers_complete_messages_of_other_types_at_once() {
    let (mut inner, tx, rx, mut trackers) = setup(4);
    let red = rx.sink(&mut inner, key::<Red>());
    let blue = rx.tap(&mut inner, key::<Blue>());
    let pending = waiting(send(&mut inner, &mut trackers, &tx, message::<Red>(1)));
    let step = blue.advance(&mut inner, &mut trackers, HandlerEvent::Ready);
    assert!(matches!(step.action, HandlerAction::Wait));
    let pending = waiting(pending.step(&mut inner, &mut trackers));
    let step = red.advance(&mut inner, &mut trackers, HandlerEvent::Ready);
    assert!(matches!(step.action, HandlerAction::Run(_)));
    let pending = waiting(pending.step(&mut inner, &mut trackers));
    let ended = HandlerEvent::Ended(HandlerOutcome::Completed);
    red.advance(&mut inner, &mut trackers, ended);
    assert!(done(pending.step(&mut inner, &mut trackers)));
}

#[test]
fn untracked_subscriptions_complete_nothing() {
    let (mut inner, tx, rx, mut trackers) = setup(4);
    let sub = rx.subscribe(&mut inner, key::<Blue>());
    assert!(!inner.is_tracked(sub));
    let task = rx.sink(&mut inner, key::<Red>());
    let pending = waiting(send(&mut inner, &mut trackers, &tx, message::<Red>(1)));
    assert_eq!(next(&mut inner, &mut trackers, sub), None);
    let pending = waiting(pending.step(&mut inner, &mut trackers));
    inner.unsubscribe(sub, &mut trackers);
    assert!(!inner.has(sub));
    let pending = waiting(pending.step(&mut inner, &mut trackers));
    let step = task.advance(&mut inner, &mut trackers, HandlerEvent::Ready);
    assert!(matches!(step.action, HandlerAction::Run(_)));
    let ended = HandlerEvent::Ended(HandlerOutcome::Completed);
    task.advance(&mut inner, &mut trackers, ended);
    assert!(done(pending.step(&mut inner, &mut trackers)));
}

#[test]
fn a_handler_that_goes_away_fails_what_it_had_not_received() {
    let (mut inner, tx, rx, mut trackers) = setup(4);
    let task = rx.sink(&mut inner, key::<Red>());
    let first = waiting(send(&mut inner, &mut trackers, &tx, message::<Red>(1)));
    let second = waiting(send(&mut inner, &mut trackers, &tx, message::<Blue>(2)));
    let third = waiting(send(&mut inner, &mut trackers, &tx, message::<Red>(3)));
    task.drop(&mut inner, &mut trackers);
    assert!(trackers.take_signal());
    for (pending, id) in [(first, 0), (third, 2)] {
        match pending.step(&mut inner, &mut trackers) {
            SendStep::Finished(Err(SendError::Downstream(error))) => {
                assert_eq!(error.source, "subscription");
                assert_eq!(error.msg_id, id);
                assert!(matches!(&*error.error, Fault::Interrupted));
            }
            _ => panic!("no error"),
        }
    }
    // It could not have processed the one of another type.
    assert!(done(second.step(&mut inner, &mut trackers)));
    assert_eq!(tx.handler_count(&inner), 0);
}

#[test]
fn a_handler_that_misses_a_message_is_not_waited_for() {
    let (mut inner, tx, rx, mut trackers) = setup(1);
    let busy = rx.sink(&mut inner, key::<Red>());
    let first = waiting(send(&mut inner, &mut trackers, &tx, message::<Red>(1)));
    // The only handler has no room.
    assert!(done(send(&mut inner, &mut trackers, &tx, message::<Red>(2))));
    let idle = rx.sink(&mut inner, key::<Red>());
    // One of two has.
    let third = waiting(send(&mut inner, &mut trackers, &tx, message::<Red>(3)));
    assert_eq!(trackers.get(2).map(|t| (t.expected(), t.completed())), Some((2, 1)));

    for (task, pending, n) in [(&idle, third, 3), (&busy, first, 1)] {
        let step = task.advance(&mut inner, &mut trackers, HandlerEvent::Ready);
        match step.action {
            HandlerAction::Run(m) => assert_eq!(value(&m), n),
            _ => panic!("no message"),
        }
        let pending = waiting(pending.step(&mut inner, &mut trackers));
        let ended = HandlerEvent::Ended(HandlerOutcome::Completed);
        let step = task.advance(&mut inner, &mut trackers, ended);
        assert!(matches!(step.action, HandlerAction::Wait));
        assert!(done(pending.step(&mut inner, &mut trackers)));
    }
}

#[test]
fn a_relay_that_closes_before_delivery_makes_nobody_wait() {
    let (mut inner, tx, rx, mut trackers) = setup(4);
    let _task = rx.sink(&mut inner, key::<Red>());
    let pending = tx.send(&mut inner, message::<Red>(1)).unwrap();
    tx.close(&mut inner);
    assert!(done(pending.step(&mut inner, &mut trackers)));
}

#[test]
fn a_handler_that_goes_away_fails_its_message() {
    let (mut inner, tx, rx, mut trackers) = setup(4);
    let task = rx.sink(&mut inner, key::<Red>());
    let pending = waiting(send(&mut inner, &mut trackers, &tx, message::<Red>(1)));
    let step = task.advance(&mut inner, &mut trackers, HandlerEvent::Ready);
    assert!(matches!(step.action, HandlerAction::Run(_)));
    task.drop(&mut inner, &mut trackers);
    assert_eq!(tx.handler_count(&inner), 0);
    match pending.step(&mut inner, &mut trackers) {
        SendStep::Finished(Err(SendError::Downstream(error))) => {
            assert_eq!(error.source, "subscription");
            assert_eq!(error.msg_id, 0);
            assert!(matches!(&*error.error, Fault::Interrupted));
        }
        _ => panic!("no error"),
    }
}

#[test]
fn a_settled_message_is_not_failed_again() {
    let (mut inner, tx, rx, mut trackers) = setup(4);
    let sub = rx.subscribe_tracked(&mut inner, key::<Red>());
    assert!(inner.is_tracked(sub));
    let pending = waiting(send(&mut inner, &mut trackers, &tx, message::<Red>(1)));
    assert_eq!(next(&mut inner, &mut trackers, sub), Some(1));
    let tracker = inner.current_tracker(sub);
    assert!(tracker.is_some());
    trackers.complete_one(tracker);
    inner.clear_tracker(sub);
    assert!(inner.current_tracker(sub).is_none());
    inner.unsubscribe(sub, &mut trackers);
    assert!(done(pending.step(&mut inner, &mut trackers)));
}

#[test]
fn failures_go_to_the_sender_and_through_the_relay() {
    let (mut inner, tx, rx, mut trackers) = setup(4);
    let task = rx.tap(&mut inner, key::<Red>());
    let pending = waiting(send(&mut inner, &mut trackers, &tx, message::<Red>(1)));
    task.advance(&mut inner, &mut trackers, HandlerEvent::Ready);
    let ended = HandlerEvent::Ended(HandlerOutcome::Failed("no red".to_string()));
    let step = task.advance(&mut inner, &mut trackers, ended);
    let emitted = step.emit.expect("nothing emitted");
    assert_eq!(emitted.to_text("no red"), "[tap] msg 0: no red");
    match pending.step(&mut inner, &mut trackers) {
        SendStep::Finished(Err(SendError::Downstream(error))) => {
            assert!(Arc::ptr_eq(&error.error, &emitted.error));
        }
        _ => panic!("no error"),
    }
}

#[test]
fn an_own_tracker_is_kept() {
    let (mut inner, tx, rx, mut trackers) = setup(4);
    let task = rx.sink(&mut inner, key::<Red>());
    let tracker = trackers.create(1);
    let envelope = Envelope::new(message::<Red>(1), 8, Some(tracker));
    let pending = tx.send_envelope(&inner, envelope).unwrap();
    let pending = waiting(pending.step(&mut inner, &mut trackers));
    task.advance(&mut inner, &mut trackers, HandlerEvent::Ready);
    let panicked = HandlerEvent::Ended(HandlerOutcome::Panicked(PanicPayload::Other));
    task.advance(&mut inner, &mut trackers, panicked);
    match pending.step(&mut inner, &mut trackers) {
        SendStep::Finished(Err(SendError::Downstream(error))) => {
            assert_eq!(error.msg_id, 8);
            assert_eq!(
                error.to_text(""),
                "[sink] msg 8: panic: panic occurred (non-string payload)"
            );
        }
        _ => panic!("no error"),
    }
    assert!(trackers.get(tracker).is_some());
    assert!(trackers.take_error(tracker).is_none());
}

#[test]
fn a_handler_ends_once_a_closed_relay_is_drained() {
    let (mut inner, tx, rx, mut trackers) = setup(4);
    let task = rx.sink(&mut inner, key::<Red>());
    let pending = waiting(send(&mut inner, &mut trackers, &tx, message::<Red>(1)));
    tx.close(&mut inner);
    let step = task.advance(&mut inner, &mut trackers, HandlerEvent::Ready);
    assert!(matches!(step.action, HandlerAction::Run(_)));
    let ended = HandlerEvent::Ended(HandlerOutcome::Completed);
    let step = task.advance(&mut inner, &mut trackers, ended);
    assert!(matches!(step.action, HandlerAction::Exit));
    assert!(done(pending.step(&mut inner, &mut trackers)));
    task.drop(&mut inner, &mut trackers);
    assert_eq!(tx.handler_count(&inner), 0);
}

#[test]
fn senders_wait_until_tasks_are_ready() {
    let (mut inner, tx, rx, mut trackers) = setup(4);
    let sub = rx.subscribe(&mut inner, key::<Red>());
    let mut guard = ReadyGuard::new(&mut inner);
    assert!(!inner.is_ready());
    assert_eq!(inner.wait_ready(WaitPoint::Entered), WaitAction::Register);
    assert_eq!(inner.wait_ready(WaitPoint::Registered), WaitAction::Await);
    let pending = match send(&mut inner, &mut trackers, &tx, message::<Red>(1)) {
        SendStep::WaitReady(pending) => pending,
        _ => panic!("does not wait"),
    };
    assert_eq!(next(&mut inner, &mut trackers, sub), None);
    assert!(!inner.take_ready_signal());
    guard.signal(&mut inner);
    guard.signal(&mut inner);
    guard.drop(&mut inner);
    assert!(inner.take_ready_signal());
    assert!(!inner.take_ready_signal());
    assert!(inner.is_ready());
    assert_eq!(inner.wait_ready(WaitPoint::Entered), WaitAction::Proceed);
    assert_eq!(inner.wait_ready(WaitPoint::Registered), WaitAction::Proceed);
    assert!(done(pending.step(&mut inner, &mut trackers)));
    assert_eq!(next(&mut inner, &mut trackers, sub), Some(1));
    // It was counted once.
    let other = ReadyGuard::new(&mut inner);
    assert!(!inner.is_ready());
    other.drop(&mut inner);
    assert!(inner.is_ready());
}

#[test]
fn tasks_of_the_program_report_their_panics() {
    let (_inner, _tx, rx, _trackers) = setup(4);
    assert!(rx.within::<String>(Ok(())).is_none());
    let error = rx.within::<String>(Err(PanicPayload::Literal("oops"))).expect("no report");
    assert_eq!(error.to_text(""), "[within] msg 0: panic: oops");
}

#[test]
fn handlers_may_return_nothing_or_a_result() {
    assert!(().into_result().is_ok());
    assert_eq!(Err::<(), u8>(3).into_result(), Err(3));
    assert!(matches!(handler_outcome(Ok(())), HandlerOutcome::Completed));
    assert!(matches!(handler_outcome(Ok(Ok::<(), u8>(()))), HandlerOutcome::Completed));
    assert!(matches!(handler_outcome(Ok(Err::<(), u8>(7))), HandlerOutcome::Failed(7)));
    let panicked: Result<(), PanicPayload> = Err(PanicPayload::Other);
    assert!(matches!(handler_outcome(panicked), HandlerOutcome::Panicked(PanicPayload::Other)));
}

#[test]
fn giving_up_a_sending_leaves_the_tracker() {
    let (mut inner, tx, rx, mut trackers) = setup(4);
    let task = rx.sink(&mut inner, key::<Red>());
    drop(waiting(send(&mut inner, &mut trackers, &tx, message::<Red>(1))));
    assert!(!trackers.is_complete(0));
    assert_eq!(trackers.wait_owned(0), Completion::AwaitNotification);
    // The handler has the message all the same, and completes it.
    let step = task.advance(&mut inner, &mut trackers, HandlerEvent::Ready);
    match step.action {
        HandlerAction::Run(m) => assert_eq!(value(&m), 1),
        _ => panic!("no message"),
    }
    assert_eq!(trackers.wait_owned(0), Completion::AwaitNotification);
    let ended = HandlerEvent::Ended(HandlerOutcome::Completed);
    task.advance(&mut inner, &mut trackers, ended);
    assert!(trackers.take_signal());
    assert_eq!(trackers.wait_owned(0), Completion::Finished);
}

#[test]
fn the_tracker_of_an_envelope_tells_its_counts_after_the_sending() {
    let (mut inner, tx, rx, mut trackers) = setup(4);
    let all = rx.subscribe_all(&mut inner);
    let weak = tx.weak();
    let shared = Arc::new(message::<Red>(5));
    let pending = weak.send_any(Some(&mut inner), shared.clone(), key::<Red>()).unwrap();
    assert!(done(pending.step(&mut inner, &mut trackers)));
    let envelope = match inner.recv_envelope(all) {
        Fetched::Item(envelope) => envelope,
        _ => panic!("no envelope"),
    };
    assert!(envelope.type_id() == key::<Red>());
    assert_eq!(value(envelope.downcast_ref(key::<Red>()).unwrap()), 5);
    assert_eq!((envelope.msg_id(), envelope.origin()), (0, tx.id()));
    let tracker = envelope.tracker().unwrap();
    assert_eq!(trackers.get(tracker).map(|t| t.expected()), Some(0));

    let task = rx.sink(&mut inner, key::<Red>());
    let pending = weak
        .send_any_with_origin(Some(&mut inner), shared.clone(), key::<Red>(), 9)
        .unwrap();
    let pending = waiting(pending.step(&mut inner, &mut trackers));
    task.advance(&mut inner, &mut trackers, HandlerEvent::Ready);
    let ended = HandlerEvent::Ended(HandlerOutcome::Completed);
    task.advance(&mut inner, &mut trackers, ended);
    assert!(done(pending.step(&mut inner, &mut trackers)));
    match inner.recv_envelope(all) {
        Fetched::Item(envelope) => {
            assert_eq!(envelope.origin(), 9);
            assert!(Arc::ptr_eq(&envelope.value, &shared));
            let tracker = trackers.get(envelope.tracker().unwrap()).unwrap();
            assert_eq!((tracker.expected(), tracker.completed()), (1, 1));
            assert!(tracker.is_complete());
        }
        _ => panic!("no envelope"),
    }
}

#[test]
fn a_tracker_goes_only_when_nobody_refers_to_it() {
    let (mut inner, tx, rx, mut trackers) = setup(4);
    let other = setup(4).0;
    let all = rx.subscribe_all(&mut inner);
    let sub = rx.subscribe(&mut inner, key::<Red>());
    assert!(done(send(&mut inner, &mut trackers, &tx, message::<Red>(1))));
    assert!(inner.refers_to(0));
    assert!(!other.refers_to(0));
    // Two mailboxes hold it.
    assert!(!release_tracker(&vec![&other, &inner], &vec![], &mut trackers, 0));
    assert!(matches!(inner.recv_envelope(all), Fetched::Item(_)));
    assert!(!release_tracker(&vec![&other, &inner], &vec![], &mut trackers, 0));
    // One subscription processes it.
    assert_eq!(next(&mut inner, &mut trackers, sub), Some(1));
    assert!(!release_tracker(&vec![&other, &inner], &vec![], &mut trackers, 0));
    inner.clear_tracker(sub);
    // The envelope that was handed out is still there.
    assert!(!release_tracker(&vec![&other, &inner], &vec![7, 0], &mut trackers, 0));
    assert!(trackers.get(0).is_some());
    assert!(release_tracker(&vec![&other, &inner], &vec![7], &mut trackers, 0));
    assert!(trackers.get(0).is_none());
    assert!(!trackers.is_complete(0));
    assert!(!inner.refers_to(0));
}

#[test]
fn only_sizes_that_a_channel_can_have_are_subscribed_to() {
    assert!(setup(1).0.can_subscribe());
    assert!(setup(DEFAULT_CHANNEL_SIZE).0.can_subscribe());
    assert!(!setup(0).0.can_subscribe());
    assert!(!setup(usize::MAX).0.can_subscribe());
}

#[test]
fn a_subscription_that_left_gets_nothing_and_hinders_nobody() {
    let (mut inner, tx, rx, mut trackers) = setup(1);
    let gone = rx.subscribe(&mut inner, key::<Red>());
    let stays = rx.subscribe(&mut inner, key::<Red>());
    inner.unsubscribe(gone, &mut trackers);
    assert!(!inner.has(gone));
    assert!(inner.has(stays));
    assert!(done(send(&mut inner, &mut trackers, &tx, message::<Red>(4))));
    assert_eq!(next(&mut inner, &mut trackers, stays), Some(4));
}
