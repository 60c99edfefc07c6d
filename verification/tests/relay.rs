use pipedream_rs::{
    handler_outcome, Envelope, Fault, HandlerAction, HandlerEvent, HandlerTask, Inner,
    PanicPayload, Payload, PendingSend, Received, Relay, RelayError, RelayIds, SendError,
    SendStep, TestRelay, TrackerTable, TypeKey,
};
use std::any::{Any, TypeId};
use std::cell::{Cell, RefCell};
use std::rc::Rc;
use std::sync::Arc;

type Value = Arc<dyn Any + Send + Sync>;
type Message = Payload<Value, TestError>;

#[derive(Debug, Clone, PartialEq)]
struct TestError(String);

fn key<T: Any>() -> TypeKey {
    TypeKey::Of(TypeId::of::<T>())
}

fn message<T: Any + Send + Sync>(value: T) -> Message {
    Payload::Value { value: Arc::new(value), type_id: TypeId::of::<T>(), label: "message" }
}

fn content<T: Any + Clone>(payload: &Message) -> T {
    match payload {
        Payload::Value { value, .. } => value.downcast_ref::<T>().expect("other type").clone(),
        _ => panic!("no value"),
    }
}

/// What a handler made of a message: a result, or a panic.
type Ran = Result<Result<(), TestError>, PanicPayload>;

struct Handler {
    task: Option<HandlerTask>,
    run: Box<dyn FnMut(&Message) -> Ran>,
}

/// A relay with its handlers, run one after the other.
struct Bench {
    inner: Inner<Value, TestError>,
    relay: TestRelay,
    trackers: TrackerTable<TestError>,
    handlers: Vec<Handler>,
    emissions: Vec<PendingSend<Value, TestError>>,
}

impl Bench {
    fn new() -> Bench {
        let mut ids = RelayIds::new();
        let (inner, relay) = Relay::new(&mut ids);
        Bench {
            inner,
            relay,
            trackers: TrackerTable::new(),
            handlers: Vec::new(),
            emissions: Vec::new(),
        }
    }

    fn with_channel_size(size: usize) -> Bench {
        let mut ids = RelayIds::new();
        let (inner, relay) = Relay::with_channel_size(&mut ids, size);
        Bench {
            inner,
            relay,
            trackers: TrackerTable::new(),
            handlers: Vec::new(),
            emissions: Vec::new(),
        }
    }

    fn subscribe<T: Any>(&mut self) -> u64 {
        self.relay.subscribe(&mut self.inner, key::<T>())
    }

    fn sink<T: Any + Clone>(&mut self, mut f: impl FnMut(T) -> Ran + 'static) {
        let task = self.relay.sink(&mut self.inner, key::<T>());
        let run: Box<dyn FnMut(&Message) -> Ran> = Box::new(move |m| f(content::<T>(m)));
        self.handlers.push(Handler { task: Some(task), run });
    }

    fn tap<T: Any + Clone>(&mut self, mut f: impl FnMut(T) -> Ran + 'static) {
        let task = self.relay.tap(&mut self.inner, key::<T>());
        let run: Box<dyn FnMut(&Message) -> Ran> = Box::new(move |m| f(content::<T>(m)));
        self.handlers.push(Handler { task: Some(task), run });
    }

    /// Let every handler work until it waits or ends.
    fn pump(&mut self) {
        for handler in self.handlers.iter_mut() {
            let mut event = HandlerEvent::Ready;
            loop {
                let task = match &handler.task {
                    Some(task) => task,
                    None => break,
                };
                let step = task.advance(&mut self.inner, &mut self.trackers, event);
                if let Some(error) = step.emit {
                    let sent =
                        self.relay.send(&mut self.inner, Payload::Error(error));
                    if let Ok(pending) = sent {
                        self.emissions.push(pending);
                    }
                }
                match step.action {
                    HandlerAction::Run(m) => {
                        event = HandlerEvent::Ended(handler_outcome((handler.run)(&m)));
                    }
                    HandlerAction::Wait => break,
                    HandlerAction::Exit => {
                        let task = handler.task.take().unwrap();
                        task.drop(&mut self.inner, &mut self.trackers);
                        break;
                    }
                }
            }
        }
    }

    fn finish(
        &mut self,
        mut pending: PendingSend<Value, TestError>,
    ) -> Result<(), SendError<TestError>> {
        for _ in 0..10 {
            match pending.step(&mut self.inner, &mut self.trackers) {
                SendStep::Finished(result) => return result,
                SendStep::WaitReady(p) => pending = p,
                SendStep::WaitCompletion(p) => pending = p,
            }
            self.pump();
        }
        panic!("the sending does not end");
    }

    fn send_message(&mut self, m: Message) -> Result<(), SendError<TestError>> {
        let pending = self.relay.send(&mut self.inner, m)?;
        let result = self.finish(pending);
        self.rest();
        result
    }

    fn send<T: Any + Send + Sync>(&mut self, value: T) -> Result<(), SendError<TestError>> {
        self.send_message(message(value))
    }

    /// Send the errors on that handlers have reported.
    fn rest(&mut self) {
        self.pump();
        while let Some(pending) = self.emissions.pop() {
            self.finish(pending).expect("an emission fails");
        }
    }

    fn recv(&mut self, subscription: u64) -> Received<Value, TestError> {
        self.inner.recv(subscription, &mut self.trackers)
    }

    /// The next value of a subscription, or `None` when it has ended.
    fn next<T: Any + Clone>(&mut self, subscription: u64) -> Option<T> {
        match self.recv(subscription) {
            Received::Message(m) => Some(content::<T>(&m)),
            Received::Empty => panic!("nothing there"),
            Received::Closed => None,
        }
    }

    fn next_error(&mut self, subscription: u64) -> Option<RelayError<TestError>> {
        match self.recv(subscription) {
            Received::Message(m) => match &*m {
                Payload::Error(error) => Some(error.clone()),
                _ => panic!("no error"),
            },
            Received::Empty => panic!("nothing there"),
            Received::Closed => None,
        }
    }
}

fn error_of(result: Result<(), SendError<TestError>>) -> RelayError<TestError> {
    match result {
        Err(SendError::Downstream(error)) => error,
        _ => panic!("Expected Downstream error"),
    }
}

fn fail(text: &str) -> Ran {
    Ok(Err(TestError(text.to_string())))
}

fn adder(counter: &Rc<Cell<usize>>) -> impl FnMut(i32) -> Ran + 'static {
    let counter = counter.clone();
    move |n| {
        counter.set(counter.get() + n as usize);
        Ok(Ok(()))
    }
}

#[test]
fn test_drop_closes_channels() {
    let mut bench = Bench::new();
    let sub = bench.subscribe::<String>();
    let TestRelay { tx, rx } = bench.relay.clone();
    tx.drop(&mut bench.inner);
    assert!(bench.next::<String>(sub).is_none());
    assert!(rx.is_closed(&bench.inner));
}

#[test]
fn test_basic_send_subscribe() {
    let mut bench = Bench::new();
    let sub = bench.subscribe::<String>();
    bench.send("hello".to_string()).unwrap();
    assert_eq!(bench.next::<String>(sub), Some("hello".to_string()));
}

#[test]
fn test_type_filtering() {
    let mut bench = Bench::new();
    let string_sub = bench.subscribe::<String>();
    let int_sub = bench.subscribe::<i32>();
    bench.send("hello".to_string()).unwrap();
    bench.send(42i32).unwrap();
    assert_eq!(bench.next::<String>(string_sub), Some("hello".to_string()));
    assert_eq!(bench.next::<i32>(int_sub), Some(42i32));
}

#[test]
fn test_broadcast_multiple_subscribers() {
    let mut bench = Bench::new();
    let sub1 = bench.subscribe::<String>();
    let sub2 = bench.subscribe::<String>();
    bench.send("hello".to_string()).unwrap();
    assert_eq!(bench.next::<String>(sub1), Some("hello".to_string()));
    assert_eq!(bench.next::<String>(sub2), Some("hello".to_string()));
}

#[test]
fn test_tap() {
    let counter = Rc::new(Cell::new(0));
    let mut bench = Bench::new();
    bench.tap::<i32>(adder(&counter));
    bench.send(10i32).unwrap();
    bench.send(20i32).unwrap();
    assert_eq!(counter.get(), 30);
}

#[test]
fn test_sink() {
    let counter = Rc::new(Cell::new(0));
    let mut bench = Bench::new();
    bench.sink::<i32>(adder(&counter));
    bench.send(5i32).unwrap();
    bench.send(15i32).unwrap();
    assert_eq!(counter.get(), 20);
}

#[test]
fn test_sink_error_propagation() {
    let mut bench = Bench::new();
    bench.sink::<String>(|msg| {
        if msg.as_str() == "bad" {
            return fail("message was bad");
        }
        Ok(Ok(()))
    });
    assert!(bench.send("good".to_string()).is_ok());
    let result = bench.send("bad".to_string());
    assert!(result.is_err());
    let error = error_of(result);
    assert_eq!(error.source, "sink");
    assert_eq!(error.msg_id, 1);
    match &*error.error {
        Fault::Raised(e) => assert_eq!(*e, TestError("message was bad".to_string())),
        _ => panic!("other error"),
    }
}

#[test]
fn test_tap_error_propagation() {
    let mut bench = Bench::new();
    bench.tap::<i32>(|n| if n < 0 { fail("negative number") } else { Ok(Ok(())) });
    assert!(bench.send(42i32).is_ok());
    let result = bench.send(-1i32);
    assert!(result.is_err());
    assert_eq!(error_of(result).source, "tap");
}

#[test]
fn test_error_subscription() {
    let mut bench = Bench::new();
    let errors = bench.relay.subscribe(&mut bench.inner, TypeKey::RelayError);
    bench.sink::<String>(|msg| {
        if msg.as_str() == "error" {
            return fail("triggered error");
        }
        Ok(Ok(()))
    });
    let _ = bench.send("error".to_string());
    let error = bench.next_error(errors);
    assert!(error.is_some());
    assert_eq!(error.unwrap().source, "sink");
}

#[test]
fn test_sink_without_error() {
    let counter = Rc::new(Cell::new(0));
    let mut bench = Bench::new();
    bench.sink::<i32>(adder(&counter));
    bench.send(10i32).unwrap();
    bench.send(20i32).unwrap();
    assert_eq!(counter.get(), 30);
}

#[test]
fn test_fire_and_forget() {
    let counter = Rc::new(Cell::new(0));
    let mut bench = Bench::new();
    bench.sink::<i32>(adder(&counter));
    let _ = bench.send(10i32);
    let _ = bench.send(20i32);
    assert_eq!(counter.get(), 30);
}

#[test]
fn test_send_any() {
    let mut bench = Bench::new();
    let sub = bench.subscribe::<String>();
    let value = Arc::new(message("hello".to_string()));
    let pending = bench
        .relay
        .send_any(&mut bench.inner, value, key::<String>())
        .unwrap();
    bench.finish(pending).unwrap();
    assert_eq!(bench.next::<String>(sub), Some("hello".to_string()));
}

#[test]
fn test_send_envelope() {
    let mut bench = Bench::new();
    let sub = bench.subscribe::<i32>();
    let envelope = Envelope::new(message(42i32), 0, None);
    let pending = bench.relay.send_envelope(&bench.inner, envelope).unwrap();
    bench.finish(pending).unwrap();
    assert_eq!(bench.next::<i32>(sub), Some(42i32));
}

#[test]
fn test_multiple_handlers_all_must_complete() {
    let counter1 = Rc::new(Cell::new(0));
    let counter2 = Rc::new(Cell::new(0));
    let c2 = counter2.clone();
    let mut bench = Bench::new();
    bench.sink::<i32>(adder(&counter1));
    bench.sink::<i32>(move |n| {
        c2.set(c2.get() + n as usize * 2);
        Ok(Ok(()))
    });
    bench.send(10i32).unwrap();
    assert_eq!(counter1.get(), 10);
    assert_eq!(counter2.get(), 20);
}

#[test]
fn test_error_from_one_handler() {
    let seen: Rc<RefCell<Vec<i32>>> = Rc::new(RefCell::new(Vec::new()));
    let s = seen.clone();
    let mut bench = Bench::new();
    bench.sink::<i32>(move |n| {
        s.borrow_mut().push(n);
        Ok(Ok(()))
    });
    bench.sink::<i32>(|n| if n < 0 { fail("negative") } else { Ok(Ok(())) });
    bench.send(10i32).unwrap();
    assert_eq!(*seen.borrow(), vec![10]);
    let result = bench.send(-5i32);
    assert!(result.is_err());
    assert_eq!(*seen.borrow(), vec![10, -5]);
}

#[test]
fn test_no_handlers_immediate_return() {
    let mut bench = Bench::new();
    let pending = bench
        .relay
        .send(&mut bench.inner, message("test".to_string()))
        .unwrap();
    let step = pending.step(&mut bench.inner, &mut bench.trackers);
    assert!(matches!(step, SendStep::Finished(Ok(()))));
}

#[test]
fn stress_test_concurrent_errors() {
    let success_count = Rc::new(Cell::new(0));
    let error_count = Rc::new(Cell::new(0));
    let mut bench = Bench::new();
    for i in 0..5 {
        let sc = success_count.clone();
        let ec = error_count.clone();
        bench.sink::<i32>(move |_| {
            if i % 2 == 1 {
                ec.set(ec.get() + 1);
                fail("handler failed")
            } else {
                sc.set(sc.get() + 1);
                Ok(Ok(()))
            }
        });
    }
    for _ in 0..100 {
        assert!(bench.send(1i32).is_err());
    }
    assert_eq!(success_count.get(), 300);
    assert_eq!(error_count.get(), 200);
}

#[test]
fn stress_test_rapid_error_sending() {
    let mut bench = Bench::with_channel_size(1024);
    bench.sink::<i32>(|_| fail("always fails"));
    let mut error_count = 0;
    for i in 0..500i32 {
        if bench.send(i).is_err() {
            error_count += 1;
        }
    }
    assert_eq!(error_count, 500);
}

#[test]
fn stress_test_error_subscription_under_load() {
    let mut bench = Bench::with_channel_size(1024);
    let errors = bench.relay.subscribe(&mut bench.inner, TypeKey::RelayError);
    bench.sink::<i32>(|n| if n % 2 == 0 { fail("even number") } else { Ok(Ok(())) });
    let mut errors_received = 0;
    for i in 0..200i32 {
        let _ = bench.send(i);
        while let Received::Message(_) = bench.recv(errors) {
            errors_received += 1;
        }
    }
    assert_eq!(errors_received, 100);
}

#[test]
fn stress_test_mixed_success_and_error_types() {
    let string_count = Rc::new(Cell::new(0));
    let int_count = Rc::new(Cell::new(0));
    let error_count = Rc::new(Cell::new(0));
    let (sc, ic, ec) = (string_count.clone(), int_count.clone(), error_count.clone());
    let mut bench = Bench::new();
    bench.sink::<String>(move |_| {
        sc.set(sc.get() + 1);
        Ok(Ok(()))
    });
    bench.sink::<i32>(move |n| {
        ic.set(ic.get() + 1);
        if n < 0 {
            ec.set(ec.get() + 1);
            fail("negative")
        } else {
            Ok(Ok(()))
        }
    });
    for i in 0..50i32 {
        let _ = bench.send(format!("msg_{}", i));
        let _ = bench.send(i);
        let _ = bench.send(-i);
    }
    assert_eq!(string_count.get(), 50);
    assert_eq!(int_count.get(), 100);
    assert_eq!(error_count.get(), 49);
}

#[test]
fn test_multiple_errors_first_wins() {
    let mut bench = Bench::new();
    bench.sink::<i32>(|_| fail("error 1"));
    bench.sink::<i32>(|_| fail("error 2"));
    bench.sink::<i32>(|_| fail("error 3"));
    let result = bench.send(42i32);
    assert!(result.is_err());
    let error = error_of(result);
    assert!(error.source == "sink");
    match &*error.error {
        Fault::Raised(e) => assert_eq!(*e, TestError("error 1".to_string())),
        _ => panic!("other error"),
    }
}

#[test]
fn test_tracker_zero_expected() {
    let mut bench = Bench::new();
    assert!(bench.send("test".to_string()).is_ok());
}

#[test]
fn test_sink_panic_propagation() {
    let mut bench = Bench::new();
    let errors = bench.relay.subscribe(&mut bench.inner, TypeKey::RelayError);
    bench.sink::<i32>(|n| {
        if n == 42 {
            return Err(PanicPayload::Literal("deliberate panic"));
        }
        Ok(Ok(()))
    });
    assert!(bench.send(42i32).is_err());
    let error = bench.next_error(errors);
    assert!(error.is_some());
    let error = error.unwrap();
    assert_eq!(error.source, "sink");
    assert!(error.error.to_text("").contains("panic"));
    assert_eq!(error.to_text(""), "[sink] msg 0: panic: deliberate panic");
}

#[test]
fn test_tap_panic_propagation() {
    let mut bench = Bench::new();
    bench.tap::<String>(|s| {
        if s.as_str() == "boom" {
            return Err(PanicPayload::Text("tap panic".to_string()));
        }
        Ok(Ok(()))
    });
    assert!(bench.send("hello".to_string()).is_ok());
    assert!(bench.send("boom".to_string()).is_err());
}

#[test]
fn test_error_does_not_block_subsequent_sends() {
    let success_count = Rc::new(Cell::new(0));
    let sc = success_count.clone();
    let mut bench = Bench::new();
    bench.sink::<i32>(move |n| {
        if n < 0 {
            return fail("negative");
        }
        sc.set(sc.get() + 1);
        Ok(Ok(()))
    });
    assert!(bench.send(-1i32).is_err());
    assert!(bench.send(1i32).is_ok());
    assert!(bench.send(2i32).is_ok());
    assert_eq!(success_count.get(), 2);
}

#[test]
fn test_mixed_handler_types_completion() {
    let string_done = Rc::new(Cell::new(0));
    let int_done = Rc::new(Cell::new(0));
    let (sd, id) = (string_done.clone(), int_done.clone());
    let mut bench = Bench::new();
    bench.sink::<String>(move |_| {
        sd.set(sd.get() + 1);
        Ok(Ok(()))
    });
    bench.sink::<i32>(move |_| {
        id.set(id.get() + 1);
        Ok(Ok(()))
    });
    bench.send("test".to_string()).unwrap();
    bench.send(42i32).unwrap();
    assert_eq!(string_done.get(), 1);
    assert_eq!(int_done.get(), 1);
}

#[test]
fn test_rapid_handler_registration_deregistration() {
    let total = Rc::new(Cell::new(0));
    let mut bench = Bench::new();
    for _ in 0..10 {
        bench.sink::<i32>(adder(&total));
    }
    bench.send(1i32).unwrap();
    assert_eq!(total.get(), 10);
}

#[test]
fn test_handler_count() {
    let mut bench = Bench::new();
    assert_eq!(bench.relay.handler_count(&bench.inner), 0);
    bench.sink::<i32>(|_| Ok(Ok(())));
    assert_eq!(bench.relay.handler_count(&bench.inner), 1);
    bench.tap::<i32>(|_| Ok(Ok(())));
    assert_eq!(bench.relay.handler_count(&bench.inner), 2);
    let _sub = bench.subscribe::<i32>();
    assert_eq!(bench.relay.handler_count(&bench.inner), 2);
}

#[test]
fn test_stream_basic_send_subscribe() {
    let mut bench = Bench::new();
    let sub = bench.subscribe::<String>();
    bench.send("hello".to_string()).unwrap();
    assert_eq!(bench.next::<String>(sub), Some("hello".to_string()));
}

#[test]
fn test_channel_no_echo() {
    let mut ids = RelayIds::new();
    let mut trackers: TrackerTable<TestError> = TrackerTable::new();
    let (mut inner, tx, rx) = Relay::channel::<Value, TestError>(&mut ids);
    let sub = rx.subscribe(&mut inner, key::<String>());
    let pending = tx.send(&mut inner, message("test".to_string())).unwrap();
    let step = pending.step(&mut inner, &mut trackers);
    assert!(matches!(step, SendStep::Finished(Ok(()))));
    match inner.recv(sub, &mut trackers) {
        Received::Message(m) => assert_eq!(content::<String>(&m), "test".to_string()),
        _ => panic!("nothing received"),
    }
}

#[test]
fn test_stream_is_loopback() {
    let mut bench = Bench::new();
    let sub = bench.subscribe::<i32>();
    bench.send(123i32).unwrap();
    assert_eq!(bench.next::<i32>(sub), Some(123i32));
}

#[test]
fn test_stream_close() {
    let mut bench = Bench::new();
    assert!(!bench.relay.is_closed(&bench.inner));
    bench.relay.close(&mut bench.inner);
    assert!(bench.relay.is_closed(&bench.inner));
    let result = bench.send("test".to_string());
    assert!(matches!(result, Err(SendError::Closed)));
}

#[test]
fn invariant_send_waits_for_all_tracked_handlers() {
    let mut bench = Bench::new();
    let flag = Rc::new(Cell::new(false));
    let f = flag.clone();
    bench.tap::<i32>(move |_| {
        f.set(true);
        Ok(Ok(()))
    });
    let pending = bench.relay.send(&mut bench.inner, message(1i32)).unwrap();
    // Nobody has run the handler, so the sending has not ended.
    let pending = match pending.step(&mut bench.inner, &mut bench.trackers) {
        SendStep::WaitCompletion(pending) => pending,
        _ => panic!("send() must wait for handler to complete"),
    };
    assert!(!flag.get());
    bench.finish(pending).unwrap();
    assert!(flag.get(), "send() must wait for handler to complete");
}

#[test]
fn invariant_multiple_handlers_all_complete() {
    let mut bench = Bench::new();
    let count = Rc::new(Cell::new(0));
    for _ in 0..5 {
        bench.sink::<i32>(adder(&count));
    }
    bench.send(1i32).unwrap();
    assert_eq!(count.get(), 5, "all 5 handlers must complete");
}

#[test]
fn invariant_downstream_error_propagates() {
    let mut bench = Bench::new();
    bench.tap::<i32>(|_| fail("fail"));
    let result = bench.send(1i32);
    assert!(matches!(result, Err(SendError::Downstream(_))), "error must propagate");
}

#[test]
fn invariant_panic_propagates_as_error() {
    let mut bench = Bench::new();
    bench.tap::<i32>(|_| Err(PanicPayload::Literal("deliberate panic")));
    let result = bench.send(1i32);
    assert!(matches!(result, Err(SendError::Downstream(_))), "panic must propagate as error");
}

#[test]
fn invariant_error_emitted_exactly_once() {
    let mut bench = Bench::new();
    let errors = bench.relay.subscribe(&mut bench.inner, TypeKey::RelayError);
    bench.sink::<i32>(|_| fail("fail"));
    let _ = bench.send(1i32);
    assert!(bench.next_error(errors).is_some());
    assert!(
        matches!(bench.recv(errors), Received::Empty),
        "error must be emitted exactly once"
    );
}

#[test]
fn invariant_no_deadlock_on_handler_panic() {
    let mut bench = Bench::new();
    bench.tap::<i32>(|v| {
        if v == 1 {
            return Err(PanicPayload::Literal("boom"));
        }
        Ok(Ok(()))
    });
    assert!(bench.send(1i32).is_err());
    assert!(bench.send(2i32).is_ok());
}

#[test]
fn invariant_handler_count_restored_after_panic() {
    let mut bench = Bench::new();
    bench.tap::<i32>(|_| Err(PanicPayload::Literal("boom")));
    let _ = bench.send(1i32);
    assert_eq!(bench.relay.handler_count(&bench.inner), 1);
    bench.relay.close(&mut bench.inner);
    bench.pump();
    assert_eq!(
        bench.relay.handler_count(&bench.inner),
        0,
        "handler_count must be 0 after relay closed"
    );
}

#[test]
fn invariant_closed_relay_rejects_sends() {
    let mut bench = Bench::new();
    bench.relay.close(&mut bench.inner);
    assert!(matches!(bench.send(1i32), Err(SendError::Closed)));
}

#[test]
fn invariant_subscriptions_close_on_relay_close() {
    let mut bench = Bench::new();
    let sub = bench.subscribe::<i32>();
    bench.send(1i32).unwrap();
    bench.relay.close(&mut bench.inner);
    assert!(bench.next::<i32>(sub).is_some());
    assert!(bench.next::<i32>(sub).is_none(), "subscription must close");
}

#[test]
fn regression_handler_guard_decrements_on_panic() {
    let mut bench = Bench::new();
    bench.sink::<i32>(|_| Err(PanicPayload::Literal("intentional panic")));
    assert_eq!(bench.relay.handler_count(&bench.inner), 1);
    let _ = bench.send(1i32);
    bench.relay.close(&mut bench.inner);
    bench.pump();
    assert_eq!(
        bench.relay.handler_count(&bench.inner),
        0,
        "handler_count must be 0 after handler task exits"
    );
}

#[test]
fn test_send_with_immediate_ready() {
    let mut bench = Bench::new();
    let received = Rc::new(Cell::new(false));
    let r = received.clone();
    bench.sink::<String>(move |_| {
        r.set(true);
        Ok(Ok(()))
    });
    assert!(bench.inner.is_ready());
    assert!(bench.send("test".to_string()).is_ok());
    assert!(received.get(), "handler should have received the message");
}

#[test]
fn test_subscription_immediately_ready() {
    let mut bench = Bench::new();
    bench.sink::<String>(|_| Ok(Ok(())));
    assert!(bench.inner.is_ready());
    assert!(bench.send("test".to_string()).is_ok());
}

#[test]
fn test_slow_subscriber_does_not_block_sender() {
    let mut bench = Bench::with_channel_size(1);
    let _sub = bench.subscribe::<String>();
    for i in 0..100 {
        assert!(bench.send(format!("msg {}", i)).is_ok());
    }
}

#[test]
fn test_dropped_visibility() {
    let mut bench = Bench::with_channel_size(10);
    let _slow_sub = bench.subscribe::<String>();
    let monitor = bench.relay.subscribe(&mut bench.inner, TypeKey::Dropped);
    let fast_sub = bench.subscribe::<String>();
    let mut received_count = 0;
    let mut drops = Vec::new();
    for i in 0..20 {
        bench.send(format!("msg {}", i)).expect("send failed");
        while let Received::Message(m) = bench.recv(monitor) {
            if let Payload::Dropped(dropped) = &*m {
                drops.push(*dropped);
            }
        }
        while let Received::Message(_) = bench.recv(fast_sub) {
            received_count += 1;
        }
    }
    assert_eq!(received_count, 20, "Fast subscriber should receive all messages");
    assert!(drops.len() > 0, "Should have received dropped events");
    let ids: Vec<u64> = drops.iter().map(|d| d.msg_id).collect();
    assert_eq!(ids, vec![10, 11, 12, 13, 14, 15, 16, 17, 18, 19]);
    assert!(drops.iter().all(|d| d.origin_stream_id == 1 && d.event_type_name == "message"));
}

#[test]
fn test_concurrent_usage_repro() {
    let mut bench = Bench::new();
    let sub = bench.subscribe::<String>();
    bench.send("hello".to_string()).unwrap();
    bench.send("stop".to_string()).unwrap();
    assert_eq!(bench.next::<String>(sub), Some("hello".to_string()));
    assert_eq!(bench.next::<String>(sub), Some("stop".to_string()));
}

#[test]
fn stress_test_concurrent_senders() {
    const SENDERS: usize = 10;
    const MESSAGES_PER_SENDER: usize = 100;
    let mut bench = Bench::with_channel_size(1024);
    let sub = bench.subscribe::<i32>();
    for i in 0..MESSAGES_PER_SENDER {
        // All senders are at work at the same time.
        let mut pending = Vec::new();
        for sender_id in 0..SENDERS {
            let m = message((sender_id * MESSAGES_PER_SENDER + i) as i32);
            pending.push(bench.relay.send(&mut bench.inner, m).unwrap());
        }
        for p in pending {
            bench.finish(p).unwrap();
        }
    }
    let mut count = 0;
    while let Received::Message(_) = bench.recv(sub) {
        count += 1;
    }
    assert_eq!(count, SENDERS * MESSAGES_PER_SENDER);
}

#[test]
fn stress_test_concurrent_senders_with_errors() {
    let error_count = Rc::new(Cell::new(0));
    let success_count = Rc::new(Cell::new(0));
    let (ec, sc) = (error_count.clone(), success_count.clone());
    let mut bench = Bench::with_channel_size(2048);
    bench.sink::<i32>(move |n| {
        if n % 10 == 0 {
            ec.set(ec.get() + 1);
            fail("multiple of 10")
        } else {
            sc.set(sc.get() + 1);
            Ok(Ok(()))
        }
    });
    let mut failed = 0;
    for i in 0..100i32 {
        let mut pending = Vec::new();
        for sender_id in 0..10i32 {
            let m = message(sender_id * 100 + i);
            let begun = bench.relay.send(&mut bench.inner, m).unwrap();
            match begun.step(&mut bench.inner, &mut bench.trackers) {
                SendStep::WaitCompletion(p) => pending.push(p),
                _ => panic!("send() must wait for handler to complete"),
            }
        }
        for p in pending {
            if bench.finish(p).is_err() {
                failed += 1;
            }
        }
        bench.rest();
    }
    assert_eq!(error_count.get(), 100);
    assert_eq!(success_count.get(), 900);
    assert_eq!(failed, 100);
}

#[test]
fn stress_test_handler_registration_during_sends() {
    let total_received = Rc::new(Cell::new(0));
    let mut bench = Bench::new();
    for i in 0..100i32 {
        let pending = bench.relay.send(&mut bench.inner, message(i)).unwrap();
        if i % 10 == 0 && i < 50 {
            let tr = total_received.clone();
            bench.sink::<i32>(move |_| {
                tr.set(tr.get() + 1);
                Ok(Ok(()))
            });
        }
        bench.finish(pending).unwrap();
    }
    assert!(total_received.get() > 0);
    assert_eq!(total_received.get(), 100 + 90 + 80 + 70 + 60);
}

#[test]
fn stress_test_rapid_subscribe_unsubscribe() {
    let mut bench = Bench::new();
    for i in 0..200i32 {
        let sub = bench.subscribe::<i32>();
        assert!(bench.send(i).is_ok());
        if i % 2 == 0 {
            assert_eq!(bench.next::<i32>(sub), Some(i));
        }
        bench.inner.unsubscribe(sub, &mut bench.trackers);
    }
}

#[test]
fn soak_concurrent_subscribe_unsubscribe() {
    let mut bench = Bench::with_channel_size(256);
    let mut churn = Vec::new();
    for i in 0..200i32 {
        let pending = bench.relay.send(&mut bench.inner, message(i)).unwrap();
        if i < 50 {
            churn.push(bench.subscribe::<i32>());
        }
        if let Some(sub) = churn.pop() {
            bench.inner.unsubscribe(sub, &mut bench.trackers);
        }
        assert!(
            bench.finish(pending).is_ok(),
            "must not deadlock under subscribe/unsubscribe churn"
        );
    }
}

#[test]
fn test_within_basic() {
    let mut bench = Bench::new();
    let sub = bench.subscribe::<i32>();
    bench.send(10i32).unwrap();
    bench.send(20i32).unwrap();
    let mut counter = 0;
    while let Received::Message(m) = bench.recv(sub) {
        counter += content::<i32>(&m);
    }
    assert_eq!(counter, 30);
    assert!(bench.relay.within::<TestError>(Ok(())).is_none());
}

#[test]
fn stress_test_within_with_panics() {
    let mut bench = Bench::new();
    let errors = bench.relay.subscribe(&mut bench.inner, TypeKey::RelayError);
    let sub = bench.subscribe::<i32>();
    let mut processed = 0;
    for i in 0..100i32 {
        assert!(bench.send(i).is_ok());
        if i > 50 {
            continue;
        }
        assert_eq!(bench.next::<i32>(sub), Some(i));
        processed += 1;
        if i == 50 {
            let panicked = Err(PanicPayload::Literal("deliberate panic at 50"));
            let error = bench.relay.within(panicked).expect("no report");
            bench.inner.unsubscribe(sub, &mut bench.trackers);
            assert!(bench.send_message(Payload::Error(error)).is_ok());
        }
    }
    assert!(processed >= 50);
    let error = bench.next_error(errors).expect("no error");
    assert_eq!(error.source, "within");
    assert_eq!(error.msg_id, 0);
}

#[test]
fn test_subscription_drop_mid_message() {
    let mut bench = Bench::new();
    let sub = bench.subscribe::<i32>();
    bench.send(1i32).unwrap();
    assert_eq!(bench.next::<i32>(sub), Some(1));
    // An untracked subscription that goes away fails nothing.
    bench.inner.unsubscribe(sub, &mut bench.trackers);
    bench.send(2i32).unwrap();
}

#[test]
fn a_tap_is_like_a_sink_but_for_the_source() {
    let mut texts = Vec::new();
    for tap in [false, true] {
        let mut bench = Bench::new();
        let seen: Rc<RefCell<Vec<i32>>> = Rc::new(RefCell::new(Vec::new()));
        let s = seen.clone();
        let f = move |n: i32| {
            s.borrow_mut().push(n);
            match n {
                1 => fail("one"),
                2 => Err(PanicPayload::Literal("two")),
                _ => Ok(Ok(())),
            }
        };
        if tap {
            bench.tap::<i32>(f);
        } else {
            bench.sink::<i32>(f);
        }
        let mut results = Vec::new();
        for n in 0..4i32 {
            results.push(match bench.send(n) {
                Ok(()) => None,
                Err(SendError::Downstream(error)) => {
                    assert_eq!(error.source, if tap { "tap" } else { "sink" });
                    Some((error.msg_id, error.error.to_text("raised")))
                }
                Err(SendError::Closed) => panic!("closed"),
            });
        }
        assert_eq!(*seen.borrow(), vec![0, 1, 2, 3]);
        texts.push(results);
    }
    assert_eq!(texts[0], texts[1]);
    assert_eq!(texts[0][1], Some((1, "raised".to_string())));
    assert_eq!(texts[0][2].as_ref().map(|r| r.1.clone()), Some("panic: two".to_string()));
}

#[test]
fn a_queued_message_is_run_once_and_decides_its_result() {
    let mut bench = Bench::new();
    let seen: Rc<RefCell<Vec<i32>>> = Rc::new(RefCell::new(Vec::new()));
    let s = seen.clone();
    bench.sink::<i32>(move |n| {
        s.borrow_mut().push(n);
        if n == 7 {
            fail("seven")
        } else {
            Ok(Ok(()))
        }
    });
    let mut waiting = Vec::new();
    for n in 5..9i32 {
        let pending = bench.relay.send(&mut bench.inner, message(n)).unwrap();
        match pending.step(&mut bench.inner, &mut bench.trackers) {
            SendStep::WaitCompletion(p) => waiting.push(p),
            _ => panic!("does not wait"),
        }
    }
    let failed: Vec<bool> = waiting.into_iter().map(|p| bench.finish(p).is_err()).collect();
    assert_eq!(failed, vec![false, false, true, false]);
    assert_eq!(*seen.borrow(), vec![5, 6, 7, 8]);
}
