use pipedream_rs::{Fault, PanicError, PanicPayload, RelayError};
use std::sync::Arc;

#[test]
fn panic_messages_are_kept() {
    assert_eq!(PanicError::new(PanicPayload::Literal("boom")).to_text(), "panic: boom");
    assert_eq!(
        PanicError::new(PanicPayload::Text("it broke".to_string())).to_text(),
        "panic: it broke"
    );
}

#[test]
fn other_panic_payloads_get_a_generic_message() {
    assert_eq!(
        PanicError::new(PanicPayload::Other).to_text(),
        "panic: panic occurred (non-string payload)"
    );
}

#[test]
fn errors_say_where_they_come_from() {
    let error = RelayError::new(42, Fault::Raised("bad input".to_string()), "sink");
    assert_eq!(error.to_text("bad input"), "[sink] msg 42: bad input");

    let error: RelayError<String> = RelayError::new(
        0,
        Fault::Panicked(PanicError::new(PanicPayload::Literal("oops"))),
        "within",
    );
    assert_eq!(error.to_text(""), "[within] msg 0: panic: oops");

    let error: RelayError<String> =
        RelayError::new(u64::MAX, Fault::Interrupted, "subscription");
    assert_eq!(
        error.to_text(""),
        "[subscription] msg 18446744073709551615: subscription dropped while processing message"
    );
}

#[test]
fn message_ids_are_written_in_decimal() {
    for id in [0u64, 7, 9, 10, 11, 99, 100, 101, 1234567890, 9876543210] {
        let error = RelayError::new(id, Fault::Raised("x".to_string()), "tap");
        assert_eq!(error.to_text("x"), format!("[tap] msg {}: x", id));
    }
}

#[test]
fn clones_share_the_underlying_error() {
    let error = RelayError::new(1, Fault::Raised("x".to_string()), "tap");
    let copy = error.clone();
    assert_eq!(copy.msg_id, 1);
    assert_eq!(copy.source, "tap");
    assert!(Arc::ptr_eq(&copy.error, &error.error));
}
