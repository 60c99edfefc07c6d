use pipedream_rs::{Dropped, Envelope, Payload, RelayError, TrackerTable, TypeKey};
use std::any::{Any, TypeId};
use std::sync::Arc;

type Value = Arc<dyn Any + Send + Sync>;

fn message<T: Any + Send + Sync>(value: T) -> Payload<Value, String> {
    Payload::Value { value: Arc::new(value), type_id: TypeId::of::<T>(), label: "message" }
}

fn key<T: Any>() -> TypeKey {
    TypeKey::Of(TypeId::of::<T>())
}

fn content<T: Any>(payload: Option<&Payload<Value, String>>) -> Option<&T> {
    match payload {
        Some(Payload::Value { value, .. }) => value.downcast_ref::<T>(),
        _ => None,
    }
}

#[test]
fn test_envelope_creation() {
    let env = Envelope::new(message("hello".to_string()), 0, None);
    assert!(env.is(key::<String>()));
    assert!(!env.is(key::<i32>()));
}

#[test]
fn test_envelope_downcast() {
    let env = Envelope::new(message(42i32), 0, None);
    assert_eq!(content::<i32>(env.downcast_ref(key::<i32>())), Some(&42));
    assert_eq!(content::<String>(env.downcast_ref(key::<String>())), None);
    assert!(env.downcast_ref(key::<String>()).is_none());
}

#[test]
fn test_envelope_clone() {
    let env1 = Envelope::new(message("test".to_string()), 0, None);
    let env2 = env1.clone();
    assert_eq!(
        content::<String>(env1.downcast_ref(key::<String>())),
        content::<String>(env2.downcast_ref(key::<String>()))
    );
    assert_eq!(
        content::<String>(env2.downcast_ref(key::<String>())),
        Some(&"test".to_string())
    );
}

#[test]
fn test_envelope_msg_id() {
    let env = Envelope::new(message("test".to_string()), 42, None);
    assert_eq!(env.msg_id(), 42);
}

#[test]
fn test_envelope_tracker() {
    let mut trackers: TrackerTable<String> = TrackerTable::new();
    let tracker = trackers.create(1);
    let env = Envelope::new(message("test".to_string()), 0, Some(tracker));
    assert!(env.tracker().is_some());
    assert_eq!(env.tracker(), Some(tracker));

    let env_no_tracker = Envelope::new(message("test".to_string()), 0, None);
    assert!(env_no_tracker.tracker().is_none());
}

#[test]
fn new_envelopes_have_no_origin() {
    let env = Envelope::new(message(1u8), 3, None);
    assert_eq!(env.origin(), 0);
    let value = Arc::new(message(1u8));
    assert_eq!(Envelope::from_any(value, key::<u8>(), 3, None).origin(), 0);
}

#[test]
fn a_new_origin_keeps_the_rest() {
    let env = Envelope::with_origin(message(5i32), 7, Some(9), 11);
    let moved = env.with_new_origin(13);
    assert_eq!(env.origin(), 11);
    assert_eq!(moved.origin(), 13);
    assert_eq!(moved.msg_id(), 7);
    assert_eq!(moved.tracker(), Some(9));
    assert!(moved.type_id() == key::<i32>());
    assert!(Arc::ptr_eq(&moved.value, &env.value));
}

#[test]
fn without_tracker_keeps_the_rest() {
    let env = Envelope::with_origin(message(5i32), 7, Some(9), 11);
    let bare = env.without_tracker();
    assert_eq!(bare.tracker(), None);
    assert_eq!(bare.origin(), 11);
    assert_eq!(bare.msg_id(), 7);
    assert!(bare.type_id() == key::<i32>());
    assert!(Arc::ptr_eq(&bare.value, &env.value));
}

#[test]
fn the_declared_type_may_differ_from_the_real_one() {
    let value = Arc::new(message(5i32));
    let env = Envelope::from_any_with_origin(value, key::<String>(), 1, None, 2);
    assert!(env.is(key::<String>()));
    assert!(!env.is(key::<i32>()));
    assert!(env.downcast(key::<i32>()).is_some());
    assert!(env.downcast(key::<String>()).is_none());
    assert_eq!(env.origin(), 2);
}

#[test]
fn the_relays_own_messages_have_types_of_their_own() {
    let dropped: Payload<Value, String> =
        Payload::Dropped(Dropped { msg_id: 1, origin_stream_id: 2, event_type_name: "i32" });
    assert!(dropped.type_key() == TypeKey::Dropped);
    assert_eq!(dropped.label(), "Dropped");

    let error: RelayError<String> =
        RelayError::new(3, pipedream_rs::Fault::Interrupted, "subscription");
    let error: Payload<Value, String> = Payload::Error(error);
    assert!(error.type_key() == TypeKey::RelayError);
    assert_eq!(error.label(), "RelayError");
    assert!(!TypeKey::Dropped.same(TypeKey::RelayError));
    assert!(!TypeKey::Dropped.same(key::<i32>()));

    assert_eq!(message(1u8).label(), "message");
}
