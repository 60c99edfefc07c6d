use pipedream_rs::{
    release_tracker, Completion, CompletionTracker, Fault, Inner, PollAction, PollEvent,
    RelayError, TrackerTable,
};

fn failure(text: &str) -> RelayError<String> {
    RelayError::new(1, Fault::Raised(text.to_string()), "sink")
}

fn raised(error: Option<RelayError<String>>) -> Option<String> {
    match error {
        Some(error) => match &*error.error {
            Fault::Raised(text) => Some(text.clone()),
            _ => None,
        },
        None => None,
    }
}

#[test]
fn completes_when_all_handlers_have() {
    let mut tracker: CompletionTracker<String> = CompletionTracker::new(2);
    assert_eq!(tracker.expected(), 2);
    assert_eq!(tracker.completed(), 0);
    assert!(!tracker.is_complete());
    assert!(!tracker.complete_one());
    assert_eq!(tracker.completed(), 1);
    assert!(tracker.complete_one());
    assert!(tracker.is_complete());
}

#[test]
fn nothing_expected_is_complete_at_once() {
    let tracker: CompletionTracker<String> = CompletionTracker::new(0);
    assert!(tracker.is_complete());
    assert_eq!(tracker.wait_async(), Completion::Finished);
}

#[test]
fn extra_completions_are_harmless() {
    let mut tracker: CompletionTracker<String> = CompletionTracker::new(1);
    assert!(tracker.complete_one());
    assert!(tracker.complete_one());
    assert!(tracker.complete_one());
    assert!(tracker.is_complete());
    assert!(tracker.take_error().is_none());
}

#[test]
fn a_failure_completes_and_the_first_error_wins() {
    let mut tracker = CompletionTracker::new(3);
    assert!(!tracker.fail(failure("first")));
    assert!(!tracker.fail(failure("second")));
    assert!(tracker.complete_one());
    assert_eq!(tracker.completed(), 3);
    assert!(tracker.has_error());
    assert_eq!(raised(tracker.take_error()), Some("first".to_string()));
    assert!(!tracker.has_error());
    assert!(tracker.take_error().is_none());
    assert!(tracker.is_complete());
}

#[test]
fn waiting_looks_again_after_registering() {
    let mut tracker: CompletionTracker<String> = CompletionTracker::new(1);
    assert_eq!(tracker.wait_async(), Completion::AwaitNotification);
    assert_eq!(tracker.wait().poll(PollEvent::Polled), PollAction::Enable);
    assert_eq!(tracker.wait().poll(PollEvent::Enabled), PollAction::PollNotification);
    assert_eq!(tracker.wait().poll(PollEvent::Notified), PollAction::WakeAndPend);
    assert_eq!(tracker.wait().poll(PollEvent::NotNotified), PollAction::Pend);
    tracker.complete_one();
    assert_eq!(tracker.wait_async(), Completion::Finished);
    assert_eq!(tracker.wait().poll(PollEvent::Polled), PollAction::Ready);
    assert_eq!(tracker.wait().poll(PollEvent::Enabled), PollAction::Ready);
    assert_eq!(tracker.wait().poll(PollEvent::Notified), PollAction::Ready);
}

#[test]
fn trackers_in_a_table_are_independent() {
    let mut trackers: TrackerTable<String> = TrackerTable::new();
    assert!(trackers.has_room());
    let a = trackers.create(1);
    let b = trackers.create(2);
    assert!(a != b);
    trackers.complete_one(Some(b));
    assert!(!trackers.is_complete(a));
    assert!(!trackers.is_complete(b));
    assert!(!trackers.take_signal());
    trackers.fail(Some(a), failure("a failed"));
    assert!(trackers.take_signal());
    assert!(!trackers.take_signal());
    assert!(trackers.is_complete(a));
    assert!(!trackers.is_complete(b));
    assert_eq!(trackers.get(b).map(|t| t.completed()), Some(1));
    assert_eq!(trackers.get(b).map(|t| t.expected()), Some(2));
    assert!(trackers.take_error(b).is_none());
    assert_eq!(raised(trackers.take_error(a)), Some("a failed".to_string()));
    assert!(trackers.take_error(a).is_none());
}

#[test]
fn a_tracker_that_was_let_go_of_ignores_the_rest() {
    let mut trackers: TrackerTable<String> = TrackerTable::new();
    let relays: Vec<&Inner<u8, String>> = Vec::new();
    assert_eq!(trackers.next_key(), 0);
    let a = trackers.create(3);
    assert_eq!(trackers.next_key(), a + 1);
    assert_eq!(trackers.wait_owned(a), Completion::AwaitNotification);
    assert!(release_tracker(&relays, &vec![], &mut trackers, a));
    assert!(trackers.get(a).is_none());
    assert!(!trackers.is_complete(a));
    assert_eq!(trackers.wait_owned(a), Completion::AwaitNotification);
    trackers.complete_one(Some(a));
    trackers.fail(Some(a), failure("late"));
    assert!(!trackers.take_signal());
    assert!(trackers.take_error(a).is_none());
    assert!(trackers.create(0) != a);
}

#[test]
fn the_last_completion_raises_the_signal() {
    let mut trackers: TrackerTable<String> = TrackerTable::new();
    let a = trackers.create(2);
    trackers.complete_one(Some(a));
    assert!(!trackers.take_signal());
    trackers.fail(Some(a), failure("the last"));
    assert!(trackers.take_signal());
    assert_eq!(trackers.wait_owned(a), Completion::Finished);
    let action = trackers.get(a).map(|t| t.wait().poll(PollEvent::Notified));
    assert_eq!(action, Some(PollAction::Ready));
}

#[test]
fn completing_no_tracker_does_nothing() {
    let mut trackers: TrackerTable<String> = TrackerTable::new();
    let a = trackers.create(1);
    trackers.complete_one(None);
    trackers.fail(None, failure("nobody"));
    assert!(!trackers.is_complete(a));
    assert!(!trackers.take_signal());
}
