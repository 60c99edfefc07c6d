//! Completion tracking.
use vstd::prelude::*;

use crate::error::RelayError;
use crate::inner::{WaitAction, WaitPoint};
use crate::tracker::{Completion, PollAction, PollEvent, TableModel, TrackerModel};

verus! {

/// A tracker after `n` more completions.
pub open spec fn completed_times<E>(tracker: TrackerModel<E>, n: nat) -> TrackerModel<E>
    decreases n,
{
    if n == 0 {
        tracker
    } else {
        completed_times(tracker, (n - 1) as nat).completed_one()
    }
}

/// A new tracker is complete after as many completions as were expected, and
/// not before.
pub proof fn law_complete_when_expected<E>(expected: usize, n: nat)
    ensures
        ({
            let tracker = TrackerModel::<E> { expected: expected as nat, completed: 0, error: None };
            completed_times(tracker, n).is_complete() <==> n >= expected
        }),
{
    lemma_completed_times(
        TrackerModel::<E> { expected: expected as nat, completed: 0, error: None },
        n,
    );
}

proof fn lemma_completed_times<E>(tracker: TrackerModel<E>, n: nat)
    requires
        tracker.completed == 0,
    ensures
        completed_times(tracker, n).expected == tracker.expected,
        completed_times(tracker, n).error == tracker.error,
        completed_times(tracker, n).completed == if n < usize::MAX {
            n
        } else {
            usize::MAX as nat
        },
    decreases n,
{
    if n > 0 {
        lemma_completed_times(tracker, (n - 1) as nat);
    }
}

/// Once complete, a tracker stays complete: further completions, failures and
/// the taking of the error change nothing about it.
pub proof fn law_completion_is_permanent<E>(tracker: TrackerModel<E>, error: RelayError<E>)
    requires
        tracker.is_complete(),
    ensures
        tracker.completed_one().is_complete(),
        tracker.failed(error).is_complete(),
        tracker.error_taken().is_complete(),
{
}

/// A failure completes a handler just as a success does.
pub proof fn law_failure_completes<E>(tracker: TrackerModel<E>, error: RelayError<E>)
    ensures
        tracker.failed(error).completed == tracker.completed_one().completed,
        tracker.failed(error).expected == tracker.expected,
        tracker.failed(error).is_complete() == tracker.completed_one().is_complete(),
{
}

/// The first error wins: later failures do not replace it.
pub proof fn law_first_error_wins<E>(
    tracker: TrackerModel<E>,
    first: RelayError<E>,
    second: RelayError<E>,
)
    requires
        tracker.error is None,
    ensures
        tracker.failed(first).error == Some(first),
        tracker.failed(first).failed(second).error == Some(first),
        tracker.failed(first).completed_one().error == Some(first),
{
}

/// Completions of a tracker that was let go of are ignored, and it never counts
/// as complete.
pub proof fn law_late_completion_is_ignored<E>(
    trackers: TableModel<E>,
    key: u64,
    error: RelayError<E>,
)
    ensures
        trackers.released(key).completed_one(Some(key)) == trackers.released(key),
        trackers.released(key).failed(Some(key), error) == trackers.released(key),
        !trackers.released(key).is_complete(key),
{
}

/// What happens to one tracker does not touch another.
pub proof fn law_trackers_are_independent<E>(
    trackers: TableModel<E>,
    key: u64,
    other: u64,
    error: RelayError<E>,
)
    requires
        key != other,
        trackers.live.contains_key(other),
    ensures
        trackers.completed_one(Some(key)).live[other] == trackers.live[other],
        trackers.failed(Some(key), error).live[other] == trackers.live[other],
        trackers.released(key).live[other] == trackers.live[other],
        trackers.error_taken(key).live[other] == trackers.live[other],
{
}

/// A new tracker does not replace one in use.
pub proof fn law_new_tracker_is_new<E>(trackers: TableModel<E>, expected: nat, key: u64)
    requires
        trackers.wf(),
        trackers.next < u64::MAX,
        trackers.live.contains_key(key),
    ensures
        trackers.created(expected).live.contains_key(key),
        trackers.created(expected).live[key] == trackers.live[key],
        trackers.created(expected).wf(),
{
}

/// Those who wait are notified when a completion, be it a success or a failure,
/// makes or finds the tracker complete.
pub proof fn law_completion_is_signaled<E>(
    trackers: TableModel<E>,
    key: u64,
    error: RelayError<E>,
)
    requires
        trackers.live.contains_key(key),
    ensures
        trackers.completed_one(Some(key)).is_complete(key) ==> trackers.completed_one(
            Some(key),
        ).signal,
        trackers.failed(Some(key), error).is_complete(key) ==> trackers.failed(
            Some(key),
            error,
        ).signal,
{
}

/// The trackers, after handlers have ended in turn: each one completes the
/// tracker that it names, with an error or without.
pub open spec fn ended_in_turn<E>(
    trackers: TableModel<E>,
    endings: Seq<(u64, Option<RelayError<E>>)>,
) -> TableModel<E>
    decreases endings.len(),
{
    if endings.len() == 0 {
        trackers
    } else {
        let before = ended_in_turn(trackers, endings.drop_last());
        match endings.last() {
            (key, None) => before.completed_one(Some(key)),
            (key, Some(error)) => before.failed(Some(key), error),
        }
    }
}

/// A task that waits for a message is woken by the last completion. As long as
/// the message is not complete, the task is told to wait. However its handlers,
/// and those of other messages, end after that: when the message is complete,
/// the notification has been raised, and the task that looks again is ready.
pub proof fn law_waiting_task_is_woken<E>(
    trackers: TableModel<E>,
    key: u64,
    endings: Seq<(u64, Option<RelayError<E>>)>,
)
    requires
        trackers.live.contains_key(key),
        !trackers.is_complete(key),
    ensures
        crate::tracker::poll_action(trackers.is_complete(key), PollEvent::NotNotified)
            == PollAction::Pend,
        crate::tracker::completion(trackers.is_complete(key)) == Completion::AwaitNotification,
        ({
            let after = ended_in_turn(trackers, endings);
            &&& after.live.contains_key(key)
            &&& after.is_complete(key) ==> {
                &&& after.signal
                &&& crate::tracker::poll_action(after.is_complete(key), PollEvent::Polled)
                    == PollAction::Ready
                &&& crate::tracker::poll_action(after.is_complete(key), PollEvent::Notified)
                    == PollAction::Ready
                &&& crate::tracker::completion(after.is_complete(key)) == Completion::Finished
            }
        }),
    decreases endings.len(),
{
    if endings.len() > 0 {
        law_waiting_task_is_woken(trackers, key, endings.drop_last());
    }
}

/// Trackers stay, with the number of handlers they expect: whatever handlers do,
/// and whoever takes the error, only letting go of a tracker ends it.
pub proof fn law_trackers_stay<E>(
    trackers: TableModel<E>,
    key: u64,
    other: u64,
    error: RelayError<E>,
    expected: nat,
)
    requires
        trackers.wf(),
        trackers.next < u64::MAX,
        trackers.live.contains_key(key),
    ensures
        trackers.completed_one(Some(other)).live.contains_key(key),
        trackers.completed_one(Some(other)).live[key].expected == trackers.live[key].expected,
        trackers.failed(Some(other), error).live.contains_key(key),
        trackers.failed(Some(other), error).live[key].expected == trackers.live[key].expected,
        trackers.error_taken(other).live.contains_key(key),
        trackers.error_taken(other).live[key].expected == trackers.live[key].expected,
        trackers.error_taken(other).live[key].completed == trackers.live[key].completed,
        trackers.created(expected).live.contains_key(key),
        trackers.created(expected).live[key] == trackers.live[key],
        !trackers.released(key).live.contains_key(key),
        other != key ==> trackers.released(other).live.contains_key(key),
{
}

/// Whoever waits looks at the tracker again after registering: a completion
/// that came in between is not missed, and no one sleeps on a complete tracker.
pub proof fn law_no_completion_is_missed(event: PollEvent)
    requires
        !(event is NotNotified),
    ensures
        crate::tracker::poll_action(true, event) == PollAction::Ready,
        crate::tracker::poll_action(false, event) != PollAction::Ready,
        crate::tracker::poll_action(false, event) != PollAction::Pend,
{
}

/// The same holds of waiting for readiness.
pub proof fn law_no_readiness_is_missed(point: WaitPoint)
    ensures
        crate::inner::wait_action(true, point) == WaitAction::Proceed,
        crate::inner::wait_action(false, point) == WaitAction::Await <==> point is Registered,
        crate::inner::wait_action(false, point) == WaitAction::Register <==> point is Entered,
{
}

} // verus!
