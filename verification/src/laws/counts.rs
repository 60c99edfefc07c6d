//! Trackers, by their counts.
use vstd::prelude::*;

use crate::error::RelayError;
use crate::tracker::{PollEvent, TableModel, TrackerModel};

verus! {

/// A tracker is complete exactly when as many completions have come as are
/// expected, whether or not there is an error. A completion and a failure each
/// count once, up to the largest count, and expect no more or less. A failure
/// leaves its error unless there is one. Taking the error leaves the counts.
pub proof fn law_tracker_counts<E>(tracker: TrackerModel<E>, error: RelayError<E>)
    ensures
        tracker.is_complete() <==> tracker.completed >= tracker.expected,
        tracker.completed < usize::MAX ==> tracker.completed_one().completed == tracker.completed
            + 1,
        tracker.completed >= usize::MAX ==> tracker.completed_one().completed == tracker.completed,
        tracker.completed_one().expected == tracker.expected,
        tracker.completed_one().error == tracker.error,
        tracker.completed < usize::MAX ==> tracker.failed(error).completed == tracker.completed
            + 1,
        tracker.completed >= usize::MAX ==> tracker.failed(error).completed == tracker.completed,
        tracker.failed(error).expected == tracker.expected,
        tracker.error is None ==> tracker.failed(error).error == Some(error),
        tracker.error is Some ==> tracker.failed(error).error == tracker.error,
        tracker.error_taken().error is None,
        tracker.error_taken().completed == tracker.completed,
        tracker.error_taken().expected == tracker.expected,
{
}

/// From one table to the next, the trackers under each key have come as many
/// completions further as `more` tells, up to the largest count. They expect as
/// many as before. Those who wait are notified exactly when a tracker with a new
/// completion has as many as it expects.
pub open spec fn counts_up<E>(
    before: TableModel<E>,
    after: TableModel<E>,
    more: spec_fn(u64) -> nat,
) -> bool {
    &&& after.next == before.next
    &&& forall|k: u64| #[trigger] after.live.contains_key(k) <==> before.live.contains_key(k)
    &&& forall|k: u64|
        #![trigger after.live[k]]
        before.live.contains_key(k) ==> {
            let old = before.live[k];
            let new = after.live[k];
            &&& new.expected == old.expected
            &&& old.completed + more(k) <= usize::MAX ==> new.completed == old.completed + more(k)
            &&& old.completed <= usize::MAX < old.completed + more(k) ==> new.completed
                == usize::MAX
            &&& old.completed > usize::MAX ==> new.completed == old.completed
        }
    &&& after.signal <==> before.signal || exists|k: u64|
        {
            &&& #[trigger] more(k) > 0
            &&& before.live.contains_key(k)
            &&& after.live[k].completed >= after.live[k].expected
        }
}

/// From one table to the next, no error has come or gone.
pub open spec fn same_errors<E>(before: TableModel<E>, after: TableModel<E>) -> bool {
    forall|k: u64|
        before.live.contains_key(k) ==> (#[trigger] after.live[k]).error == before.live[k].error
}

/// Nothing changes where nothing is counted.
pub proof fn lemma_counts_none<E>(trackers: TableModel<E>, more: spec_fn(u64) -> nat)
    requires
        forall|k: u64| #[trigger] more(k) == 0,
    ensures
        counts_up(trackers, trackers, more),
{
    assert forall|k: u64| #![trigger trackers.live[k]] trackers.live.contains_key(k) implies more(k)
        == 0 by {}
}

/// One completion more, with an error or without.
pub proof fn lemma_counts_one_more<E>(
    before: TableModel<E>,
    middle: TableModel<E>,
    after: TableModel<E>,
    key: Option<u64>,
    more: spec_fn(u64) -> nat,
    total: spec_fn(u64) -> nat,
)
    requires
        counts_up(before, middle, more),
        after == middle.completed_one(key) || (exists|error: RelayError<E>|
            after == #[trigger] middle.failed(key, error)),
        forall|k: u64| #[trigger] total(k) == more(k) + if key == Some(k) {
            1nat
        } else {
            0nat
        },
    ensures
        counts_up(before, after, total),
{
    if after != middle.completed_one(key) {
        let error = choose|error: RelayError<E>| after == #[trigger] middle.failed(key, error);
        assert(after == middle.failed(key, error));
    }
    assert forall|k: u64| #[trigger] after.live.contains_key(k) implies before.live.contains_key(
        k,
    ) by {
        assert(middle.live.contains_key(k));
    }
    assert forall|k: u64|
        #![trigger after.live[k]]
        before.live.contains_key(k) implies after.live[k].expected == before.live[k].expected
        && after.live[k].completed >= middle.live[k].completed && total(k) >= more(k) by {
        assert(middle.live.contains_key(k));
        let new = middle.live[k];
        assert(total(k) == more(k) + if key == Some(k) {
            1nat
        } else {
            0nat
        });
    }
    if middle.signal && !before.signal {
        let k = choose|k: u64|
            {
                &&& #[trigger] more(k) > 0
                &&& before.live.contains_key(k)
                &&& middle.live[k].completed >= middle.live[k].expected
            };
        assert(middle.live.contains_key(k));
        assert(total(k) > 0);
    }
    if let Some(k) = key {
        if middle.live.contains_key(k) {
            assert(total(k) > 0);
        }
    }
    assert forall|k: u64|
        #[trigger] total(k) > 0 && before.live.contains_key(k) && after.live[k].completed
            >= after.live[k].expected implies after.signal by {
        assert(middle.live.contains_key(k));
        if key != Some(k) {
            assert(more(k) > 0);
            assert(middle.live[k] == after.live[k]);
        }
    }
}

/// The same trackers are in the table, and those under other keys than `key` are
/// as they were.
pub open spec fn only_changes<E>(
    before: TableModel<E>,
    after: TableModel<E>,
    key: u64,
) -> bool {
    &&& after.next == before.next
    &&& forall|k: u64| #[trigger] after.live.contains_key(k) <==> before.live.contains_key(k)
    &&& forall|k: u64|
        k != key && before.live.contains_key(k) ==> #[trigger] after.live[k] == before.live[k]
}

/// A completion in the table counts once for the tracker under its key, and
/// touches nothing else. It notifies exactly when it leaves that tracker with as
/// many completions as are expected. Without a tracker it does nothing.
pub proof fn law_table_counts_completions<E>(trackers: TableModel<E>, key: u64)
    ensures
        trackers.completed_one(None) == trackers,
        !trackers.live.contains_key(key) ==> trackers.completed_one(Some(key)) == trackers,
        trackers.live.contains_key(key) ==> {
            let after = trackers.completed_one(Some(key));
            let old = trackers.live[key];
            let new = after.live[key];
            &&& only_changes(trackers, after, key)
            &&& old.completed < usize::MAX ==> new.completed == old.completed + 1
            &&& old.completed >= usize::MAX ==> new.completed == old.completed
            &&& new.expected == old.expected
            &&& new.error == old.error
            &&& after.signal <==> trackers.signal || new.completed >= new.expected
        },
{
}

/// A failure in the table counts as a completion does, and leaves its error
/// unless there is one.
pub proof fn law_table_counts_failures<E>(
    trackers: TableModel<E>,
    key: u64,
    error: RelayError<E>,
)
    ensures
        trackers.failed(None, error) == trackers,
        !trackers.live.contains_key(key) ==> trackers.failed(Some(key), error) == trackers,
        trackers.live.contains_key(key) ==> {
            let after = trackers.failed(Some(key), error);
            let old = trackers.live[key];
            let new = after.live[key];
            &&& only_changes(trackers, after, key)
            &&& old.completed < usize::MAX ==> new.completed == old.completed + 1
            &&& old.completed >= usize::MAX ==> new.completed == old.completed
            &&& new.expected == old.expected
            &&& old.error is None ==> new.error == Some(error)
            &&& old.error is Some ==> new.error == old.error
            &&& after.signal <==> trackers.signal || new.completed >= new.expected
        },
{
}

/// What the table says of a key: it is complete exactly when there is a tracker
/// with as many completions as are expected, and its error is that of the
/// tracker.
pub proof fn law_table_answers<E>(trackers: TableModel<E>, key: u64)
    ensures
        trackers.is_complete(key) <==> trackers.live.contains_key(key)
            && trackers.live[key].completed >= trackers.live[key].expected,
        trackers.live.contains_key(key) ==> trackers.error(key) == trackers.live[key].error,
        !trackers.live.contains_key(key) ==> trackers.error(key) is None,
        trackers.wf() <==> forall|k: u64| #[trigger]
            trackers.live.contains_key(k) ==> k < trackers.next,
{
}

/// A new tracker stands under the next key, with no completions and no error,
/// and every other is as it was.
pub proof fn law_table_creates<E>(trackers: TableModel<E>, expected: nat)
    requires
        trackers.next < u64::MAX,
    ensures
        ({
            let after = trackers.created(expected);
            &&& after.next == trackers.next + 1
            &&& after.signal == trackers.signal
            &&& after.live.contains_key(trackers.next)
            &&& after.live[trackers.next].expected == expected
            &&& after.live[trackers.next].completed == 0
            &&& after.live[trackers.next].error is None
            &&& forall|k: u64|
                k != trackers.next ==> (#[trigger] after.live.contains_key(k)
                    <==> trackers.live.contains_key(k))
            &&& forall|k: u64|
                k != trackers.next && trackers.live.contains_key(k)
                    ==> #[trigger] after.live[k] == trackers.live[k]
        }),
{
}

/// Taking an error leaves the counts of its tracker, and everything else.
/// Letting go of a tracker leaves every other.
pub proof fn law_table_takes_and_forgets<E>(trackers: TableModel<E>, key: u64)
    ensures
        ({
            let after = trackers.error_taken(key);
            &&& only_changes(trackers, after, key)
            &&& after.signal == trackers.signal
            &&& trackers.live.contains_key(key) ==> {
                &&& after.live[key].expected == trackers.live[key].expected
                &&& after.live[key].completed == trackers.live[key].completed
                &&& after.live[key].error is None
            }
        }),
        ({
            let after = trackers.released(key);
            &&& after.next == trackers.next
            &&& after.signal == trackers.signal
            &&& !after.live.contains_key(key)
            &&& forall|k: u64|
                k != key ==> (#[trigger] after.live.contains_key(k)
                    <==> trackers.live.contains_key(k))
            &&& forall|k: u64|
                k != key && trackers.live.contains_key(k) ==> #[trigger] after.live[k]
                    == trackers.live[k]
        }),
{
}

/// Waiting for a message ends exactly when there is a tracker with as many
/// completions as are expected. A task that polls is ready exactly then, unless
/// it was just told that no notification has come; and it is told to pend only
/// after it has registered for one.
pub proof fn law_waiting_goes_by_counts<E>(
    trackers: TableModel<E>,
    tracker: TrackerModel<E>,
    key: u64,
    event: PollEvent,
)
    ensures
        crate::tracker::completion(trackers.is_complete(key)) is Finished
            <==> trackers.live.contains_key(key) && trackers.live[key].completed
            >= trackers.live[key].expected,
        crate::tracker::completion(tracker.is_complete()) is Finished <==> tracker.completed
            >= tracker.expected,
        ({
            let action = crate::tracker::poll_action(tracker.is_complete(), event);
            let all = tracker.completed >= tracker.expected;
            &&& action is Ready <==> all && !(event is NotNotified)
            &&& action is Enable <==> !all && event is Polled
            &&& action is PollNotification <==> !all && event is Enabled
            &&& action is WakeAndPend <==> !all && event is Notified
            &&& action is Pend <==> event is NotNotified
        }),
{
}

} // verus!
