//! Handlers: how they come, fail and go.
use vstd::prelude::*;

use crate::error::RelayError;
use crate::inner::RelayModel;
use crate::subscription::{HandlerOutcome, SubscriptionModel, Wanted};
use crate::tracker::TableModel;

verus! {

/// Errors are always surfaced: the failure or panic of a handler is both
/// recorded for the sender and reported through the relay. The sender gets the
/// same error that is reported, unless another handler failed before.
pub proof fn law_failure_is_surfaced<V, E>(
    subscription: SubscriptionModel<V, E>,
    trackers: TableModel<E>,
    outcome: HandlerOutcome<E>,
    source: &'static str,
    report: Option<RelayError<E>>,
    key: u64,
)
    requires
        outcome.reported_as(subscription.report_id(), source, report),
        !(outcome is Completed),
        subscription.current_tracker == Some(key),
        trackers.live.contains_key(key),
    ensures
        report is Some,
        report->0.source == source,
        report->0.msg_id == subscription.report_id(),
        subscription.trackers_settled(trackers, report).error(key) == if trackers.error(
            key,
        ) is None {
            report
        } else {
            trackers.error(key)
        },
{
}

/// A handler that succeeds reports nothing, and leaves no error.
pub proof fn law_success_is_silent<V, E>(
    subscription: SubscriptionModel<V, E>,
    trackers: TableModel<E>,
    source: &'static str,
    report: Option<RelayError<E>>,
    key: u64,
)
    requires
        HandlerOutcome::<E>::Completed.reported_as(subscription.report_id(), source, report),
    ensures
        report is None,
        subscription.trackers_settled(trackers, report).error(key) == trackers.error(key),
{
}

/// Every message that a handler ends is completed once, be it a success or a
/// failure.
pub proof fn law_handler_completes_its_message<V, E>(
    subscription: SubscriptionModel<V, E>,
    trackers: TableModel<E>,
    report: Option<RelayError<E>>,
    key: u64,
)
    requires
        subscription.current_tracker == Some(key),
        trackers.live.contains_key(key),
        trackers.live[key].completed < usize::MAX,
    ensures
        subscription.trackers_settled(trackers, report).live[key].completed
            == trackers.live[key].completed + 1,
{
}

/// No message is completed twice: once a handler has settled a message, neither
/// a second settling nor the end of the subscription touches its tracker. (The
/// end of the subscription does touch those of messages in its queue.)
pub proof fn law_no_double_completion<V, E>(
    subscription: SubscriptionModel<V, E>,
    trackers: TableModel<E>,
    report: Option<RelayError<E>>,
    key: u64,
)
    requires
        crate::subscription::count_in(subscription.mailbox.queue, key) == 0,
    ensures
        subscription.cleared().trackers_settled(trackers, report) == trackers,
        ({
            let after = subscription.cleared().trackers_at_drop(trackers);
            &&& after.live.contains_key(key) == trackers.live.contains_key(key)
            &&& after.live.contains_key(key) ==> after.live[key] == trackers.live[key]
        }),
{
    crate::laws::accounting::lemma_abandoned(
        trackers,
        subscription.wanted,
        subscription.mailbox.queue,
        key,
    );
    crate::laws::accounting::lemma_none_wanted(
        subscription.wanted,
        subscription.mailbox.queue,
        key,
    );
}

/// A handler that goes away discharges every message that it still has, so that
/// no sender waits for it. The message that it is processing fails, and so do
/// those that it wants and has not yet received. Messages of other types are
/// complete without an error.
pub proof fn law_interrupted_message_fails<V, E>(
    subscription: SubscriptionModel<V, E>,
    trackers: TableModel<E>,
    key: u64,
)
    requires
        subscription.tracking,
        trackers.live.contains_key(key),
    ensures
        ({
            let after = subscription.trackers_at_drop(trackers);
            &&& after.live.contains_key(key)
            &&& after.live[key].completed == crate::laws::accounting::counted_up(
                trackers.live[key].completed,
                crate::laws::accounting::owed_by(subscription, key),
            )
            &&& trackers.error(key) is Some ==> after.error(key) == trackers.error(key)
            &&& trackers.error(key) is None ==> (after.error(key) is Some
                <==> subscription.current_tracker == Some(key)
                || crate::laws::accounting::wants_one_of(
                subscription.wanted,
                subscription.mailbox.queue,
                key,
            ))
            &&& trackers.error(key) is None && subscription.current_tracker == Some(key)
                ==> after.error(key) == Some(
                crate::subscription::interruption::<E>(subscription.report_id()),
            )
        }),
{
    crate::laws::accounting::lemma_abandoned(
        trackers.failed(
            subscription.current_tracker,
            crate::subscription::interruption(subscription.report_id()),
        ),
        subscription.wanted,
        subscription.mailbox.queue,
        key,
    );
}

/// Subscriptions without tracking take no part in it: no tracker changes by
/// what they receive, or when they go away.
pub proof fn law_untracked_takes_no_part<V, E>(
    subscription: SubscriptionModel<V, E>,
    trackers: TableModel<E>,
)
    requires
        !subscription.tracking,
    ensures
        subscription.trackers_after(trackers) == trackers,
        subscription.trackers_at_drop(trackers) == trackers,
{
}

/// The number of handlers is restored when a handler goes away, and so are the
/// subscriptions.
pub proof fn law_handler_count_is_restored<V, E>(relay: RelayModel<V, E>, wanted: Wanted)
    requires
        relay.wf(),
        relay.next_subscriber < u64::MAX,
    ensures
        ({
            let with = relay.subscribed_tracking(wanted);
            let without = with.unsubscribed(relay.next_subscriber).handler_gone();
            &&& with.has(relay.next_subscriber)
            &&& without.handler_count == relay.handler_count
            &&& without.subscribers == relay.subscribers
            &&& without.closed == relay.closed
        }),
{
    let with = relay.subscribed_tracking(wanted);
    let id = relay.next_subscriber;
    let i = relay.subscribers.len() as int;
    assert(crate::inner::stands_at(with.subscribers, id, i));
    let p = with.position(id);
    assert(crate::inner::stands_at(with.subscribers, id, p));
    if p < i {
        assert(relay.subscribers[p].id < id);
    }
    assert(with.unsubscribed(id).subscribers =~= relay.subscribers);
}

/// A new handler makes no sender wait: it is ready at once.
pub proof fn law_new_handler_is_ready<V, E>(relay: RelayModel<V, E>, wanted: Wanted)
    requires
        relay.pending_ready < usize::MAX,
        relay.ready_count < usize::MAX,
    ensures
        relay.subscribed_tracking(wanted).is_ready() == relay.is_ready(),
        relay.subscribed_tracking(wanted).ready_signal,
{
}

/// Senders wait for a task that is to signal ready, until it does.
pub proof fn law_senders_wait_for_readiness<V, E>(relay: RelayModel<V, E>)
    requires
        relay.ready_count == relay.pending_ready,
        relay.pending_ready < usize::MAX,
    ensures
        !relay.awaiting_one_more().is_ready(),
        relay.awaiting_one_more().readied().is_ready(),
        relay.awaiting_one_more().readied().ready_signal,
{
}

/// The ID that a relay gets after `n` others.
pub open spec fn relay_id_after(first: u64, n: nat) -> u64
    decreases n,
{
    if n == 0 {
        first
    } else {
        relay_id_after(first, (n - 1) as nat).wrapping_add(1)
    }
}

/// Relays have IDs of their own, as long as IDs do not run out, and none has
/// the ID that stands for no relay.
pub proof fn law_relay_ids_differ(first: u64, i: nat, j: nat)
    requires
        first > 0,
        i < j,
        first + j <= u64::MAX,
    ensures
        relay_id_after(first, i) != relay_id_after(first, j),
        relay_id_after(first, i) != 0,
        relay_id_after(first, j) != 0,
{
    lemma_relay_id_after(first, i);
    lemma_relay_id_after(first, j);
}

proof fn lemma_relay_id_after(first: u64, n: nat)
    requires
        first + n <= u64::MAX,
    ensures
        relay_id_after(first, n) == first + n,
    decreases n,
{
    if n > 0 {
        lemma_relay_id_after(first, (n - 1) as nat);
    }
}

} // verus!
