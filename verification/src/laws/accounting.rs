//! Who still owes a completion: no sender waits for nobody.
use vstd::prelude::*;

use crate::envelope::Envelope;
use crate::error::RelayError;
use crate::inner::{Inner, RelayModel, SubscriberModel};
use crate::stream::{HandlerEvent, PendingSend};
use crate::subscription::{SubscriptionModel, Wanted};
use crate::tracker::TableModel;

verus! {

/// How many completions of the tracker under `key` a subscription owes: one
/// for each message in its queue, and one for the message being processed.
pub open spec fn owed_by<V, E>(subscription: SubscriptionModel<V, E>, key: u64) -> nat {
    if subscription.tracking {
        crate::subscription::count_in(subscription.mailbox.queue, key) + if
            subscription.current_tracker == Some(key) {
            1nat
        } else {
            0nat
        }
    } else {
        0
    }
}

/// How many completions of the tracker under `key` the subscriptions owe.
pub open spec fn owed<V, E>(subscribers: Seq<SubscriberModel<V, E>>, key: u64) -> nat
    decreases subscribers.len(),
{
    if subscribers.len() == 0 {
        0
    } else {
        owed(subscribers.drop_last(), key) + owed_by(subscribers.last().subscription, key)
    }
}

/// How many subscriptions take part in completion tracking.
pub open spec fn tracking_count<V, E>(subscribers: Seq<SubscriberModel<V, E>>) -> nat
    decreases subscribers.len(),
{
    if subscribers.len() == 0 {
        0
    } else {
        tracking_count(subscribers.drop_last()) + if subscribers.last().subscription.tracking {
            1nat
        } else {
            0nat
        }
    }
}

/// How many of them do not get a message that is delivered now.
pub open spec fn missing_count<V, E>(subscribers: Seq<SubscriberModel<V, E>>) -> nat
    decreases subscribers.len(),
{
    if subscribers.len() == 0 {
        0
    } else {
        missing_count(subscribers.drop_last()) + if subscribers.last().misses() {
            1nat
        } else {
            0nat
        }
    }
}

/// The relay counts exactly the subscriptions that take part in completion
/// tracking as its handlers.
pub open spec fn counted<V, E>(relay: RelayModel<V, E>) -> bool {
    relay.handler_count == tracking_count(relay.subscribers)
}

/// The completions that a tracker still expects are owed by someone.
pub open spec fn accounted<V, E>(
    relay: RelayModel<V, E>,
    trackers: TableModel<E>,
    key: u64,
) -> bool {
    trackers.live.contains_key(key) ==> trackers.live[key].expected <= trackers.live[key].completed
        + owed(relay.subscribers, key)
}

/// A number of completions fits into a machine word.
pub open spec fn in_range<E>(trackers: TableModel<E>, key: u64) -> bool {
    trackers.live.contains_key(key) ==> trackers.live[key].expected <= usize::MAX
}

// Sums.

proof fn lemma_owed_update<V, E>(
    subscribers: Seq<SubscriberModel<V, E>>,
    i: int,
    s: SubscriberModel<V, E>,
    key: u64,
)
    requires
        0 <= i < subscribers.len(),
    ensures
        owed(subscribers.update(i, s), key) + owed_by(subscribers[i].subscription, key) == owed(
            subscribers,
            key,
        ) + owed_by(s.subscription, key),
    decreases subscribers.len(),
{
    let after = subscribers.update(i, s);
    if i == subscribers.len() - 1 {
        assert(after.drop_last() =~= subscribers.drop_last());
    } else {
        assert(after.drop_last() =~= subscribers.drop_last().update(i, s));
        lemma_owed_update(subscribers.drop_last(), i, s, key);
    }
}

proof fn lemma_owed_remove<V, E>(subscribers: Seq<SubscriberModel<V, E>>, i: int, key: u64)
    requires
        0 <= i < subscribers.len(),
    ensures
        owed(subscribers.remove(i), key) + owed_by(subscribers[i].subscription, key) == owed(
            subscribers,
            key,
        ),
    decreases subscribers.len(),
{
    let after = subscribers.remove(i);
    if i == subscribers.len() - 1 {
        assert(after =~= subscribers.drop_last());
    } else {
        assert(after.drop_last() =~= subscribers.drop_last().remove(i));
        lemma_owed_remove(subscribers.drop_last(), i, key);
    }
}

proof fn lemma_tracking_update<V, E>(
    subscribers: Seq<SubscriberModel<V, E>>,
    i: int,
    s: SubscriberModel<V, E>,
)
    requires
        0 <= i < subscribers.len(),
        s.subscription.tracking == subscribers[i].subscription.tracking,
    ensures
        tracking_count(subscribers.update(i, s)) == tracking_count(subscribers),
    decreases subscribers.len(),
{
    let after = subscribers.update(i, s);
    if i == subscribers.len() - 1 {
        assert(after.drop_last() =~= subscribers.drop_last());
    } else {
        assert(after.drop_last() =~= subscribers.drop_last().update(i, s));
        lemma_tracking_update(subscribers.drop_last(), i, s);
    }
}

proof fn lemma_tracking_remove<V, E>(subscribers: Seq<SubscriberModel<V, E>>, i: int)
    requires
        0 <= i < subscribers.len(),
    ensures
        tracking_count(subscribers.remove(i)) + if subscribers[i].subscription.tracking {
            1nat
        } else {
            0nat
        } == tracking_count(subscribers),
    decreases subscribers.len(),
{
    let after = subscribers.remove(i);
    if i == subscribers.len() - 1 {
        assert(after =~= subscribers.drop_last());
    } else {
        assert(after.drop_last() =~= subscribers.drop_last().remove(i));
        lemma_tracking_remove(subscribers.drop_last(), i);
    }
}

/// Subscriptions that agree on who tracks are equal in number of handlers.
proof fn lemma_same_tracking<V, E>(
    a: Seq<SubscriberModel<V, E>>,
    b: Seq<SubscriberModel<V, E>>,
)
    requires
        a.len() == b.len(),
        forall|i: int|
            0 <= i < a.len() ==> (#[trigger] a[i]).subscription.tracking
                == b[i].subscription.tracking,
    ensures
        tracking_count(a) == tracking_count(b),
    decreases a.len(),
{
    if a.len() > 0 {
        assert forall|i: int| 0 <= i < a.len() - 1 implies (
        #[trigger] a.drop_last()[i]).subscription.tracking
            == b.drop_last()[i].subscription.tracking by {
            assert(a.drop_last()[i] == a[i]);
        }
        lemma_same_tracking(a.drop_last(), b.drop_last());
        assert(a[a.len() - 1].subscription.tracking == b[a.len() - 1].subscription.tracking);
    }
}

/// Where no subscription owes less, all together do not owe less.
proof fn lemma_no_less_owed<V, E>(
    a: Seq<SubscriberModel<V, E>>,
    b: Seq<SubscriberModel<V, E>>,
    key: u64,
)
    requires
        a.len() == b.len(),
        forall|i: int|
            0 <= i < a.len() ==> owed_by((#[trigger] a[i]).subscription, key) <= owed_by(
                b[i].subscription,
                key,
            ),
    ensures
        owed(a, key) <= owed(b, key),
    decreases a.len(),
{
    if a.len() > 0 {
        assert forall|i: int| 0 <= i < a.len() - 1 implies owed_by(
            (#[trigger] a.drop_last()[i]).subscription,
            key,
        ) <= owed_by(b.drop_last()[i].subscription, key) by {
            assert(a.drop_last()[i] == a[i]);
        }
        lemma_no_less_owed(a.drop_last(), b.drop_last(), key);
        assert(owed_by(a[a.len() - 1].subscription, key) <= owed_by(
            b[a.len() - 1].subscription,
            key,
        ));
    }
}

/// A message that is offered to a subscription leaves it owing no less.
proof fn lemma_offered<V, E>(
    subscription: SubscriptionModel<V, E>,
    envelope: Envelope<V, E>,
    key: u64,
)
    ensures
        owed_by(subscription.offered(envelope), key) == owed_by(subscription, key) + if
            subscription.tracking && subscription.mailbox.takes() && envelope.tracker == Some(key) {
            1nat
        } else {
            0nat
        },
{
    crate::subscription::lemma_count_push(subscription.mailbox.queue, envelope, key);
}

/// A message is owed once by each handler that takes it.
proof fn lemma_offered_to_all<V, E>(
    subscribers: Seq<SubscriberModel<V, E>>,
    envelope: Envelope<V, E>,
    key: u64,
)
    requires
        envelope.tracker == Some(key),
    ensures
        owed(crate::inner::offered_to_all(subscribers, envelope), key) + missing_count(subscribers)
            == owed(subscribers, key) + tracking_count(subscribers),
    decreases subscribers.len(),
{
    let after = crate::inner::offered_to_all(subscribers, envelope);
    if subscribers.len() > 0 {
        let rest = subscribers.drop_last();
        lemma_offered_to_all(rest, envelope, key);
        assert(after.drop_last() =~= crate::inner::offered_to_all(rest, envelope));
        lemma_offered(subscribers.last().subscription, envelope, key);
    }
}

/// A count with some more, as far as it goes.
pub open spec fn counted_up(completed: nat, more: nat) -> nat {
    if completed + more <= usize::MAX {
        completed + more
    } else if completed <= usize::MAX {
        usize::MAX as nat
    } else {
        completed
    }
}

/// What passing handlers over does to one tracker.
pub proof fn lemma_passed_over<V, E>(
    subscribers: Seq<SubscriberModel<V, E>>,
    tracker: Option<u64>,
    trackers: TableModel<E>,
    key: u64,
)
    ensures
        ({
            let after = crate::inner::passed_over(subscribers, tracker, trackers);
            &&& after.live.contains_key(key) == trackers.live.contains_key(key)
            &&& after.live.contains_key(key) ==> {
                &&& after.live[key].expected == trackers.live[key].expected
                &&& after.live[key].error == trackers.live[key].error
                &&& after.live[key].completed == counted_up(
                    trackers.live[key].completed,
                    if tracker == Some(key) {
                        missing_count(subscribers)
                    } else {
                        0
                    },
                )
            }
        }),
    decreases subscribers.len(),
{
    if subscribers.len() > 0 {
        lemma_passed_over(subscribers.drop_last(), tracker, trackers, key);
    }
}

/// If no handler takes a message, all of them miss it.
pub proof fn lemma_all_miss<V, E>(subscribers: Seq<SubscriberModel<V, E>>)
    requires
        forall|i: int|
            0 <= i < subscribers.len() && (#[trigger] subscribers[i]).subscription.tracking
                ==> !subscribers[i].subscription.mailbox.takes(),
    ensures
        missing_count(subscribers) == tracking_count(subscribers),
    decreases subscribers.len(),
{
    if subscribers.len() > 0 {
        let rest = subscribers.drop_last();
        assert forall|i: int|
            0 <= i < rest.len() && (#[trigger] rest[i]).subscription.tracking implies
            !rest[i].subscription.mailbox.takes() by {
            assert(rest[i] == subscribers[i]);
        }
        lemma_all_miss(rest);
        assert(subscribers[subscribers.len() - 1] == subscribers.last());
    }
}

/// What a delivery leaves owing.
proof fn lemma_delivered<V, E>(relay: RelayModel<V, E>, envelope: Envelope<V, E>, key: u64)
    ensures
        relay.delivered(envelope).subscribers.len() == relay.subscribers.len(),
        owed(relay.subscribers, key) <= owed(relay.delivered(envelope).subscribers, key),
        owed(crate::inner::offered_to_all(relay.subscribers, envelope), key) <= owed(
            relay.delivered(envelope).subscribers,
            key,
        ),
        tracking_count(relay.delivered(envelope).subscribers) == tracking_count(relay.subscribers),
{
    let middle = crate::inner::offered_to_all(relay.subscribers, envelope);
    let notice = relay.drop_notice(envelope);
    let after = relay.delivered(envelope).subscribers;
    assert forall|i: int| 0 <= i < middle.len() implies owed_by(
        (#[trigger] relay.subscribers[i]).subscription,
        key,
    ) <= owed_by(middle[i].subscription, key) by {
        lemma_offered(relay.subscribers[i].subscription, envelope, key);
    }
    lemma_no_less_owed(relay.subscribers, middle, key);
    assert forall|i: int| 0 <= i < middle.len() implies owed_by(
        (#[trigger] middle[i]).subscription,
        key,
    ) <= owed_by(after[i].subscription, key) by {
        lemma_offered(middle[i].subscription, notice, key);
    }
    lemma_no_less_owed(middle, after, key);
    lemma_same_tracking(relay.subscribers, after);
}

/// Completing messages once each.
pub proof fn lemma_discharged<V, E>(
    trackers: TableModel<E>,
    messages: Seq<Envelope<V, E>>,
    key: u64,
)
    ensures
        ({
            let after = crate::subscription::discharged(trackers, messages);
            &&& after.live.contains_key(key) == trackers.live.contains_key(key)
            &&& after.live.contains_key(key) ==> {
                &&& after.live[key].expected == trackers.live[key].expected
                &&& after.live[key].error == trackers.live[key].error
                &&& after.live[key].completed == counted_up(
                    trackers.live[key].completed,
                    crate::subscription::count_in(messages, key),
                )
            }
        }),
    decreases messages.len(),
{
    if messages.len() > 0 {
        lemma_discharged(trackers, messages.drop_last(), key);
    }
}

/// Whether a wanted message is tracked under `key`.
pub open spec fn wants_one_of<V, E>(
    wanted: Wanted,
    messages: Seq<Envelope<V, E>>,
    key: u64,
) -> bool {
    exists|i: int|
        0 <= i < messages.len() && crate::subscription::wants(wanted, #[trigger] messages[i])
            && messages[i].tracker == Some(key)
}

/// Giving messages up once each.
pub proof fn lemma_abandoned<V, E>(
    trackers: TableModel<E>,
    wanted: Wanted,
    messages: Seq<Envelope<V, E>>,
    key: u64,
)
    ensures
        ({
            let after = crate::subscription::abandoned(trackers, wanted, messages);
            &&& after.live.contains_key(key) == trackers.live.contains_key(key)
            &&& after.live.contains_key(key) ==> {
                &&& after.live[key].expected == trackers.live[key].expected
                &&& after.live[key].completed == counted_up(
                    trackers.live[key].completed,
                    crate::subscription::count_in(messages, key),
                )
                &&& trackers.live[key].error is Some ==> after.live[key].error
                    == trackers.live[key].error
                &&& trackers.live[key].error is None ==> (after.live[key].error is Some
                    <==> wants_one_of(wanted, messages, key))
            }
        }),
    decreases messages.len(),
{
    if messages.len() > 0 {
        let rest = messages.drop_last();
        lemma_abandoned(trackers, wanted, rest, key);
        if wants_one_of(wanted, rest, key) {
            let i = choose|i: int|
                0 <= i < rest.len() && crate::subscription::wants(wanted, #[trigger] rest[i])
                    && rest[i].tracker == Some(key);
            assert(messages[i] == rest[i]);
        }
        if wants_one_of(wanted, messages, key) {
            let i = choose|i: int|
                0 <= i < messages.len() && crate::subscription::wants(
                    wanted,
                    #[trigger] messages[i],
                ) && messages[i].tracker == Some(key);
            if i < rest.len() {
                assert(rest[i] == messages[i]);
            }
        }
        assert(messages[messages.len() - 1] == messages.last());
    }
}

/// Where no message is tracked under `key`, none that is wanted is.
pub proof fn lemma_none_wanted<V, E>(wanted: Wanted, messages: Seq<Envelope<V, E>>, key: u64)
    requires
        crate::subscription::count_in(messages, key) == 0,
    ensures
        !wants_one_of(wanted, messages, key),
{
    if wants_one_of(wanted, messages, key) {
        let i = choose|i: int|
            0 <= i < messages.len() && crate::subscription::wants(wanted, #[trigger] messages[i])
                && messages[i].tracker == Some(key);
        crate::subscription::lemma_count_member(messages, i, key);
    }
}

// The laws.

/// No sender waits for nobody: as long as a message is not complete, some
/// handler has it in its queue or is processing it.
pub proof fn law_someone_owes<V, E>(relay: RelayModel<V, E>, trackers: TableModel<E>, key: u64)
    requires
        accounted(relay, trackers, key),
        trackers.live.contains_key(key),
        !trackers.is_complete(key),
    ensures
        exists|i: int|
            0 <= i < relay.subscribers.len() && owed_by(
                (#[trigger] relay.subscribers[i]).subscription,
                key,
            ) > 0,
{
    lemma_debtor(relay.subscribers, key);
}

proof fn lemma_debtor<V, E>(subscribers: Seq<SubscriberModel<V, E>>, key: u64)
    requires
        owed(subscribers, key) > 0,
    ensures
        exists|i: int|
            0 <= i < subscribers.len() && owed_by(
                (#[trigger] subscribers[i]).subscription,
                key,
            ) > 0,
    decreases subscribers.len(),
{
    let rest = subscribers.drop_last();
    if owed(rest, key) > 0 {
        lemma_debtor(rest, key);
        let i = choose|i: int|
            0 <= i < rest.len() && owed_by((#[trigger] rest[i]).subscription, key) > 0;
        assert(subscribers[i] == rest[i]);
    } else {
        assert(subscribers[subscribers.len() - 1] == subscribers.last());
    }
}

/// Once nobody owes a completion, the message is complete, and the sending
/// ends.
pub proof fn law_all_paid_ends_the_sending<V, E>(
    relay: RelayModel<V, E>,
    trackers: TableModel<E>,
    key: u64,
)
    requires
        accounted(relay, trackers, key),
        trackers.live.contains_key(key),
        owed(relay.subscribers, key) == 0,
    ensures
        trackers.is_complete(key),
        (PendingSend::<V, E>::AwaitCompletion { tracker: key }).next_step(relay, trackers).0
            is Finished,
{
}

/// A message that is sent is accounted for, however full the mailboxes are:
/// those who owe a completion are as many as are waited for.
pub proof fn law_sent_message_is_accounted<V, E>(
    relay: RelayModel<V, E>,
    trackers: TableModel<E>,
    envelope: Envelope<V, E>,
)
    requires
        relay.is_ready(),
        counted(relay),
    ensures
        ({
            let pending = PendingSend::AwaitReady { envelope, track: true };
            let (_, relay1, trackers1) = pending.next_step(relay, trackers);
            &&& trackers1.live.contains_key(trackers.next)
            &&& accounted(relay1, trackers1, trackers.next)
            &&& in_range(trackers1, trackers.next)
        }),
{
    let (envelope, created) = relay.with_tracker(envelope, trackers);
    let envelope = relay.stamped(envelope);
    lemma_offered_to_all(relay.subscribers, envelope, trackers.next);
    lemma_delivered(relay, envelope, trackers.next);
    lemma_passed_over(relay.subscribers, envelope.tracker, created, trackers.next);
    crate::inner::lemma_nobody_passed_over(relay.subscribers, envelope.tracker, created);
}

/// Delivering further messages keeps the accounts.
pub proof fn law_delivery_keeps_accounts<V, E>(
    relay: RelayModel<V, E>,
    trackers: TableModel<E>,
    envelope: Envelope<V, E>,
    key: u64,
)
    requires
        accounted(relay, trackers, key),
        in_range(trackers, key),
    ensures
        accounted(
            relay.delivered(envelope),
            relay.trackers_delivered(envelope, trackers),
            key,
        ),
        in_range(relay.trackers_delivered(envelope, trackers), key),
{
    lemma_delivered(relay, envelope, key);
    lemma_passed_over(relay.subscribers, envelope.tracker, trackers, key);
}

/// Receiving keeps the accounts: a message that a handler skips is completed,
/// and the one that it receives is its own to complete. The message that it
/// processed before must have been completed.
pub proof fn law_receiving_keeps_accounts<V, E>(
    relay: RelayModel<V, E>,
    trackers: TableModel<E>,
    id: u64,
    key: u64,
)
    requires
        relay.has(id),
        accounted(relay, trackers, key),
        in_range(trackers, key),
        relay.subscription(id).current_tracker != Some(key),
    ensures
        accounted(
            relay.with_subscription(id, relay.subscription(id).received()),
            relay.subscription(id).trackers_after(trackers),
            key,
        ),
        in_range(relay.subscription(id).trackers_after(trackers), key),
{
    let i = relay.position(id);
    let subscription = relay.subscription(id);
    let received = subscription.received();
    let queue = subscription.mailbox.queue;
    let n = subscription.skips() as int;
    assert(crate::inner::stands_at(relay.subscribers, id, i));
    lemma_owed_update(relay.subscribers, i, SubscriberModel { id, subscription: received }, key);
    lemma_discharged(trackers, subscription.skipped(), key);
    crate::subscription::lemma_head(subscription.wanted, queue);
    if subscription.has_message() {
        assert(queue =~= queue.take(n).push(queue[n]) + queue.skip(n + 1));
        crate::subscription::lemma_count_add(queue.take(n).push(queue[n]), queue.skip(n + 1), key);
        crate::subscription::lemma_count_push(queue.take(n), queue[n], key);
    } else {
        assert(queue.take(n) =~= queue);
    }
}

/// Messages of other types are completed at once: a handler that receives
/// completes every message that it skips, without an error. Where it has no
/// message that it wants, that is all of them.
pub proof fn law_skipped_messages_are_completed<V, E>(
    subscription: SubscriptionModel<V, E>,
    trackers: TableModel<E>,
    key: u64,
)
    requires
        subscription.tracking,
        trackers.live.contains_key(key),
        trackers.live[key].completed + crate::subscription::count_in(
            subscription.skipped(),
            key,
        ) <= usize::MAX,
    ensures
        ({
            let after = subscription.trackers_after(trackers);
            &&& after.live.contains_key(key)
            &&& after.live[key].completed == trackers.live[key].completed
                + crate::subscription::count_in(subscription.skipped(), key)
            &&& after.error(key) == trackers.error(key)
            &&& !subscription.has_message() ==> subscription.skipped()
                == subscription.mailbox.queue
        }),
{
    lemma_discharged(trackers, subscription.skipped(), key);
    crate::subscription::lemma_head(subscription.wanted, subscription.mailbox.queue);
}

/// Settling keeps the accounts: a handler that ends, with an error or without,
/// pays the completion that it owed for the message.
pub proof fn law_settling_keeps_accounts<V, E>(
    relay: RelayModel<V, E>,
    trackers: TableModel<E>,
    id: u64,
    error: Option<RelayError<E>>,
    key: u64,
)
    requires
        relay.has(id),
        accounted(relay, trackers, key),
        in_range(trackers, key),
    ensures
        accounted(
            relay.with_subscription(id, relay.subscription(id).cleared()),
            relay.subscription(id).trackers_settled(trackers, error),
            key,
        ),
        in_range(relay.subscription(id).trackers_settled(trackers, error), key),
{
    let i = relay.position(id);
    let cleared = relay.subscription(id).cleared();
    assert(crate::inner::stands_at(relay.subscribers, id, i));
    lemma_owed_update(relay.subscribers, i, SubscriberModel { id, subscription: cleared }, key);
}

/// A handler keeps the accounts: whatever came of the message that it was
/// processing, it is completed before the next one is received.
pub proof fn law_handler_keeps_accounts<V, E>(
    relay: RelayModel<V, E>,
    trackers: TableModel<E>,
    id: u64,
    event: HandlerEvent<E>,
    report: Option<RelayError<E>>,
    key: u64,
)
    requires
        relay.wf(),
        relay.has(id),
        accounted(relay, trackers, key),
        in_range(trackers, key),
        event is Ready ==> relay.subscription(id).current_tracker != Some(key),
    ensures
        ({
            let subscription = relay.subscription(id);
            let cleared = crate::stream::before_receiving(subscription, event);
            let settled = match event {
                HandlerEvent::Ready => trackers,
                HandlerEvent::Ended(_) => subscription.trackers_settled(trackers, report),
            };
            accounted(
                relay.with_subscription(id, cleared.received()),
                cleared.trackers_after(settled),
                key,
            )
        }),
{
    let subscription = relay.subscription(id);
    match event {
        HandlerEvent::Ready => {
            law_receiving_keeps_accounts(relay, trackers, id, key);
        },
        HandlerEvent::Ended(_) => {
            let cleared = subscription.cleared();
            law_settling_keeps_accounts(relay, trackers, id, report, key);
            relay.lemma_replaced(id, cleared, cleared.received());
            law_receiving_keeps_accounts(
                relay.with_subscription(id, cleared),
                subscription.trackers_settled(trackers, report),
                id,
                key,
            );
        },
    }
}

/// Going away keeps the accounts: a handler that is dropped fails the message
/// that it was processing and those that it had not yet received, and completes
/// those of other types.
pub proof fn law_dropping_keeps_accounts<V, E>(
    relay: RelayModel<V, E>,
    trackers: TableModel<E>,
    id: u64,
    key: u64,
)
    requires
        relay.has(id),
        accounted(relay, trackers, key),
        in_range(trackers, key),
    ensures
        accounted(
            relay.unsubscribed(id),
            relay.subscription(id).trackers_at_drop(trackers),
            key,
        ),
        in_range(relay.subscription(id).trackers_at_drop(trackers), key),
{
    let i = relay.position(id);
    let subscription = relay.subscription(id);
    assert(crate::inner::stands_at(relay.subscribers, id, i));
    lemma_owed_remove(relay.subscribers, i, key);
    lemma_abandoned(
        trackers.failed(
            subscription.current_tracker,
            crate::subscription::interruption(subscription.report_id()),
        ),
        subscription.wanted,
        subscription.mailbox.queue,
        key,
    );
}

/// Nobody waits for a handler that is gone: where the last subscription with the
/// message goes away, the message is complete, and the sending ends.
pub proof fn law_gone_handler_is_not_waited_for<V, E>(
    relay: RelayModel<V, E>,
    trackers: TableModel<E>,
    id: u64,
    key: u64,
)
    requires
        relay.has(id),
        accounted(relay, trackers, key),
        in_range(trackers, key),
        trackers.live.contains_key(key),
        owed(relay.subscribers, key) == owed_by(relay.subscription(id), key),
    ensures
        ({
            let after = relay.subscription(id).trackers_at_drop(trackers);
            &&& after.is_complete(key)
            &&& (PendingSend::<V, E>::AwaitCompletion { tracker: key }).next_step(
                relay.unsubscribed(id),
                after,
            ).0 is Finished
        }),
{
    let i = relay.position(id);
    let subscription = relay.subscription(id);
    assert(crate::inner::stands_at(relay.subscribers, id, i));
    lemma_owed_remove(relay.subscribers, i, key);
    law_dropping_keeps_accounts(relay, trackers, id, key);
    lemma_abandoned(
        trackers.failed(
            subscription.current_tracker,
            crate::subscription::interruption(subscription.report_id()),
        ),
        subscription.wanted,
        subscription.mailbox.queue,
        key,
    );
}

/// Trackers stay through whatever happens to a relay, with the number of handlers
/// they expect: delivering, receiving, settling and going away.
pub proof fn law_relay_keeps_trackers<V, E>(
    relay: RelayModel<V, E>,
    trackers: TableModel<E>,
    envelope: Envelope<V, E>,
    subscription: SubscriptionModel<V, E>,
    report: Option<RelayError<E>>,
    key: u64,
)
    requires
        trackers.live.contains_key(key),
    ensures
        relay.trackers_delivered(envelope, trackers).live.contains_key(key),
        relay.trackers_delivered(envelope, trackers).live[key].expected
            == trackers.live[key].expected,
        subscription.trackers_after(trackers).live.contains_key(key),
        subscription.trackers_after(trackers).live[key].expected == trackers.live[key].expected,
        subscription.trackers_settled(trackers, report).live.contains_key(key),
        subscription.trackers_settled(trackers, report).live[key].expected
            == trackers.live[key].expected,
        subscription.trackers_at_drop(trackers).live.contains_key(key),
        subscription.trackers_at_drop(trackers).live[key].expected == trackers.live[key].expected,
{
    lemma_passed_over(relay.subscribers, envelope.tracker, trackers, key);
    lemma_discharged(trackers, subscription.skipped(), key);
    lemma_abandoned(
        trackers.failed(
            subscription.current_tracker,
            crate::subscription::interruption(subscription.report_id()),
        ),
        subscription.wanted,
        subscription.mailbox.queue,
        key,
    );
}

/// A tracker that a subscription refers to is not let go of.
pub proof fn law_referenced_tracker_stays<V, E>(
    relays: Seq<&Inner<V, E>>,
    kept: Seq<u64>,
    key: u64,
    r: int,
    i: int,
)
    requires
        0 <= r < relays.len(),
        0 <= i < relays[r]@.subscribers.len(),
        crate::subscription::count_in(
            relays[r]@.subscribers[i].subscription.mailbox.queue,
            key,
        ) > 0 || relays[r]@.subscribers[i].subscription.current_tracker == Some(key)
            || kept.contains(key),
    ensures
        !crate::inner::unreferenced(relays, kept, key),
{
    let subscription = relays[r]@.subscribers[i].subscription;
    if subscription.refers_to(key) {
        assert(relays[r]@.refers_to(key));
    }
}

/// Subscribing and closing keep the accounts.
pub proof fn law_wiring_keeps_accounts<V, E>(
    relay: RelayModel<V, E>,
    trackers: TableModel<E>,
    wanted: Wanted,
    tracking: bool,
    key: u64,
)
    requires
        accounted(relay, trackers, key),
    ensures
        accounted(relay.subscribed(wanted, tracking), trackers, key),
        accounted(relay.subscribed_tracking(wanted), trackers, key),
        accounted(relay.shut(), trackers, key),
{
    assert(relay.subscribed(wanted, tracking).subscribers.drop_last() =~= relay.subscribers);
    assert(relay.subscribed_tracking(wanted).subscribers.drop_last() =~= relay.subscribers);
    lemma_no_less_owed(relay.subscribers, relay.shut().subscribers, key);
}

/// Handlers are counted right: a new relay counts none, and whatever happens
/// to a relay keeps the count right.
pub proof fn law_handlers_are_counted<V, E>(
    relay: RelayModel<V, E>,
    envelope: Envelope<V, E>,
    wanted: Wanted,
    id: u64,
    channel_size: usize,
)
    requires
        counted(relay),
        relay.handler_count < usize::MAX,
        relay.has(id),
    ensures
        counted(RelayModel::<V, E>::fresh(relay.id, channel_size)),
        counted(relay.subscribed(wanted, false)),
        counted(relay.subscribed_tracking(wanted)),
        counted(relay.delivered(envelope)),
        counted(relay.shut()),
        counted(relay.numbered()),
        counted(relay.with_subscription(id, relay.subscription(id).received())),
        counted(relay.with_subscription(id, relay.subscription(id).cleared())),
        relay.subscription(id).tracking ==> counted(relay.unsubscribed(id).handler_gone()),
        !relay.subscription(id).tracking ==> counted(relay.unsubscribed(id)),
{
    let i = relay.position(id);
    let subscription = relay.subscription(id);
    assert(crate::inner::stands_at(relay.subscribers, id, i));
    assert(relay.subscribed(wanted, false).subscribers.drop_last() =~= relay.subscribers);
    assert(relay.subscribed_tracking(wanted).subscribers.drop_last() =~= relay.subscribers);
    lemma_delivered(relay, envelope, 0);
    lemma_same_tracking(relay.subscribers, relay.shut().subscribers);
    lemma_tracking_update(
        relay.subscribers,
        i,
        SubscriberModel { id, subscription: subscription.received() },
    );
    lemma_tracking_update(
        relay.subscribers,
        i,
        SubscriberModel { id, subscription: subscription.cleared() },
    );
    lemma_tracking_remove(relay.subscribers, i);
}

} // verus!
