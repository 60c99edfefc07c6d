//! What an operation does to a relay: to each of its subscriptions, and to the
//! rest of its state.
use std::any::TypeId;
use vstd::prelude::*;

use crate::envelope::{Envelope, Payload};
use crate::inner::{Inner, RelayModel, SubscriberModel, WaitPoint};
use crate::mailbox::MailboxModel;
use crate::subscription::{Received, SubscriptionModel, Wanted};
use crate::tracker::TableModel;
use crate::type_key::TypeKey;

verus! {

/// A connected subscription that holds fewer messages than it can.
pub open spec fn has_room<V, E>(subscription: SubscriptionModel<V, E>) -> bool {
    subscription.mailbox.connected && subscription.mailbox.queue.len()
        < subscription.mailbox.capacity
}

/// A connected subscription that holds as many messages as it can.
pub open spec fn is_full<V, E>(subscription: SubscriptionModel<V, E>) -> bool {
    subscription.mailbox.connected && subscription.mailbox.queue.len()
        >= subscription.mailbox.capacity
}

/// Whether one of the subscriptions is full.
pub open spec fn some_full<V, E>(relay: RelayModel<V, E>) -> bool {
    exists|i: int|
        0 <= i < relay.subscribers.len() && is_full((#[trigger] relay.subscribers[i]).subscription)
}

/// How many subscriptions of handlers have no room, or are disconnected.
pub open spec fn passed_by<V, E>(subscribers: Seq<SubscriberModel<V, E>>) -> nat {
    subscribers.filter(
        |s: SubscriberModel<V, E>| s.subscription.tracking && !has_room(s.subscription),
    ).len()
}

/// A message that reports of the relay with the given ID that it dropped another.
pub open spec fn reports_drop<V, E>(
    notice: Envelope<V, E>,
    lost: Envelope<V, E>,
    relay: u64,
) -> bool {
    &&& *notice.value matches Payload::Dropped(dropped)
    &&& dropped.msg_id == lost.msg_id
    &&& dropped.origin_stream_id == relay
    &&& *lost.value matches Payload::Value { label, .. } ==> dropped.event_type_name == label
    &&& *lost.value is Dropped ==> dropped.event_type_name@ == "Dropped"@
    &&& *lost.value is Error ==> dropped.event_type_name@ == "RelayError"@
    &&& notice.type_id is Dropped
    &&& notice.msg_id == lost.msg_id
    &&& notice.tracker is None
    &&& notice.origin == relay
}

/// The delivery of a message changes nothing of a relay but what is in the
/// queues: whether it is closed, who is subscribed, how many handlers there are
/// and how many tasks are ready stay as they were, for every relay, with
/// subscriptions or without.
pub proof fn law_delivery_changes_queues_only<V, E>(
    relay: RelayModel<V, E>,
    envelope: Envelope<V, E>,
)
    ensures
        ({
            let after = relay.delivered(envelope);
            &&& after == (RelayModel { subscribers: after.subscribers, ..relay })
            &&& after.closed == relay.closed
            &&& after.subscribers.len() == relay.subscribers.len()
            &&& forall|i: int|
                #![trigger after.subscribers[i]]
                0 <= i < relay.subscribers.len() ==> {
                    let old = relay.subscribers[i];
                    let new = after.subscribers[i];
                    &&& new.id == old.id
                    &&& new.subscription == (SubscriptionModel {
                        mailbox: new.subscription.mailbox,
                        ..old.subscription
                    })
                    &&& new.subscription.mailbox == (MailboxModel {
                        queue: new.subscription.mailbox.queue,
                        ..old.subscription.mailbox
                    })
                    &&& old.subscription.mailbox.queue.is_prefix_of(new.subscription.mailbox.queue)
                }
        }),
{
}

/// A message that is delivered goes to the end of the queue of each subscription
/// with room for it, whoever sent it, whatever its content, and however many
/// handlers there are. A subscription without room, or disconnected, gets nothing.
/// Exactly when one of the subscriptions is full, a report of the drop follows the
/// message, as far as there is room for it.
pub proof fn law_delivery_by_subscription<V, E>(
    relay: RelayModel<V, E>,
    envelope: Envelope<V, E>,
    i: int,
)
    requires
        0 <= i < relay.subscribers.len(),
    ensures
        ({
            let old = relay.subscribers[i].subscription;
            let new = relay.delivered(envelope).subscribers[i].subscription.mailbox.queue;
            let queue = old.mailbox.queue;
            &&& !has_room(old) ==> new == queue
            &&& has_room(old) && !some_full(relay) ==> new == queue.push(envelope)
            &&& has_room(old) && some_full(relay) && queue.len() + 1 == old.mailbox.capacity ==> new
                == queue.push(envelope)
            &&& has_room(old) && some_full(relay) && queue.len() + 1 < old.mailbox.capacity ==> {
                &&& new.len() == queue.len() + 2
                &&& new.drop_last() == queue.push(envelope)
                &&& reports_drop(new.last(), envelope, relay.id)
            }
        }),
{
    lemma_some_full(relay);
    let old = relay.subscribers[i].subscription;
    let new = relay.delivered(envelope).subscribers[i].subscription.mailbox.queue;
    if has_room(old) && some_full(relay) && old.mailbox.queue.len() + 1 < old.mailbox.capacity {
        assert(new == old.mailbox.queue.push(envelope).push(relay.drop_notice(envelope)));
        assert(new.drop_last() =~= old.mailbox.queue.push(envelope));
    }
}

proof fn lemma_some_full<V, E>(relay: RelayModel<V, E>)
    ensures
        some_full(relay) == crate::inner::some_overflows(relay.subscribers),
{
    if some_full(relay) {
        let i = choose|i: int|
            0 <= i < relay.subscribers.len() && is_full(
                (#[trigger] relay.subscribers[i]).subscription,
            );
        assert(relay.subscribers[i].overflows());
    }
    if crate::inner::some_overflows(relay.subscribers) {
        let i = choose|i: int|
            0 <= i < relay.subscribers.len() && #[trigger] relay.subscribers[i].overflows();
        assert(is_full(relay.subscribers[i].subscription));
    }
}

/// A subscription for one type of message, for every type, that has room and
/// holds no message of that type, yields a message that is delivered exactly when
/// the content has that type. One for all messages yields it in any case, unless
/// an older message is there.
pub proof fn law_delivered_message_is_yielded_by_type<V, E>(
    relay: RelayModel<V, E>,
    envelope: Envelope<V, E>,
    i: int,
    key: TypeKey,
)
    requires
        0 <= i < relay.subscribers.len(),
        has_room(relay.subscribers[i].subscription),
    ensures
        ({
            let old = relay.subscribers[i].subscription;
            let queue = old.mailbox.queue;
            let new = relay.delivered(envelope).subscribers[i].subscription;
            &&& old.wanted == Wanted::Only(key) && (forall|j: int|
                0 <= j < queue.len() ==> (#[trigger] queue[j]).value.type_key() != key) ==> (
            new.yields() == Received::Message(envelope.value) <==> envelope.value.type_key()
                == key)
            &&& old.wanted is All && queue.len() == 0 ==> new.yields() == Received::Message(
                envelope.value,
            )
        }),
{
    law_delivery_by_subscription(relay, envelope, i);
    law_delivery_changes_queues_only(relay, envelope);
    let old = relay.subscribers[i].subscription;
    let queue = old.mailbox.queue;
    let new = relay.delivered(envelope).subscribers[i].subscription;
    let after = new.mailbox.queue;
    let n = queue.len();
    assert(after.len() == n + 1 || after.len() == n + 2);
    assert(after[n as int] == envelope) by {
        if after.len() == n + 2 {
            assert(after.drop_last()[n as int] == envelope);
        }
    }
    assert forall|j: int| 0 <= j < n implies #[trigger] after[j] == queue[j] by {
        if after.len() == n + 2 {
            assert(after.drop_last()[j] == queue[j]);
        }
    }
    if old.wanted is All && n == 0 {
        crate::laws::receiving::law_first_fitting_message_is_received(new, 0);
    }
    if old.wanted == Wanted::Only(key) && (forall|j: int|
        0 <= j < n ==> (#[trigger] queue[j]).value.type_key() != key) {
        assert forall|j: int| 0 <= j < n implies !crate::laws::receiving::is_for(
            #[trigger] after[j],
            new.wanted,
        ) by {
            assert(queue[j].value.type_key() != key);
        }
        if envelope.value.type_key() == key {
            crate::laws::receiving::law_first_fitting_message_is_received(new, n);
        } else {
            assert(!crate::laws::receiving::is_for(after[n as int], new.wanted));
            if after.len() == n + 2 {
                if key is Dropped {
                    crate::laws::receiving::law_first_fitting_message_is_received(new, n + 1);
                    assert(*after[n as int + 1].value is Dropped);
                    assert(new.yields() == Received::Message(after[n as int + 1].value));
                    assert(!(*envelope.value is Dropped));
                } else {
                    assert(!crate::laws::receiving::is_for(after[n as int + 1], new.wanted));
                    crate::laws::receiving::law_nothing_fitting_is_received(new);
                }
            } else {
                crate::laws::receiving::law_nothing_fitting_is_received(new);
            }
        }
    }
}

/// The same, by what the content is: a value of a type of the program, the report
/// of a drop, or the error of a handler, whatever it says and wherever it comes
/// from.
pub proof fn law_delivered_message_is_yielded_by_content<V, E>(
    relay: RelayModel<V, E>,
    envelope: Envelope<V, E>,
    i: int,
    program_type: TypeId,
)
    requires
        0 <= i < relay.subscribers.len(),
        has_room(relay.subscribers[i].subscription),
        relay.subscribers[i].subscription.mailbox.queue.len() == 0,
    ensures
        ({
            let wanted = relay.subscribers[i].subscription.wanted;
            let new = relay.delivered(envelope).subscribers[i].subscription;
            let gets = new.yields() == Received::Message(envelope.value);
            &&& wanted == Wanted::Only(TypeKey::Of(program_type)) ==> (gets <==> (
            *envelope.value matches Payload::Value { type_id, .. } && type_id == program_type))
            &&& wanted == Wanted::Only(TypeKey::Dropped) ==> (gets <==> *envelope.value is Dropped)
            &&& wanted == Wanted::Only(TypeKey::RelayError) ==> (gets <==> *envelope.value is Error)
        }),
{
    law_delivered_message_is_yielded_by_type(relay, envelope, i, TypeKey::Of(program_type));
    law_delivered_message_is_yielded_by_type(relay, envelope, i, TypeKey::Dropped);
    law_delivered_message_is_yielded_by_type(relay, envelope, i, TypeKey::RelayError);
}

proof fn lemma_passed_by<V, E>(
    subscribers: Seq<SubscriberModel<V, E>>,
    tracker: Option<u64>,
    trackers: TableModel<E>,
)
    ensures
        ({
            let after = crate::inner::passed_over(subscribers, tracker, trackers);
            &&& crate::laws::counts::counts_up(
                trackers,
                after,
                |k: u64|
                    if tracker == Some(k) {
                        passed_by(subscribers)
                    } else {
                        0
                    },
            )
            &&& crate::laws::counts::same_errors(trackers, after)
        }),
    decreases subscribers.len(),
{
    reveal_with_fuel(Seq::filter, 2);
    let total = |k: u64|
        if tracker == Some(k) {
            passed_by(subscribers)
        } else {
            0
        };
    if subscribers.len() == 0 {
        assert forall|k: u64| #[trigger] total(k) == 0 by {}
        crate::laws::counts::lemma_counts_none(trackers, total);
    } else {
        let rest = subscribers.drop_last();
        let last = subscribers.last();
        let more = |k: u64|
            if tracker == Some(k) {
                passed_by(rest)
            } else {
                0
            };
        lemma_passed_by(rest, tracker, trackers);
        assert(passed_by(subscribers) == passed_by(rest) + if last.subscription.tracking
            && !has_room(last.subscription) {
            1nat
        } else {
            0nat
        });
        assert(last.misses() == (last.subscription.tracking && !has_room(last.subscription)));
        let middle = crate::inner::passed_over(rest, tracker, trackers);
        let after = crate::inner::passed_over(subscribers, tracker, trackers);
        if last.misses() {
            assert forall|k: u64| #[trigger] total(k) == more(k) + if tracker == Some(k) {
                1nat
            } else {
                0nat
            } by {}
            crate::laws::counts::lemma_counts_one_more(
                trackers,
                middle,
                after,
                tracker,
                more,
                total,
            );
        } else {
            assert(total =~= more);
        }
        assert forall|k: u64| trackers.live.contains_key(k) implies (
        #[trigger] after.live[k]).error == trackers.live[k].error by {
            assert(middle.live.contains_key(k));
            assert(middle.live[k].error == trackers.live[k].error);
        }
    }
}

/// The delivery of a message completes it once for each handler whose
/// subscription has no room or is disconnected. It completes nothing else, and no
/// error comes of it.
pub proof fn law_delivery_completes_for_those_passed_by<V, E>(
    relay: RelayModel<V, E>,
    envelope: Envelope<V, E>,
    trackers: TableModel<E>,
)
    ensures
        ({
            let after = relay.trackers_delivered(envelope, trackers);
            &&& crate::laws::counts::counts_up(
                trackers,
                after,
                |k: u64|
                    if envelope.tracker == Some(k) {
                        passed_by(relay.subscribers)
                    } else {
                        0
                    },
            )
            &&& crate::laws::counts::same_errors(trackers, after)
        }),
{
    lemma_passed_by(relay.subscribers, envelope.tracker, trackers);
    crate::inner::lemma_nobody_passed_over(relay.subscribers, envelope.tracker, trackers);
}

/// A new relay is open, with no subscription, no handler, nobody to wait for, and
/// message IDs from 0.
pub proof fn law_new_relay<V, E>(id: u64, channel_size: usize)
    ensures
        ({
            let relay = RelayModel::<V, E>::fresh(id, channel_size);
            &&& relay.id == id
            &&& relay.channel_size == channel_size
            &&& relay.subscribers.len() == 0
            &&& relay.next_subscriber == 0
            &&& relay.pending_ready == 0
            &&& relay.ready_count == 0
            &&& !relay.ready_signal
            &&& relay.msg_id_counter == 0
            &&& relay.handler_count == 0
            &&& !relay.closed
        }),
{
}

/// A relay that was made without a size has subscriptions that hold 65536 messages
/// each, and one that was made with a size has subscriptions of that size.
pub proof fn law_subscriptions_have_the_size_of_the_relay<V, E>(
    id: u64,
    channel_size: usize,
    wanted: Wanted,
    tracking: bool,
)
    ensures
        ({
            let relay = RelayModel::<V, E>::fresh(id, crate::stream::DEFAULT_CHANNEL_SIZE);
            let new = relay.subscribed(wanted, tracking).subscribers.last();
            new.subscription.mailbox.capacity == 65536
        }),
        ({
            let relay = RelayModel::<V, E>::fresh(id, channel_size);
            let new = relay.subscribed(wanted, tracking).subscribers.last();
            new.subscription.mailbox.capacity == channel_size
        }),
{
}

/// A relay is well-formed exactly when its subscriptions stand in the order of
/// their IDs, all of which were handed out, and are connected as long as the relay
/// is open.
pub proof fn law_well_formed_relay<V, E>(relay: RelayModel<V, E>)
    ensures
        relay.wf() <==> {
            &&& forall|i: int, j: int|
                #![trigger relay.subscribers[i], relay.subscribers[j]]
                0 <= i < j < relay.subscribers.len() ==> relay.subscribers[i].id
                    < relay.subscribers[j].id
            &&& forall|i: int|
                #![trigger relay.subscribers[i]]
                0 <= i < relay.subscribers.len() ==> {
                    &&& relay.subscribers[i].id < relay.next_subscriber
                    &&& relay.subscribers[i].subscription.mailbox.connected <==> !relay.closed
                }
        },
{
}

/// Subscriptions are found by their ID: the relay has one exactly when one in the
/// list bears the ID, and that is the one.
pub proof fn law_subscriptions_are_found<V, E>(relay: RelayModel<V, E>, id: u64)
    requires
        relay.wf(),
    ensures
        relay.has(id) <==> exists|i: int|
            0 <= i < relay.subscribers.len() && (#[trigger] relay.subscribers[i]).id == id,
        forall|i: int|
            0 <= i < relay.subscribers.len() && (#[trigger] relay.subscribers[i]).id == id
                ==> relay.subscription(id) == relay.subscribers[i].subscription,
{
    if relay.has(id) {
        assert(crate::inner::stands_at(relay.subscribers, id, relay.position(id)));
        assert(relay.subscribers[relay.position(id)].id == id);
    }
    assert forall|i: int|
        0 <= i < relay.subscribers.len() && (#[trigger] relay.subscribers[i]).id == id implies
        relay.has(id) && relay.subscription(id) == relay.subscribers[i].subscription by {
        assert(crate::inner::stands_at(relay.subscribers, id, i));
        crate::inner::lemma_position(relay, id, i);
    }
}

/// A change to one subscription leaves its ID, every other subscription, and the
/// rest of the relay.
pub proof fn law_one_subscription_changes<V, E>(
    relay: RelayModel<V, E>,
    id: u64,
    subscription: SubscriptionModel<V, E>,
)
    requires
        relay.wf(),
        relay.has(id),
    ensures
        ({
            let after = relay.with_subscription(id, subscription);
            &&& after == (RelayModel { subscribers: after.subscribers, ..relay })
            &&& after.subscribers.len() == relay.subscribers.len()
            &&& forall|i: int|
                #![trigger after.subscribers[i]]
                0 <= i < relay.subscribers.len() ==> {
                    &&& after.subscribers[i].id == relay.subscribers[i].id
                    &&& relay.subscribers[i].id == id ==> after.subscribers[i].subscription
                        == subscription
                    &&& relay.subscribers[i].id != id ==> after.subscribers[i]
                        == relay.subscribers[i]
                }
        }),
{
    let p = relay.position(id);
    assert(crate::inner::stands_at(relay.subscribers, id, p));
    assert forall|i: int|
        0 <= i < relay.subscribers.len() && relay.subscribers[i].id == id implies i == p by {
        assert(crate::inner::stands_at(relay.subscribers, id, i));
        crate::inner::lemma_position(relay, id, i);
    }
}

/// A subscription can be made exactly where the size of mailboxes is at least one,
/// its eightfold is a machine word, and an ID is left.
pub proof fn law_when_subscribing_is_possible<V, E>(relay: RelayModel<V, E>)
    ensures
        relay.can_subscribe() <==> relay.channel_size >= 1 && 8 * relay.channel_size <= usize::MAX
            && relay.next_subscriber < u64::MAX,
{
}

/// Whether a relay has one subscription more: the last in the list, under the next
/// ID. It is empty, has the size of all others, and is connected unless the relay
/// is closed. Those that were there are as they were.
pub open spec fn gains<V, E>(
    relay: RelayModel<V, E>,
    after: RelayModel<V, E>,
    wanted: Wanted,
    tracking: bool,
) -> bool {
    let new = after.subscribers.last();
    &&& after.subscribers.len() == relay.subscribers.len() + 1
    &&& after.subscribers.drop_last() == relay.subscribers
    &&& new.id == relay.next_subscriber
    &&& new.subscription.mailbox.queue.len() == 0
    &&& new.subscription.mailbox.capacity == relay.channel_size
    &&& new.subscription.mailbox.connected <==> !relay.closed
    &&& new.subscription.wanted == wanted
    &&& new.subscription.tracking == tracking
    &&& new.subscription.current_tracker is None
    &&& new.subscription.current_msg_id is None
    &&& after.next_subscriber == relay.next_subscriber + 1
    &&& after.id == relay.id
    &&& after.channel_size == relay.channel_size
    &&& after.msg_id_counter == relay.msg_id_counter
    &&& after.closed == relay.closed
}

/// Subscribing adds one subscription. Only one that senders wait for counts as a
/// handler, and as a task that is ready; those who wait for readiness are then
/// notified.
pub proof fn law_subscribing_adds_one<V, E>(
    relay: RelayModel<V, E>,
    wanted: Wanted,
    tracking: bool,
)
    requires
        relay.next_subscriber < u64::MAX,
    ensures
        ({
            let after = relay.subscribed(wanted, tracking);
            &&& gains(relay, after, wanted, tracking)
            &&& after.pending_ready == relay.pending_ready
            &&& after.ready_count == relay.ready_count
            &&& after.ready_signal == relay.ready_signal
            &&& after.handler_count == relay.handler_count
        }),
        ({
            let after = relay.subscribed_tracking(wanted);
            &&& gains(relay, after, wanted, true)
            &&& relay.pending_ready < usize::MAX ==> after.pending_ready == relay.pending_ready + 1
            &&& relay.pending_ready == usize::MAX ==> after.pending_ready == 0
            &&& relay.ready_count < usize::MAX ==> after.ready_count == relay.ready_count + 1
            &&& relay.ready_count == usize::MAX ==> after.ready_count == 0
            &&& after.ready_signal
            &&& relay.handler_count < usize::MAX ==> after.handler_count == relay.handler_count + 1
            &&& relay.handler_count == usize::MAX ==> after.handler_count == 0
        }),
{
    assert(relay.subscribed(wanted, tracking).subscribers.drop_last() =~= relay.subscribers);
    assert(relay.subscribed_tracking(wanted).subscribers.drop_last() =~= relay.subscribers);
}

/// A subscription that goes away leaves the others, in their order, and the rest
/// of the relay.
pub proof fn law_unsubscribing_takes_one<V, E>(relay: RelayModel<V, E>, id: u64, i: int)
    requires
        relay.wf(),
        0 <= i < relay.subscribers.len(),
        relay.subscribers[i].id == id,
    ensures
        ({
            let after = relay.unsubscribed(id);
            &&& after == (RelayModel { subscribers: after.subscribers, ..relay })
            &&& after.subscribers == relay.subscribers.take(i) + relay.subscribers.skip(i + 1)
        }),
{
    assert(crate::inner::stands_at(relay.subscribers, id, i));
    crate::inner::lemma_position(relay, id, i);
    assert(relay.unsubscribed(id).subscribers =~= relay.subscribers.take(i)
        + relay.subscribers.skip(i + 1));
}

/// Closing disconnects every subscription and leaves what it holds and what it is
/// doing, and the rest of the relay.
pub proof fn law_closing_disconnects<V, E>(relay: RelayModel<V, E>)
    ensures
        ({
            let after = relay.shut();
            &&& after == (RelayModel {
                subscribers: after.subscribers,
                closed: after.closed,
                ..relay
            })
            &&& after.closed
            &&& after.subscribers.len() == relay.subscribers.len()
            &&& forall|i: int|
                #![trigger after.subscribers[i]]
                0 <= i < relay.subscribers.len() ==> {
                    let old = relay.subscribers[i];
                    let new = after.subscribers[i];
                    &&& new.id == old.id
                    &&& new.subscription == (SubscriptionModel {
                        mailbox: new.subscription.mailbox,
                        ..old.subscription
                    })
                    &&& new.subscription.mailbox.queue == old.subscription.mailbox.queue
                    &&& new.subscription.mailbox.capacity == old.subscription.mailbox.capacity
                    &&& !new.subscription.mailbox.connected
                }
        }),
{
}

/// Numbers go up or down by one, around the end of a machine word, and change
/// nothing else of the relay: those of the tasks that are to be ready, of those
/// that are, of handlers, and of messages.
pub proof fn law_relay_counts_by_one<V, E>(relay: RelayModel<V, E>)
    ensures
        ({
            let after = relay.awaiting_one_more();
            &&& after == (RelayModel { pending_ready: after.pending_ready, ..relay })
            &&& relay.pending_ready < usize::MAX ==> after.pending_ready == relay.pending_ready + 1
            &&& relay.pending_ready == usize::MAX ==> after.pending_ready == 0
        }),
        ({
            let after = relay.readied();
            &&& after == (RelayModel {
                ready_count: after.ready_count,
                ready_signal: after.ready_signal,
                ..relay
            })
            &&& after.ready_signal
            &&& relay.ready_count < usize::MAX ==> after.ready_count == relay.ready_count + 1
            &&& relay.ready_count == usize::MAX ==> after.ready_count == 0
        }),
        ({
            let after = relay.handler_gone();
            &&& after == (RelayModel { handler_count: after.handler_count, ..relay })
            &&& relay.handler_count > 0 ==> after.handler_count == relay.handler_count - 1
            &&& relay.handler_count == 0 ==> after.handler_count == usize::MAX
        }),
        ({
            let after = relay.numbered();
            &&& after == (RelayModel { msg_id_counter: after.msg_id_counter, ..relay })
            &&& relay.msg_id_counter < u64::MAX ==> after.msg_id_counter == relay.msg_id_counter
                + 1
            &&& relay.msg_id_counter == u64::MAX ==> after.msg_id_counter == 0
        }),
{
}

/// A relay is ready exactly when no fewer tasks have signaled than were to. A task
/// that waits goes on exactly then, and awaits a notification only after it has
/// registered for one.
pub proof fn law_ready_by_count<V, E>(relay: RelayModel<V, E>, point: WaitPoint)
    ensures
        relay.is_ready() <==> relay.ready_count >= relay.pending_ready,
        ({
            let action = crate::inner::wait_action(relay.is_ready(), point);
            let all = relay.ready_count >= relay.pending_ready;
            &&& action is Proceed <==> all
            &&& action is Register <==> !all && point is Entered
            &&& action is Await <==> !all && point is Registered
        }),
{
}

/// An envelope gets the relay's ID for its origin if it has none, and is otherwise
/// left as it is. The report of a drop says what was dropped and where.
pub proof fn law_envelopes_are_stamped<V, E>(relay: RelayModel<V, E>, envelope: Envelope<V, E>)
    ensures
        ({
            let after = relay.stamped(envelope);
            &&& after == (Envelope { origin: after.origin, ..envelope })
            &&& envelope.origin == 0 ==> after.origin == relay.id
            &&& envelope.origin != 0 ==> after.origin == envelope.origin
        }),
        reports_drop(relay.drop_notice(envelope), envelope, relay.id),
{
}

/// A relay refers to a tracker exactly when one of its subscriptions processes, or
/// has in its queue, a message with that tracker. A tracker is let go of exactly
/// where no relay does, and nobody has kept it.
pub proof fn law_relay_references_are_messages<V, E>(
    relay: RelayModel<V, E>,
    relays: Seq<&Inner<V, E>>,
    kept: Seq<u64>,
    key: u64,
)
    ensures
        relay.refers_to(key) <==> exists|i: int, j: int|
            {
                &&& 0 <= i < relay.subscribers.len()
                &&& {
                    ||| relay.subscribers[i].subscription.current_tracker == Some(key)
                    ||| {
                        &&& 0 <= j < relay.subscribers[i].subscription.mailbox.queue.len()
                        &&& (
                        #[trigger] relay.subscribers[i].subscription.mailbox.queue[j]).tracker
                            == Some(key)
                    }
                }
            },
        crate::inner::unreferenced(relays, kept, key) <==> {
            &&& forall|i: int|
                0 <= i < relays.len() ==> !(#[trigger] relays[i])@.refers_to(key)
            &&& forall|i: int| 0 <= i < kept.len() ==> #[trigger] kept[i] != key
        },
{
    if relay.refers_to(key) {
        let i = choose|i: int|
            0 <= i < relay.subscribers.len() && (
            #[trigger] relay.subscribers[i]).subscription.refers_to(key);
        let queue = relay.subscribers[i].subscription.mailbox.queue;
        crate::laws::receiving::law_references_are_messages(
            relay.subscribers[i].subscription,
            key,
        );
        if relay.subscribers[i].subscription.current_tracker == Some(key) {
            let first = relay.subscribers[i].subscription.mailbox.queue[0];
            assert(first == relay.subscribers[i].subscription.mailbox.queue[0]);
        } else {
            let j = choose|j: int|
                0 <= j < queue.len() && (#[trigger] queue[j]).tracker == Some(key);
            assert(relay.subscribers[i].subscription.mailbox.queue[j].tracker == Some(key));
        }
    }
    assert forall|i: int, j: int|
        {
            &&& 0 <= i < relay.subscribers.len()
            &&& {
                ||| relay.subscribers[i].subscription.current_tracker == Some(key)
                ||| {
                    &&& 0 <= j < relay.subscribers[i].subscription.mailbox.queue.len()
                    &&& (#[trigger] relay.subscribers[i].subscription.mailbox.queue[j]).tracker
                        == Some(key)
                }
            }
        } implies relay.refers_to(key) by {
        crate::laws::receiving::law_references_are_messages(
            relay.subscribers[i].subscription,
            key,
        );
    }
    if kept.contains(key) {
        let i = choose|i: int| 0 <= i < kept.len() && kept[i] == key;
        assert(kept[i] == key);
    }
}

} // verus!
