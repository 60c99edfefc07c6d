//! Delivery to subscriptions, and receiving.
use vstd::prelude::*;

use crate::envelope::{Envelope, Payload};
use crate::events::Dropped;
use crate::inner::{RelayModel, SubscriberModel};
use crate::mailbox::MailboxModel;
use crate::stream::PendingSend;
use crate::subscription::{Received, SubscriptionModel, Wanted};
use crate::tracker::TableModel;
use crate::type_key::TypeKey;

verus! {

/// Broadcast: every subscription with room for a message gets it, behind those
/// that it has.
pub proof fn law_broadcast<V, E>(relay: RelayModel<V, E>, envelope: Envelope<V, E>, i: int)
    requires
        0 <= i < relay.subscribers.len(),
        relay.subscribers[i].subscription.mailbox.takes(),
    ensures
        ({
            let before = relay.subscribers[i].subscription.mailbox.queue;
            let after = relay.delivered(envelope).subscribers[i].subscription.mailbox.queue;
            &&& after.len() > before.len()
            &&& after.take(before.len() as int + 1) == before.push(envelope)
        }),
{
    let before = relay.subscribers[i].subscription.mailbox.queue;
    let after = relay.delivered(envelope).subscribers[i].subscription.mailbox.queue;
    assert(after.take(before.len() as int + 1) =~= before.push(envelope));
}

/// Lossless as long as everyone keeps up: if no subscription of an open relay
/// is full, each gets the message, and nothing else changes.
pub proof fn law_lossless<V, E>(relay: RelayModel<V, E>, envelope: Envelope<V, E>, i: int)
    requires
        relay.wf(),
        !relay.closed,
        !crate::inner::some_overflows(relay.subscribers),
        0 <= i < relay.subscribers.len(),
    ensures
        relay.delivered(envelope).subscribers.len() == relay.subscribers.len(),
        relay.delivered(envelope).subscribers[i] == (SubscriberModel {
            subscription: SubscriptionModel {
                mailbox: MailboxModel {
                    queue: relay.subscribers[i].subscription.mailbox.queue.push(envelope),
                    ..relay.subscribers[i].subscription.mailbox
                },
                ..relay.subscribers[i].subscription
            },
            ..relay.subscribers[i]
        }),
{
    assert(!relay.subscribers[i].overflows());
}

/// Drops are observable: when a message is dropped, every subscription with
/// room gets a notice that says which message it was, and which relay dropped
/// it.
pub proof fn law_drop_is_observable<V, E>(
    relay: RelayModel<V, E>,
    envelope: Envelope<V, E>,
    full: int,
    i: int,
)
    requires
        0 <= full < relay.subscribers.len(),
        relay.subscribers[full].overflows(),
        0 <= i < relay.subscribers.len(),
        relay.subscribers[i].subscription.offered(envelope).mailbox.takes(),
    ensures
        ({
            let notice = relay.drop_notice(envelope);
            let offered = relay.subscribers[i].subscription.offered(envelope);
            let after = relay.delivered(envelope).subscribers[i].subscription;
            &&& after.mailbox.queue == offered.mailbox.queue.push(notice)
            &&& notice.type_id == TypeKey::Dropped
            &&& notice.tracker is None
            &&& *notice.value matches Payload::Dropped(dropped)
            &&& dropped == Dropped {
                msg_id: envelope.msg_id,
                origin_stream_id: relay.id,
                event_type_name: envelope.value.spec_label(),
            }
        }),
{
}

/// Nothing is reported when nothing was dropped.
pub proof fn law_no_false_alarm<V, E>(relay: RelayModel<V, E>, envelope: Envelope<V, E>)
    requires
        !crate::inner::some_overflows(relay.subscribers),
    ensures
        relay.delivered(envelope).subscribers == crate::inner::offered_to_all(
            relay.subscribers,
            envelope,
        ),
{
}

/// A full subscription misses the message, and keeps what it has.
pub proof fn law_full_subscription_is_unchanged<V, E>(
    relay: RelayModel<V, E>,
    envelope: Envelope<V, E>,
    i: int,
)
    requires
        0 <= i < relay.subscribers.len(),
        relay.subscribers[i].overflows(),
    ensures
        relay.delivered(envelope).subscribers[i] == relay.subscribers[i],
{
}

/// Senders never wait for plain subscriptions: how far a sending comes does not
/// depend on how full one is, or what it wants.
pub proof fn law_slow_subscription_does_not_block<V, E>(
    pending: PendingSend<V, E>,
    relay: RelayModel<V, E>,
    i: int,
    other: SubscriberModel<V, E>,
    trackers: TableModel<E>,
)
    requires
        0 <= i < relay.subscribers.len(),
        !relay.subscribers[i].subscription.tracking,
        !other.subscription.tracking,
    ensures
        ({
            let changed = RelayModel { subscribers: relay.subscribers.update(i, other), ..relay };
            &&& pending.next_step(relay, trackers).0 == pending.next_step(changed, trackers).0
            &&& pending.next_step(relay, trackers).2 == pending.next_step(changed, trackers).2
        }),
{
    if let PendingSend::AwaitReady { envelope, track } = pending {
        let (envelope, created) = if track {
            relay.with_tracker(envelope, trackers)
        } else {
            (envelope, trackers)
        };
        let changed = relay.subscribers.update(i, other);
        lemma_same_passed_over(relay.subscribers, i, other, envelope.tracker, created);
        crate::inner::lemma_nobody_passed_over(relay.subscribers, envelope.tracker, created);
        crate::inner::lemma_nobody_passed_over(changed, envelope.tracker, created);
    }
}

/// A plain subscription has no part in who is passed over.
proof fn lemma_same_passed_over<V, E>(
    subscribers: Seq<SubscriberModel<V, E>>,
    i: int,
    other: SubscriberModel<V, E>,
    tracker: Option<u64>,
    trackers: TableModel<E>,
)
    requires
        0 <= i < subscribers.len(),
        !subscribers[i].misses(),
        !other.misses(),
    ensures
        crate::inner::passed_over(subscribers.update(i, other), tracker, trackers)
            == crate::inner::passed_over(subscribers, tracker, trackers),
    decreases subscribers.len(),
{
    let changed = subscribers.update(i, other);
    if i == subscribers.len() - 1 {
        assert(changed.drop_last() =~= subscribers.drop_last());
    } else {
        assert(changed.drop_last() =~= subscribers.drop_last().update(i, other));
        lemma_same_passed_over(subscribers.drop_last(), i, other, tracker, trackers);
    }
}

/// Nothing is delivered on a closed relay.
pub proof fn law_closed_relay_delivers_nothing<V, E>(
    relay: RelayModel<V, E>,
    envelope: Envelope<V, E>,
)
    requires
        relay.wf(),
        relay.closed,
    ensures
        relay.delivered(envelope) == relay,
{
    assert forall|i: int| 0 <= i < relay.subscribers.len() implies !(
    #[trigger] relay.subscribers[i]).overflows() && relay.subscribers[i].offered(envelope)
        == relay.subscribers[i] by {}
    assert(relay.delivered(envelope).subscribers =~= relay.subscribers);
}

/// Closing takes nothing away: what was delivered can still be received.
pub proof fn law_closing_keeps_messages<V, E>(relay: RelayModel<V, E>, i: int)
    requires
        0 <= i < relay.subscribers.len(),
    ensures
        relay.shut().subscribers.len() == relay.subscribers.len(),
        relay.shut().subscribers[i].subscription.mailbox.queue
            == relay.subscribers[i].subscription.mailbox.queue,
        relay.shut().subscribers[i].subscription.has_message()
            == relay.subscribers[i].subscription.has_message(),
        relay.subscribers[i].subscription.has_message()
            ==> relay.shut().subscribers[i].subscription.yields()
            == relay.subscribers[i].subscription.yields(),
{
}

/// Subscriptions end when the relay closes: once the messages that were
/// delivered are received, a subscription of a closed relay yields `Closed`,
/// and it does so for good.
pub proof fn law_subscriptions_end<V, E>(
    subscription: SubscriptionModel<V, E>,
    envelope: Envelope<V, E>,
)
    requires
        !subscription.mailbox.connected,
    ensures
        subscription.yields() is Closed <==> !subscription.has_message(),
        subscription.yields() !is Empty,
        !subscription.received().mailbox.connected,
        subscription.yields() is Closed ==> subscription.received().yields() is Closed,
        subscription.yields() is Closed ==> subscription.offered(envelope).yields() is Closed,
{
}

/// Subscribing to a closed relay gives a subscription that yields nothing.
pub proof fn law_subscription_to_closed_relay_ends<V, E>(
    relay: RelayModel<V, E>,
    wanted: Wanted,
    tracking: bool,
)
    requires
        relay.closed,
    ensures
        relay.subscribed(wanted, tracking).subscribers.last().subscription.yields() is Closed,
{
}

/// A delivery reaches each subscription, and adds nothing but the message and,
/// where one was dropped, the notice.
pub proof fn law_delivery_reaches_subscription<V, E>(
    relay: RelayModel<V, E>,
    envelope: Envelope<V, E>,
    id: u64,
)
    requires
        relay.wf(),
        relay.has(id),
    ensures
        relay.delivered(envelope).has(id),
        relay.delivered(envelope).subscription(id) == if crate::inner::some_overflows(
            relay.subscribers,
        ) {
            relay.subscription(id).offered(envelope).offered(relay.drop_notice(envelope))
        } else {
            relay.subscription(id).offered(envelope)
        },
{
    let after = relay.delivered(envelope);
    let i = relay.position(id);
    assert(crate::inner::stands_at(relay.subscribers, id, i));
    assert(crate::inner::stands_at(after.subscribers, id, i));
    assert(crate::inner::stands_at(after.subscribers, id, after.position(id)));
    assert(crate::inner::stands_at(relay.subscribers, id, after.position(id)));
    crate::inner::lemma_position(relay, id, after.position(id));
}

/// A new subscription has no messages, and leaves the others as they are.
pub proof fn law_new_subscription_is_empty<V, E>(
    relay: RelayModel<V, E>,
    wanted: Wanted,
    tracking: bool,
    other: u64,
)
    requires
        relay.wf(),
        relay.next_subscriber < u64::MAX,
    ensures
        ({
            let after = relay.subscribed(wanted, tracking);
            &&& !relay.has(relay.next_subscriber)
            &&& after.has(relay.next_subscriber)
            &&& after.subscription(relay.next_subscriber) == SubscriptionModel::<V, E> {
                mailbox: MailboxModel {
                    queue: Seq::empty(),
                    capacity: relay.channel_size as nat,
                    connected: !relay.closed,
                },
                wanted,
                tracking,
                current_tracker: None,
                current_msg_id: None,
            }
            &&& relay.has(other) ==> after.has(other) && after.subscription(other)
                == relay.subscription(other)
        }),
{
    let after = relay.subscribed(wanted, tracking);
    let new = relay.next_subscriber;
    if relay.has(new) {
        assert(crate::inner::stands_at(relay.subscribers, new, relay.position(new)));
    }
    assert(crate::inner::stands_at(after.subscribers, new, relay.subscribers.len() as int));
    crate::inner::lemma_position(after, new, relay.subscribers.len() as int);
    if relay.has(other) {
        let i = relay.position(other);
        assert(crate::inner::stands_at(relay.subscribers, other, i));
        assert(crate::inner::stands_at(after.subscribers, other, i));
        crate::inner::lemma_position(after, other, i);
    }
}

/// What happens to one subscription does not touch another.
pub proof fn law_subscriptions_are_independent<V, E>(
    relay: RelayModel<V, E>,
    id: u64,
    other: u64,
    changed: SubscriptionModel<V, E>,
)
    requires
        relay.wf(),
        relay.has(id),
        relay.has(other),
        id != other,
    ensures
        relay.with_subscription(id, changed).has(id),
        relay.with_subscription(id, changed).subscription(id) == changed,
        relay.with_subscription(id, changed).has(other),
        relay.with_subscription(id, changed).subscription(other) == relay.subscription(other),
        !relay.unsubscribed(id).has(id),
        relay.unsubscribed(id).has(other),
        relay.unsubscribed(id).subscription(other) == relay.subscription(other),
{
    let i = relay.position(id);
    let j = relay.position(other);
    assert(crate::inner::stands_at(relay.subscribers, id, i));
    assert(crate::inner::stands_at(relay.subscribers, other, j));
    relay.lemma_replaced(id, changed, changed);

    let with = relay.with_subscription(id, changed);
    assert(crate::inner::stands_at(with.subscribers, other, j));
    let p = with.position(other);
    assert(crate::inner::stands_at(with.subscribers, other, p));
    assert(crate::inner::stands_at(relay.subscribers, other, p));
    crate::inner::lemma_position(relay, other, p);

    let without = relay.unsubscribed(id);
    if without.has(id) {
        let p = without.position(id);
        assert(crate::inner::stands_at(without.subscribers, id, p));
        let q = if p < i {
            p
        } else {
            p + 1
        };
        assert(crate::inner::stands_at(relay.subscribers, id, q));
        crate::inner::lemma_position(relay, id, q);
    }
    let at = if j < i {
        j
    } else {
        j - 1
    };
    assert(crate::inner::stands_at(without.subscribers, other, at));
    let p = without.position(other);
    assert(crate::inner::stands_at(without.subscribers, other, p));
    let q = if p < i {
        p
    } else {
        p + 1
    };
    assert(crate::inner::stands_at(relay.subscribers, other, q));
    crate::inner::lemma_position(relay, other, q);
}

/// The messages that a subscription will yield, in that order.
pub open spec fn wanted_messages<V, E>(subscription: SubscriptionModel<V, E>) -> Seq<
    Envelope<V, E>,
> {
    subscription.mailbox.queue.filter(
        |e: Envelope<V, E>| crate::subscription::wants(subscription.wanted, e),
    )
}

/// First in, first out: a message that is taken comes behind those that were
/// taken before, if it is wanted at all.
pub proof fn law_messages_line_up<V, E>(
    subscription: SubscriptionModel<V, E>,
    envelope: Envelope<V, E>,
)
    requires
        subscription.mailbox.takes(),
    ensures
        wanted_messages(subscription.offered(envelope)) == if crate::subscription::wants(
            subscription.wanted,
            envelope,
        ) {
            wanted_messages(subscription).push(envelope)
        } else {
            wanted_messages(subscription)
        },
{
    let queue = subscription.mailbox.queue;
    assert(queue.push(envelope).drop_last() =~= queue);
    reveal(Seq::filter);
}

/// Receiving yields the first of the wanted messages, and takes it away. It
/// yields none exactly when there is none.
pub proof fn law_first_message_is_received<V, E>(subscription: SubscriptionModel<V, E>)
    ensures
        subscription.has_message() <==> wanted_messages(subscription).len() > 0,
        subscription.has_message() ==> subscription.next_message() == wanted_messages(
            subscription,
        )[0],
        subscription.has_message() ==> subscription.yields() == Received::<V, E>::Message(
            wanted_messages(subscription)[0].value,
        ),
        subscription.has_message() ==> subscription.received().current_msg_id == Some(
            wanted_messages(subscription)[0].msg_id,
        ) && subscription.received().current_tracker == wanted_messages(subscription)[0].tracker,
        wanted_messages(subscription.received()) == if subscription.has_message() {
            wanted_messages(subscription).drop_first()
        } else {
            Seq::empty()
        },
{
    let queue = subscription.mailbox.queue;
    let wanted = subscription.wanted;
    let f = |e: Envelope<V, E>| crate::subscription::wants(wanted, e);
    let n = crate::subscription::unwanted_head(wanted, queue);
    crate::subscription::lemma_head(wanted, queue);
    lemma_filter_head(wanted, queue);
    assert(Seq::<Envelope<V, E>>::empty().filter(f) =~= Seq::empty()) by {
        reveal(Seq::filter);
    }
}

/// What is received is what was wanted, and what is skipped is what was not.
pub proof fn law_types_are_filtered<V, E>(subscription: SubscriptionModel<V, E>, i: int)
    ensures
        subscription.has_message() ==> crate::subscription::wants(
            subscription.wanted,
            subscription.next_message(),
        ),
        0 <= i < subscription.skipped().len() ==> !crate::subscription::wants(
            subscription.wanted,
            subscription.skipped()[i],
        ),
{
    crate::subscription::lemma_head(subscription.wanted, subscription.mailbox.queue);
}

/// A message that was sent is received: on an open relay, a subscription that
/// has room, wants the message and waits for one gets it next.
pub proof fn law_sent_message_is_received<V, E>(
    relay: RelayModel<V, E>,
    envelope: Envelope<V, E>,
    i: int,
)
    requires
        0 <= i < relay.subscribers.len(),
        relay.subscribers[i].subscription.mailbox.takes(),
        !relay.subscribers[i].subscription.has_message(),
        crate::subscription::wants(relay.subscribers[i].subscription.wanted, envelope),
    ensures
        relay.delivered(envelope).subscribers[i].subscription.yields() == Received::<V, E>::Message(
            envelope.value,
        ),
        relay.delivered(envelope).subscribers[i].subscription.received().current_tracker
            == envelope.tracker,
        relay.delivered(envelope).subscribers[i].subscription.received().current_msg_id == Some(
            envelope.msg_id,
        ),
{
    let subscription = relay.subscribers[i].subscription;
    let offered = subscription.offered(envelope);
    let after = relay.delivered(envelope).subscribers[i].subscription;
    law_first_message_is_received(subscription);
    law_messages_line_up(subscription, envelope);
    law_first_message_is_received(offered);
    if after != offered {
        law_messages_line_up(offered, relay.drop_notice(envelope));
        law_first_message_is_received(after);
    }
}

/// Order is kept: of two messages that a subscription takes, the one that was
/// sent first is received first.
pub proof fn law_order_is_kept<V, E>(
    subscription: SubscriptionModel<V, E>,
    first: Envelope<V, E>,
    second: Envelope<V, E>,
)
    requires
        subscription.mailbox.takes(),
        subscription.offered(first).mailbox.takes(),
        !subscription.has_message(),
        crate::subscription::wants(subscription.wanted, first),
        crate::subscription::wants(subscription.wanted, second),
    ensures
        ({
            let both = subscription.offered(first).offered(second);
            &&& both.yields() == Received::<V, E>::Message(first.value)
            &&& both.received().yields() == Received::<V, E>::Message(second.value)
        }),
{
    let both = subscription.offered(first).offered(second);
    law_first_message_is_received(subscription);
    law_messages_line_up(subscription, first);
    law_messages_line_up(subscription.offered(first), second);
    law_first_message_is_received(both);
    law_first_message_is_received(both.received());
}

/// Unwanted messages at the head do not count among the wanted ones.
proof fn lemma_filter_head<V, E>(wanted: Wanted, queue: Seq<Envelope<V, E>>)
    ensures
        ({
            let f = |e: Envelope<V, E>| crate::subscription::wants(wanted, e);
            let n = crate::subscription::unwanted_head(wanted, queue) as int;
            &&& n == queue.len() ==> queue.filter(f) == Seq::<Envelope<V, E>>::empty()
            &&& n < queue.len() ==> queue.filter(f) == seq![queue[n]] + queue.skip(n + 1).filter(f)
        }),
    decreases queue.len(),
{
    let f = |e: Envelope<V, E>| crate::subscription::wants(wanted, e);
    if queue.len() == 0 {
        reveal(Seq::filter);
    } else {
        let head = seq![queue[0]];
        let rest = queue.drop_first();
        assert(queue =~= head + rest);
        Seq::filter_distributes_over_add(head, rest, f);
        assert(head.filter(f) =~= if f(queue[0]) {
            head
        } else {
            Seq::empty()
        }) by {
            reveal_with_fuel(Seq::filter, 2);
            assert(head.drop_last() =~= Seq::empty());
        }
        if crate::subscription::wants(wanted, queue[0]) {
            assert(queue.skip(1) =~= rest);
        } else {
            lemma_filter_head(wanted, rest);
            crate::subscription::lemma_head(wanted, rest);
            let n = crate::subscription::unwanted_head(wanted, queue) as int;
            if n < queue.len() {
                assert(rest.skip(n) =~= queue.skip(n + 1));
                assert(Seq::<Envelope<V, E>>::empty() + rest.filter(f) =~= rest.filter(f));
            } else {
                assert(Seq::<Envelope<V, E>>::empty() + rest.filter(f) =~= rest.filter(f));
            }
        }
    }
}

} // verus!
