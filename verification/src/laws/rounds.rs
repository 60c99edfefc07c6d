//! One handler on a relay of its own, and messages that are sent one after the
//! other.
use std::sync::Arc;
use vstd::prelude::*;

use crate::envelope::{Envelope, Payload};
use crate::error::RelayError;
use crate::inner::RelayModel;
use crate::stream::{PendingSend, SendError, SendStep};
use crate::subscription::{HandlerOutcome, SubscriptionModel, Wanted};
use crate::tracker::TableModel;
use crate::type_key::TypeKey;

verus! {

/// What the subscription of a handler is once the handler waits again.
pub open spec fn worked<V, E>(subscription: SubscriptionModel<V, E>) -> SubscriptionModel<V, E> {
    crate::laws::runs::turns(
        subscription,
        crate::laws::delivery::wanted_messages(subscription).len(),
    ).received()
}

/// The trackers then, given what the handler reports of each message.
pub open spec fn trackers_worked<V, E>(
    subscription: SubscriptionModel<V, E>,
    trackers: TableModel<E>,
    reports: spec_fn(Envelope<V, E>) -> Option<RelayError<E>>,
) -> TableModel<E> {
    let n = crate::laws::delivery::wanted_messages(subscription).len();
    crate::laws::runs::turns(subscription, n).trackers_after(
        crate::laws::runs::trackers_turns(subscription, trackers, reports, n),
    )
}

/// The relay and the trackers, after the errors of a handler were sent through
/// the relay.
pub open spec fn sent_on<V, E>(
    relay: RelayModel<V, E>,
    trackers: TableModel<E>,
    ran: Seq<Envelope<V, E>>,
    reports: spec_fn(Envelope<V, E>) -> Option<RelayError<E>>,
) -> (RelayModel<V, E>, TableModel<E>)
    decreases ran.len(),
{
    if ran.len() == 0 {
        (relay, trackers)
    } else {
        let (relay, trackers) = sent_on(relay, trackers, ran.drop_last(), reports);
        match reports(ran.last()) {
            None => (relay, trackers),
            Some(error) => {
                let payload = Arc::new(Payload::Error(error));
                let (pending, relay) = crate::stream::begun(
                    relay,
                    payload,
                    TypeKey::RelayError,
                    relay.id,
                );
                match pending {
                    Ok(pending) => {
                        let (_, relay, trackers) = pending.next_step(relay, trackers);
                        (relay, trackers)
                    },
                    Err(_) => (relay, trackers),
                }
            },
        }
    }
}

/// What came of a message that was sent and awaited.
pub struct Round<V, E> {
    /// How the sending stands when the handler waits again.
    pub end: SendStep<V, E>,
    /// The messages that the handler has processed for it, in that order.
    pub ran: Seq<Envelope<V, E>>,
    /// The relay after that, and after errors were sent through it.
    pub relay: RelayModel<V, E>,
    /// The trackers then.
    pub trackers: TableModel<E>,
}

/// Send a message, let the handler work until it waits again, look how the
/// sending stands, and send the errors of the handler through the relay.
pub open spec fn round<V, E>(
    relay: RelayModel<V, E>,
    trackers: TableModel<E>,
    id: u64,
    message: (Arc<Payload<V, E>>, TypeKey),
    reports: spec_fn(Envelope<V, E>) -> Option<RelayError<E>>,
) -> Round<V, E> {
    let (pending, relay1) = crate::stream::begun(relay, message.0, message.1, relay.id);
    let (_, relay2, trackers2) = pending->Ok_0.next_step(relay1, trackers);
    let subscription = relay2.subscription(id);
    let ran = crate::laws::delivery::wanted_messages(subscription);
    let waiting = PendingSend::<V, E>::AwaitCompletion { tracker: trackers.next };
    let (end, relay3, trackers3) = waiting.next_step(
        relay2.with_subscription(id, worked(subscription)),
        trackers_worked(subscription, trackers2, reports),
    );
    let (relay4, trackers4) = sent_on(relay3, trackers3, ran, reports);
    Round { end, ran, relay: relay4, trackers: trackers4 }
}

/// The relay and the trackers after the first `n` messages.
pub open spec fn after_rounds<V, E>(
    relay: RelayModel<V, E>,
    trackers: TableModel<E>,
    id: u64,
    messages: Seq<(Arc<Payload<V, E>>, TypeKey)>,
    reports: spec_fn(Envelope<V, E>) -> Option<RelayError<E>>,
    n: nat,
) -> (RelayModel<V, E>, TableModel<E>)
    decreases n,
{
    if n == 0 {
        (relay, trackers)
    } else {
        let (relay, trackers) = after_rounds(
            relay,
            trackers,
            id,
            messages,
            reports,
            (n - 1) as nat,
        );
        let done = round(relay, trackers, id, messages[n - 1], reports);
        (done.relay, done.trackers)
    }
}

/// What came of the message at position `i`.
pub open spec fn round_at<V, E>(
    relay: RelayModel<V, E>,
    trackers: TableModel<E>,
    id: u64,
    messages: Seq<(Arc<Payload<V, E>>, TypeKey)>,
    reports: spec_fn(Envelope<V, E>) -> Option<RelayError<E>>,
    i: nat,
) -> Round<V, E> {
    let (relay, trackers) = after_rounds(relay, trackers, id, messages, reports, i);
    round(relay, trackers, id, messages[i as int], reports)
}

/// A relay that was just made, with one handler for messages of one type.
pub open spec fn with_one_handler<V, E>(id: u64, size: usize, key: TypeKey) -> RelayModel<V, E> {
    RelayModel::<V, E>::fresh(id, size).subscribed_tracking(Wanted::Only(key))
}

/// The only subscription of an open relay is that of a handler, which waits, has
/// room for two messages, and at most one message that it does not want.
spec fn idle<V, E>(relay: RelayModel<V, E>, trackers: TableModel<E>, key: TypeKey) -> bool {
    let subscription = relay.subscribers[0].subscription;
    &&& relay.wf()
    &&& !relay.closed
    &&& relay.is_ready()
    &&& relay.handler_count == 1
    &&& relay.subscribers.len() == 1
    &&& relay.subscribers[0].id == 0
    &&& subscription.tracking
    &&& subscription.wanted == Wanted::Only(key)
    &&& subscription.current_tracker is None
    &&& subscription.mailbox.capacity >= 2
    &&& subscription.mailbox.queue.len() <= 1
    &&& subscription.mailbox.queue.len() == 1 ==> {
        &&& subscription.mailbox.queue[0].value.type_key() != key
        &&& subscription.mailbox.queue[0].tracker matches Some(k) ==> k < trackers.next
    }
}

/// The message as the handler gets it.
spec fn sent<V, E>(
    relay: RelayModel<V, E>,
    trackers: TableModel<E>,
    message: (Arc<Payload<V, E>>, TypeKey),
) -> Envelope<V, E> {
    Envelope {
        value: message.0,
        type_id: message.1,
        msg_id: relay.msg_id_counter,
        tracker: Some(trackers.next),
        origin: relay.id,
    }
}

/// The one subscription is found by its ID.
proof fn lemma_only<V, E>(relay: RelayModel<V, E>)
    requires
        relay.wf(),
        relay.subscribers.len() == 1,
        relay.subscribers[0].id == 0,
    ensures
        relay.has(0),
        relay.position(0) == 0,
        relay.subscription(0) == relay.subscribers[0].subscription,
{
    assert(crate::inner::stands_at(relay.subscribers, 0, 0));
    crate::inner::lemma_position(relay, 0, 0);
}

/// A delivery to an idle handler puts the message behind what it has.
proof fn lemma_delivery<V, E>(
    relay: RelayModel<V, E>,
    trackers: TableModel<E>,
    key: TypeKey,
    envelope: Envelope<V, E>,
)
    requires
        idle(relay, trackers, key),
    ensures
        ({
            let after = relay.delivered(envelope);
            &&& after.wf()
            &&& after == (RelayModel { subscribers: after.subscribers, ..relay })
            &&& after.subscribers.len() == 1
            &&& after.subscribers[0].id == 0
            &&& after.subscribers[0].subscription == relay.subscribers[0].subscription.offered(
                envelope,
            )
            &&& after.subscribers[0].subscription.mailbox.queue
                == relay.subscribers[0].subscription.mailbox.queue.push(envelope)
            &&& relay.trackers_delivered(envelope, trackers) == trackers
        }),
{
    assert(relay.subscribers[0].subscription.mailbox.connected);
    assert(!relay.subscribers[0].overflows());
    assert(!relay.subscribers[0].misses());
    assert(!crate::inner::some_overflows(relay.subscribers));
    assert(!crate::inner::some_misses(relay.subscribers));
}

/// What an idle handler makes of one message more.
proof fn lemma_work<V, E>(
    before: SubscriptionModel<V, E>,
    trackers: TableModel<E>,
    reports: spec_fn(Envelope<V, E>) -> Option<RelayError<E>>,
    envelope: Envelope<V, E>,
    key: u64,
)
    requires
        before.tracking,
        before.mailbox.takes(),
        before.mailbox.queue.len() <= 1,
        before.mailbox.queue.len() == 1 ==> {
            &&& !crate::subscription::wants(before.wanted, before.mailbox.queue[0])
            &&& before.mailbox.queue[0].tracker != Some(key)
        },
        envelope.tracker == Some(key),
        trackers.live.contains_key(key),
        trackers.live[key].expected == 1,
        trackers.live[key].completed == 0,
        trackers.live[key].error is None,
    ensures
        ({
            let subscription = before.offered(envelope);
            let ran = crate::laws::delivery::wanted_messages(subscription);
            let after = trackers_worked(subscription, trackers, reports);
            let wanted = crate::subscription::wants(before.wanted, envelope);
            &&& ran == if wanted {
                seq![envelope]
            } else {
                Seq::empty()
            }
            &&& worked(subscription).mailbox.queue.len() == 0
            &&& worked(subscription).mailbox.capacity == before.mailbox.capacity
            &&& worked(subscription).mailbox.connected == before.mailbox.connected
            &&& worked(subscription).wanted == before.wanted
            &&& worked(subscription).tracking
            &&& worked(subscription).current_tracker is None
            &&& after.next == trackers.next
            &&& after.is_complete(key)
            &&& after.error(key) == if wanted {
                reports(envelope)
            } else {
                None
            }
        }),
{
    let subscription = before.offered(envelope);
    let queue = before.mailbox.queue;
    let all = queue.push(envelope);
    let wanted = crate::subscription::wants(before.wanted, envelope);
    let f = |e: Envelope<V, E>| crate::subscription::wants(before.wanted, e);
    assert(queue.filter(f) =~= Seq::empty()) by {
        reveal_with_fuel(Seq::filter, 2);
        if queue.len() == 1 {
            assert(queue.drop_last() =~= Seq::empty());
            assert(queue.last() == queue[0]);
        }
    }
    crate::laws::delivery::law_messages_line_up(before, envelope);
    let ran = crate::laws::delivery::wanted_messages(subscription);
    assert(ran =~= if wanted {
        seq![envelope]
    } else {
        Seq::empty()
    });
    assert(crate::subscription::count_in(queue, key) == 0) by {
        reveal_with_fuel(crate::subscription::count_in, 2);
    }
    crate::subscription::lemma_count_push(queue, envelope, key);
    crate::laws::runs::law_each_message_has_its_turn(subscription, 0);
    crate::laws::delivery::law_first_message_is_received(subscription);
    crate::subscription::lemma_head(subscription.wanted, all);
    crate::laws::runs::lemma_next(subscription, trackers);
    reveal_with_fuel(crate::laws::runs::turns, 2);
    reveal_with_fuel(crate::laws::runs::trackers_turns, 2);
    if wanted {
        let n = subscription.skips() as int;
        // Only the message itself is wanted, and it stands last.
        assert(n == queue.len()) by {
            crate::subscription::lemma_unwanted_head(subscription.wanted, all, queue.len());
        }
        assert(subscription.skipped() =~= queue);
        crate::laws::accounting::lemma_discharged(trackers, queue, key);
        let turned = subscription.received().cleared();
        assert(all.skip(n + 1) =~= Seq::empty());
        crate::laws::runs::law_each_message_has_its_turn(subscription, 1);
        assert(turned.mailbox.queue.len() == 0);
        assert(turned.skipped() =~= Seq::empty());
        let settled = subscription.received().trackers_settled(
            subscription.trackers_after(trackers),
            reports(envelope),
        );
        crate::laws::runs::lemma_next(turned, settled);
        assert(turned.trackers_after(settled) == settled);
    } else {
        assert(!subscription.has_message());
        assert(subscription.skipped() =~= all);
        crate::laws::accounting::lemma_discharged(trackers, all, key);
    }
}

/// One round with an idle handler: the sending ends with the outcome of the
/// handler, which has processed the message if it wants it, and the handler is
/// idle again.
proof fn lemma_round<V, E>(
    relay: RelayModel<V, E>,
    trackers: TableModel<E>,
    key: TypeKey,
    message: (Arc<Payload<V, E>>, TypeKey),
    reports: spec_fn(Envelope<V, E>) -> Option<RelayError<E>>,
)
    requires
        idle(relay, trackers, key),
        key != TypeKey::RelayError,
        trackers.next + 2 <= u64::MAX,
    ensures
        ({
            let done = round(relay, trackers, 0, message, reports);
            let envelope = sent(relay, trackers, message);
            let wanted = message.0.type_key() == key;
            let report = if wanted {
                reports(envelope)
            } else {
                None
            };
            &&& done.ran == if wanted {
                seq![envelope]
            } else {
                Seq::empty()
            }
            &&& done.end == SendStep::<V, E>::Finished(
                match report {
                    None => Ok(()),
                    Some(error) => Err(SendError::Downstream(error)),
                },
            )
            &&& idle(done.relay, done.trackers, key)
            &&& done.trackers.next <= trackers.next + 2
            &&& done.relay.msg_id_counter == if report is Some {
                relay.msg_id_counter.wrapping_add(1).wrapping_add(1)
            } else {
                relay.msg_id_counter.wrapping_add(1)
            }
        }),
{
    let envelope = sent(relay, trackers, message);
    let done = round(relay, trackers, 0, message, reports);
    let before = relay.subscribers[0].subscription;
    let (pending, relay1) = crate::stream::begun(relay, message.0, message.1, relay.id);
    let created = trackers.created(1);
    lemma_delivery(relay1, created, key, envelope);
    let relay2 = relay1.delivered(envelope);
    assert(pending->Ok_0.next_step(relay1, trackers).1 == relay2);
    assert(pending->Ok_0.next_step(relay1, trackers).2 == created);
    lemma_only(relay2);
    let subscription = relay2.subscription(0);
    lemma_work(before, created, reports, envelope, trackers.next);
    let relay3 = relay2.with_subscription(0, worked(subscription));
    assert(relay3.subscribers.len() == 1);
    assert(relay3.subscribers[0].subscription == worked(subscription));
    let after = trackers_worked(subscription, created, reports);
    let trackers3 = after.error_taken(trackers.next);
    assert(idle(relay3, trackers3, key));
    reveal_with_fuel(sent_on, 2);
    if message.0.type_key() == key {
        assert(done.ran.drop_last() =~= Seq::empty());
        assert(done.ran.last() == envelope);
        if let Some(error) = reports(envelope) {
            let payload = Arc::new(Payload::Error(error));
            let (pending, relay4) = crate::stream::begun(
                relay3,
                payload,
                TypeKey::RelayError,
                relay3.id,
            );
            let notice = sent(relay3, trackers3, (payload, TypeKey::RelayError));
            let created = trackers3.created(1);
            assert(idle(relay4, created, key));
            lemma_delivery(relay4, created, key, notice);
            assert(pending->Ok_0.next_step(relay4, trackers3).1 == relay4.delivered(notice));
            assert(pending->Ok_0.next_step(relay4, trackers3).2 == created);
            assert(done.relay == relay4.delivered(notice));
        }
    }
}

/// After any number of rounds the handler is idle.
proof fn lemma_rounds<V, E>(
    id: u64,
    size: usize,
    key: TypeKey,
    trackers: TableModel<E>,
    messages: Seq<(Arc<Payload<V, E>>, TypeKey)>,
    reports: spec_fn(Envelope<V, E>) -> Option<RelayError<E>>,
    n: nat,
)
    requires
        size >= 2,
        key != TypeKey::RelayError,
        n <= messages.len(),
        trackers.next + 2 * messages.len() <= u64::MAX,
    ensures
        ({
            let (relay, then) = after_rounds(
                with_one_handler::<V, E>(id, size, key),
                trackers,
                0,
                messages,
                reports,
                n,
            );
            &&& idle(relay, then, key)
            &&& then.next <= trackers.next + 2 * n
        }),
    decreases n,
{
    let first = with_one_handler::<V, E>(id, size, key);
    if n > 0 {
        let i = (n - 1) as nat;
        lemma_rounds(id, size, key, trackers, messages, reports, i);
        let (relay, then) = after_rounds(first, trackers, 0, messages, reports, i);
        lemma_round(relay, then, key, messages[n - 1], reports);
    } else {
        assert(first.subscribers.len() == 1);
    }
}

/// One handler on a new relay, and messages that are sent one after the other,
/// each awaited: every sending ends. The handler runs once on each message that
/// it wants, in the order of sending, and on no other. A sending succeeds exactly
/// when the handler did not want the message or ended without an error; otherwise
/// its sender gets what the handler reports.
///
/// The mailbox has room for a message behind an error that was sent on, and the
/// handler is not one for such errors.
pub proof fn law_each_sending_gets_its_outcome<V, E>(
    id: u64,
    size: usize,
    key: TypeKey,
    trackers: TableModel<E>,
    messages: Seq<(Arc<Payload<V, E>>, TypeKey)>,
    outcomes: spec_fn(Arc<Payload<V, E>>) -> HandlerOutcome<E>,
    source: &'static str,
    reports: spec_fn(Envelope<V, E>) -> Option<RelayError<E>>,
    i: nat,
)
    requires
        size >= 2,
        key != TypeKey::RelayError,
        i < messages.len(),
        trackers.next + 2 * messages.len() <= u64::MAX,
        forall|e: Envelope<V, E>|
            outcomes(e.value).reported_as(e.msg_id, source, #[trigger] reports(e)),
    ensures
        ({
            let relay = with_one_handler::<V, E>(id, size, key);
            let done = round_at(relay, trackers, 0, messages, reports, i);
            let value = messages[i as int].0;
            let wanted = value.type_key() == key;
            &&& done.ran.len() == if wanted {
                1nat
            } else {
                0nat
            }
            &&& wanted ==> done.ran[0].value == value
            &&& done.end == SendStep::<V, E>::Finished(
                if wanted && !(outcomes(value) is Completed) {
                    Err(SendError::Downstream(reports(done.ran[0])->0))
                } else {
                    Ok(())
                },
            )
            &&& wanted && !(outcomes(value) is Completed) ==> {
                &&& reports(done.ran[0]) is Some
                &&& reports(done.ran[0])->0.source == source
            }
        }),
{
    let first = with_one_handler::<V, E>(id, size, key);
    lemma_rounds(id, size, key, trackers, messages, reports, i);
    let (relay, then) = after_rounds(first, trackers, 0, messages, reports, i);
    lemma_round(relay, then, key, messages[i as int], reports);
    let envelope = sent(relay, then, messages[i as int]);
    assert(outcomes(envelope.value).reported_as(envelope.msg_id, source, reports(envelope)));
}

/// The two relays number their messages alike.
proof fn lemma_same_numbers<V, E>(
    ids: (u64, u64),
    sizes: (usize, usize),
    key: TypeKey,
    tables: (TableModel<E>, TableModel<E>),
    messages: Seq<(Arc<Payload<V, E>>, TypeKey)>,
    outcomes: spec_fn(Arc<Payload<V, E>>) -> HandlerOutcome<E>,
    taps: spec_fn(Envelope<V, E>) -> Option<RelayError<E>>,
    sinks: spec_fn(Envelope<V, E>) -> Option<RelayError<E>>,
    n: nat,
)
    requires
        sizes.0 >= 2,
        sizes.1 >= 2,
        key != TypeKey::RelayError,
        n <= messages.len(),
        tables.0.next + 2 * messages.len() <= u64::MAX,
        tables.1.next + 2 * messages.len() <= u64::MAX,
        forall|e: Envelope<V, E>|
            outcomes(e.value).reported_as(e.msg_id, "tap", #[trigger] taps(e)),
        forall|e: Envelope<V, E>|
            outcomes(e.value).reported_as(e.msg_id, "sink", #[trigger] sinks(e)),
    ensures
        after_rounds(
            with_one_handler::<V, E>(ids.0, sizes.0, key),
            tables.0,
            0,
            messages,
            taps,
            n,
        ).0.msg_id_counter == after_rounds(
            with_one_handler::<V, E>(ids.1, sizes.1, key),
            tables.1,
            0,
            messages,
            sinks,
            n,
        ).0.msg_id_counter,
    decreases n,
{
    if n > 0 {
        let i = (n - 1) as nat;
        let a = with_one_handler::<V, E>(ids.0, sizes.0, key);
        let b = with_one_handler::<V, E>(ids.1, sizes.1, key);
        lemma_same_numbers(ids, sizes, key, tables, messages, outcomes, taps, sinks, i);
        lemma_rounds(ids.0, sizes.0, key, tables.0, messages, taps, i);
        lemma_rounds(ids.1, sizes.1, key, tables.1, messages, sinks, i);
        let (a1, t1) = after_rounds(a, tables.0, 0, messages, taps, i);
        let (b1, u1) = after_rounds(b, tables.1, 0, messages, sinks, i);
        lemma_round(a1, t1, key, messages[n - 1], taps);
        lemma_round(b1, u1, key, messages[n - 1], sinks);
        let e = sent(a1, t1, messages[n - 1]);
        let f = sent(b1, u1, messages[n - 1]);
        assert(outcomes(e.value).reported_as(e.msg_id, "tap", taps(e)));
        assert(outcomes(f.value).reported_as(f.msg_id, "sink", sinks(f)));
    }
}

/// A tap is like a sink: of two new relays, one with a tap and one with a sink
/// for the same type and the same handler, both are sent the same messages in the
/// same order, each awaited. Then the handler runs on the same values in the same
/// order on both. Each message's two sendings both succeed, or both fail with
/// errors that say the same of the same message. Every error names the kind of
/// its handler.
///
/// Errors that are sent on leave room in the mailboxes, and the handlers are not
/// for such errors.
pub proof fn law_tap_relay_is_like_sink_relay<V, E>(
    ids: (u64, u64),
    sizes: (usize, usize),
    key: TypeKey,
    tables: (TableModel<E>, TableModel<E>),
    messages: Seq<(Arc<Payload<V, E>>, TypeKey)>,
    outcomes: spec_fn(Arc<Payload<V, E>>) -> HandlerOutcome<E>,
    taps: spec_fn(Envelope<V, E>) -> Option<RelayError<E>>,
    sinks: spec_fn(Envelope<V, E>) -> Option<RelayError<E>>,
    i: nat,
)
    requires
        sizes.0 >= 2,
        sizes.1 >= 2,
        key != TypeKey::RelayError,
        i < messages.len(),
        tables.0.next + 2 * messages.len() <= u64::MAX,
        tables.1.next + 2 * messages.len() <= u64::MAX,
        forall|e: Envelope<V, E>|
            outcomes(e.value).reported_as(e.msg_id, "tap", #[trigger] taps(e)),
        forall|e: Envelope<V, E>|
            outcomes(e.value).reported_as(e.msg_id, "sink", #[trigger] sinks(e)),
    ensures
        ({
            let a = with_one_handler::<V, E>(ids.0, sizes.0, key);
            let b = with_one_handler::<V, E>(ids.1, sizes.1, key);
            let tap = round_at(a, tables.0, 0, messages, taps, i);
            let sink = round_at(b, tables.1, 0, messages, sinks, i);
            &&& tap.ran.len() == sink.ran.len()
            &&& forall|j: int|
                0 <= j < tap.ran.len() ==> (#[trigger] tap.ran[j]).value == sink.ran[j].value
            &&& match (tap.end, sink.end) {
                (SendStep::Finished(Ok(())), SendStep::Finished(Ok(()))) => true,
                (
                    SendStep::Finished(Err(SendError::Downstream(e))),
                    SendStep::Finished(Err(SendError::Downstream(f))),
                ) => {
                    &&& crate::laws::runs::alike_errors(e, f)
                    &&& e.source == "tap"
                    &&& f.source == "sink"
                },
                _ => false,
            }
        }),
{
    let a = with_one_handler::<V, E>(ids.0, sizes.0, key);
    let b = with_one_handler::<V, E>(ids.1, sizes.1, key);
    let message = messages[i as int];
    lemma_same_numbers(ids, sizes, key, tables, messages, outcomes, taps, sinks, i);
    lemma_rounds(ids.0, sizes.0, key, tables.0, messages, taps, i);
    lemma_rounds(ids.1, sizes.1, key, tables.1, messages, sinks, i);
    let (a1, t1) = after_rounds(a, tables.0, 0, messages, taps, i);
    let (b1, u1) = after_rounds(b, tables.1, 0, messages, sinks, i);
    lemma_round(a1, t1, key, message, taps);
    lemma_round(b1, u1, key, message, sinks);
    let e = sent(a1, t1, message);
    let f = sent(b1, u1, message);
    assert(outcomes(e.value).reported_as(e.msg_id, "tap", taps(e)));
    assert(outcomes(f.value).reported_as(f.msg_id, "sink", sinks(f)));
    crate::laws::runs::law_source_alone_differs(
        outcomes(message.0),
        e.msg_id,
        "tap",
        "sink",
        taps(e),
        sinks(f),
    );
}

} // verus!
