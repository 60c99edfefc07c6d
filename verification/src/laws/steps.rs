//! What each step of a sending does, by the counts of the handlers and the state
//! of the relay.
use std::sync::Arc;
use vstd::prelude::*;

use crate::envelope::{Envelope, Payload};
use crate::inner::RelayModel;
use crate::stream::{IntoResult, PendingSend, SendError, SendStep, TestRelay};
use crate::subscription::Wanted;
use crate::tracker::TableModel;
use crate::type_key::TypeKey;

verus! {

/// The envelope that a relay delivers in place of a given one, under a tracker.
pub open spec fn outgoing<V, E>(
    relay: RelayModel<V, E>,
    envelope: Envelope<V, E>,
    tracker: Option<u64>,
) -> Envelope<V, E> {
    Envelope {
        value: envelope.value,
        type_id: envelope.type_id,
        msg_id: envelope.msg_id,
        tracker,
        origin: if envelope.origin == 0 {
            relay.id
        } else {
            envelope.origin
        },
    }
}

/// Sending begins on an open relay and on no other. The message has the next ID
/// of the relay, the content, type and origin that were given, and gets its
/// tracker later. Nothing changes but the ID of the next message.
pub proof fn law_sending_begins_on_an_open_relay<V, E>(
    relay: RelayModel<V, E>,
    value: Arc<Payload<V, E>>,
    type_id: TypeKey,
    origin: u64,
)
    ensures
        ({
            let (r, after) = crate::stream::begun(relay, value, type_id, origin);
            &&& r is Err <==> relay.closed
            &&& r matches Err(error) ==> error is Closed && after == relay
            &&& r matches Ok(pending) ==> {
                &&& pending matches PendingSend::AwaitReady { envelope, track }
                &&& track
                &&& envelope.value == value
                &&& envelope.type_id == type_id
                &&& envelope.msg_id == relay.msg_id_counter
                &&& envelope.tracker is None
                &&& envelope.origin == origin
                &&& after == (RelayModel { msg_id_counter: after.msg_id_counter, ..relay })
                &&& relay.msg_id_counter < u64::MAX ==> after.msg_id_counter
                    == relay.msg_id_counter + 1
                &&& relay.msg_id_counter == u64::MAX ==> after.msg_id_counter == 0
            }
        }),
{
}

/// Forwarding begins on an open relay and on no other, with the envelope as it is.
pub proof fn law_forwarding_begins_on_an_open_relay<V, E>(
    relay: RelayModel<V, E>,
    envelope: Envelope<V, E>,
)
    ensures
        ({
            let r = crate::stream::forwarded(relay, envelope);
            &&& r is Err <==> relay.closed
            &&& r matches Err(error) ==> error is Closed
            &&& r matches Ok(pending) ==> pending == (PendingSend::AwaitReady {
                envelope,
                track: false,
            })
        }),
{
}

/// A message is delivered as soon as enough tasks have signaled ready, by that
/// step and no other: every subscription gets what the delivery of the envelope
/// gives it. That holds for every envelope, tracked or not, and for every number
/// of handlers. Until then, and after that, no step changes the relay.
pub proof fn law_one_step_delivers<V, E>(
    pending: PendingSend<V, E>,
    relay: RelayModel<V, E>,
    trackers: TableModel<E>,
)
    ensures
        ({
            let (step, after, _) = pending.next_step(relay, trackers);
            match pending {
                PendingSend::AwaitReady { envelope, track } => {
                    &&& step is WaitReady <==> relay.ready_count < relay.pending_ready
                    &&& step is WaitReady ==> after == relay
                    &&& !(step is WaitReady) ==> after == relay.delivered(
                        outgoing(
                            relay,
                            envelope,
                            if track {
                                Some(trackers.next)
                            } else {
                                envelope.tracker
                            },
                        ),
                    )
                },
                PendingSend::AwaitCompletion { .. } => !(step is WaitReady) && after == relay,
            }
        }),
{
}

/// Where not enough tasks have signaled ready, a step leaves everything as it is
/// and asks to be taken again.
pub proof fn law_unready_relay_holds_back<V, E>(
    envelope: Envelope<V, E>,
    track: bool,
    relay: RelayModel<V, E>,
    trackers: TableModel<E>,
)
    requires
        relay.ready_count < relay.pending_ready,
    ensures
        ({
            let pending = PendingSend::AwaitReady { envelope, track };
            let (step, after, table) = pending.next_step(relay, trackers);
            &&& step == SendStep::WaitReady(pending)
            &&& after == relay
            &&& table == trackers
        }),
{
}

/// An envelope that is forwarded through an open relay that is ready reaches
/// every subscription with room for it, with its origin if it has one and else
/// that of the relay, and otherwise as it is. The number of handlers does not
/// matter.
pub proof fn law_forwarded_envelope_reaches_subscriptions<V, E>(
    relay: RelayModel<V, E>,
    envelope: Envelope<V, E>,
    trackers: TableModel<E>,
    i: int,
)
    requires
        relay.ready_count >= relay.pending_ready,
        !relay.closed,
        0 <= i < relay.subscribers.len(),
        crate::laws::relay::has_room(relay.subscribers[i].subscription),
    ensures
        crate::stream::forwarded(relay, envelope) matches Ok(pending) && {
            let queue = relay.subscribers[i].subscription.mailbox.queue;
            let after = pending.next_step(relay, trackers).1;
            let new = after.subscribers[i].subscription.mailbox.queue;
            let origin = if envelope.origin == 0 {
                relay.id
            } else {
                envelope.origin
            };
            &&& after == relay.delivered(Envelope { origin, ..envelope })
            &&& new.len() > queue.len()
            &&& new[queue.len() as int] == (Envelope { origin, ..envelope })
        },
{
    let e = outgoing(relay, envelope, envelope.tracker);
    crate::laws::relay::law_delivery_by_subscription(relay, e, i);
    let queue = relay.subscribers[i].subscription.mailbox.queue;
    let new = relay.delivered(e).subscribers[i].subscription.mailbox.queue;
    if new.len() == queue.len() + 2 {
        assert(new.drop_last()[queue.len() as int] == e);
    }
}

/// A message that is sent through an open relay that is ready reaches every
/// subscription with room for it, under a tracker of its own that expects as many
/// completions as the relay counts handlers.
pub proof fn law_sent_message_reaches_subscriptions<V, E>(
    relay: RelayModel<V, E>,
    value: Arc<Payload<V, E>>,
    type_id: TypeKey,
    origin: u64,
    trackers: TableModel<E>,
    i: int,
)
    requires
        relay.ready_count >= relay.pending_ready,
        !relay.closed,
        trackers.next < u64::MAX,
        0 <= i < relay.subscribers.len(),
        crate::laws::relay::has_room(relay.subscribers[i].subscription),
    ensures
        crate::stream::begun(relay, value, type_id, origin).0 matches Ok(pending) && {
            let queue = relay.subscribers[i].subscription.mailbox.queue;
            let begun = crate::stream::begun(relay, value, type_id, origin).1;
            let (_, after, table) = pending.next_step(begun, trackers);
            let new = after.subscribers[i].subscription.mailbox.queue;
            &&& new.len() > queue.len()
            &&& new[queue.len() as int].value == value
            &&& new[queue.len() as int].type_id == type_id
            &&& new[queue.len() as int].msg_id == relay.msg_id_counter
            &&& new[queue.len() as int].tracker == Some(trackers.next)
            &&& new[queue.len() as int].origin == if origin == 0 {
                relay.id
            } else {
                origin
            }
            &&& table.live.contains_key(trackers.next)
            &&& table.live[trackers.next].expected == relay.handler_count
        },
{
    let (r, begun) = crate::stream::begun(relay, value, type_id, origin);
    if let Ok(pending) = r {
        if let PendingSend::AwaitReady { envelope, track } = pending {
            let e = outgoing(begun, envelope, Some(trackers.next));
            crate::laws::relay::law_delivery_by_subscription(begun, e, i);
            let queue = relay.subscribers[i].subscription.mailbox.queue;
            let new = begun.delivered(e).subscribers[i].subscription.mailbox.queue;
            if new.len() == queue.len() + 2 {
                assert(new.drop_last()[queue.len() as int] == e);
            }
            law_tracked_message_waits_by_count(envelope, begun, trackers);
        }
    }
}

/// The wait for the handlers of a message ends exactly when as many completions
/// have come as are expected, whether or not one of them was a failure. It ends
/// with the error that was recorded, if there is one, and takes it; the counts,
/// and every other tracker, stay.
pub proof fn law_wait_ends_by_count<V, E>(
    tracker: u64,
    relay: RelayModel<V, E>,
    trackers: TableModel<E>,
)
    ensures
        ({
            let pending = PendingSend::<V, E>::AwaitCompletion { tracker };
            let (step, _, table) = pending.next_step(relay, trackers);
            let all = trackers.live.contains_key(tracker) && trackers.live[tracker].completed
                >= trackers.live[tracker].expected;
            &&& step is Finished <==> all
            &&& !all ==> step == SendStep::WaitCompletion(pending) && table == trackers
            &&& all ==> {
                &&& trackers.live[tracker].error is None ==> step == SendStep::<V, E>::Finished(
                    Ok(()),
                )
                &&& trackers.live[tracker].error matches Some(error) ==> step == SendStep::<
                    V,
                    E,
                >::Finished(Err(SendError::Downstream(error)))
                &&& crate::laws::counts::only_changes(trackers, table, tracker)
                &&& table.signal == trackers.signal
                &&& table.live[tracker].expected == trackers.live[tracker].expected
                &&& table.live[tracker].completed == trackers.live[tracker].completed
                &&& table.live[tracker].error is None
            }
        }),
{
}

/// A sending ends only with as many completions as are expected, both at the
/// moment of its last step and after it, for every number of handlers and whether
/// or not an error is recorded.
pub proof fn law_sending_ends_with_all_completions<V, E>(
    pending: PendingSend<V, E>,
    relay: RelayModel<V, E>,
    trackers: TableModel<E>,
    key: u64,
)
    requires
        crate::laws::sending::awaited(pending, trackers) == Some(key),
        pending.next_step(relay, trackers).0 is Finished,
    ensures
        ({
            let then = crate::laws::sending::trackers_then(pending, relay, trackers);
            let after = pending.next_step(relay, trackers).2;
            &&& then.live.contains_key(key)
            &&& then.live[key].completed >= then.live[key].expected
            &&& after.live.contains_key(key)
            &&& after.live[key].completed >= after.live[key].expected
        }),
{
}

/// A message that gets its tracker now is waited for by as many completions as
/// the relay counts handlers. It is complete for those whose subscription has no
/// room or is disconnected. If that is all of them the sending ends at once, with
/// success; else it goes on to wait for the rest.
pub proof fn law_tracked_message_waits_by_count<V, E>(
    envelope: Envelope<V, E>,
    relay: RelayModel<V, E>,
    trackers: TableModel<E>,
)
    requires
        relay.ready_count >= relay.pending_ready,
        trackers.next < u64::MAX,
    ensures
        ({
            let key = trackers.next;
            let pending = PendingSend::AwaitReady { envelope, track: true };
            let (step, _, table) = pending.next_step(relay, trackers);
            let passed = crate::laws::relay::passed_by(relay.subscribers);
            &&& passed >= relay.handler_count ==> step == SendStep::<V, E>::Finished(Ok(()))
            &&& passed < relay.handler_count ==> step == SendStep::<V, E>::WaitCompletion(
                PendingSend::AwaitCompletion { tracker: key },
            )
            &&& table.next == key + 1
            &&& table.live.contains_key(key)
            &&& table.live[key].expected == relay.handler_count
            &&& passed <= usize::MAX ==> table.live[key].completed == passed
            &&& passed > usize::MAX ==> table.live[key].completed == usize::MAX
            &&& table.live[key].error is None
            &&& forall|k: u64|
                k != key ==> (#[trigger] table.live.contains_key(k) <==> trackers.live.contains_key(
                    k,
                ))
            &&& forall|k: u64|
                k != key && trackers.live.contains_key(k) ==> #[trigger] table.live[k]
                    == trackers.live[k]
            &&& table.signal <==> trackers.signal || (passed > 0 && passed >= relay.handler_count)
        }),
{
    let key = trackers.next;
    let created = trackers.created(relay.handler_count as nat);
    let e = outgoing(relay, envelope, Some(key));
    let then = relay.trackers_delivered(e, created);
    let passed = crate::laws::relay::passed_by(relay.subscribers);
    let more = |k: u64|
        if e.tracker == Some(k) {
            passed
        } else {
            0
        };
    crate::laws::relay::law_delivery_completes_for_those_passed_by(relay, e, created);
    assert(crate::laws::counts::counts_up(created, then, more)) by {
        assert(more =~= (|k: u64|
            if e.tracker == Some(k) {
                crate::laws::relay::passed_by(relay.subscribers)
            } else {
                0
            }));
    }
    assert(created.live.contains_key(key));
    assert(then.live.contains_key(key));
    assert(more(key) == passed);
    assert(then.live[key].completed == if passed <= usize::MAX {
        passed
    } else {
        usize::MAX as nat
    });
    assert(then.live[key].error is None);
    assert forall|k: u64| k != key && trackers.live.contains_key(k) implies #[trigger] then.live[k]
        == trackers.live[k] by {
        assert(created.live.contains_key(k));
        assert(more(k) == 0);
        assert(then.live[k].error == created.live[k].error);
    }
    assert forall|k: u64| k != key implies (#[trigger] then.live.contains_key(k)
        <==> trackers.live.contains_key(k)) by {
        assert(created.live.contains_key(k) <==> trackers.live.contains_key(k));
    }
    let (step, _, table) = (PendingSend::AwaitReady { envelope, track: true }).next_step(
        relay,
        trackers,
    );
    assert(table == then || table == then.error_taken(key));
    assert forall|k: u64| k != key implies (#[trigger] table.live.contains_key(k)
        <==> trackers.live.contains_key(k)) by {
        assert(then.live.contains_key(k) <==> trackers.live.contains_key(k));
    }
    assert forall|k: u64| k != key && trackers.live.contains_key(k) implies #[trigger] table.live[k]
        == trackers.live[k] by {
        assert(then.live[k] == trackers.live[k]);
    }
}

/// A message that keeps its tracker, or has none, makes no tracker. Without one the
/// sending ends at once, with success. With one it goes on to wait, as for a
/// message that was delivered before, after it was completed for the handlers
/// that do not get it.
pub proof fn law_untracked_message_waits_for_its_tracker<V, E>(
    envelope: Envelope<V, E>,
    relay: RelayModel<V, E>,
    trackers: TableModel<E>,
)
    requires
        relay.ready_count >= relay.pending_ready,
    ensures
        ({
            let pending = PendingSend::AwaitReady { envelope, track: false };
            let (step, _, table) = pending.next_step(relay, trackers);
            &&& table.next == trackers.next
            &&& envelope.tracker is None ==> step == SendStep::<V, E>::Finished(Ok(())) && table
                == trackers
            &&& envelope.tracker matches Some(key) ==> {
                let then = relay.trackers_delivered(envelope, trackers);
                let all = then.live.contains_key(key) && then.live[key].completed
                    >= then.live[key].expected;
                &&& step is Finished <==> all
                &&& step is WaitCompletion <==> !all
                &&& (step, table) == ({
                    let (s, _, t) = (PendingSend::<V, E>::AwaitCompletion {
                        tracker: key,
                    }).next_step(relay, then);
                    (s, t)
                })
            }
        }),
{
    crate::laws::relay::law_delivery_completes_for_those_passed_by(relay, envelope, trackers);
    crate::inner::lemma_nobody_passed_over(relay.subscribers, envelope.tracker, trackers);
}

/// A message gets a tracker of its own, under the next key, and stays otherwise as
/// it is. The tracker expects as many completions as the relay counts handlers.
pub proof fn law_tracker_expects_the_handlers<V, E>(
    relay: RelayModel<V, E>,
    envelope: Envelope<V, E>,
    trackers: TableModel<E>,
    value: Arc<Payload<V, E>>,
    type_id: TypeKey,
    origin: u64,
)
    ensures
        ({
            let (after, table) = relay.with_tracker(envelope, trackers);
            &&& after == (Envelope { tracker: after.tracker, ..envelope })
            &&& after.tracker == Some(trackers.next)
            &&& table.live.contains_key(trackers.next)
            &&& table.live[trackers.next].expected == relay.handler_count
            &&& table.live[trackers.next].completed == 0
            &&& table.live[trackers.next].error is None
            &&& table.signal == trackers.signal
        }),
        ({
            let new = relay.envelope(value, type_id, origin);
            &&& new.value == value
            &&& new.type_id == type_id
            &&& new.msg_id == relay.msg_id_counter
            &&& new.tracker is None
            &&& new.origin == origin
        }),
{
}

/// A relay is closed by its owner alone: no step of a sending, no subscription
/// that comes or goes, no handler that goes, no message that is received or
/// numbered, and no task that gets ready closes or opens it, or gives it another
/// ID.
pub proof fn law_only_the_owner_closes<V, E>(
    relay: RelayModel<V, E>,
    pending: PendingSend<V, E>,
    trackers: TableModel<E>,
    envelope: Envelope<V, E>,
    value: Arc<Payload<V, E>>,
    type_id: TypeKey,
    origin: u64,
    wanted: Wanted,
    tracking: bool,
    id: u64,
)
    ensures
        ({
            let same = |after: RelayModel<V, E>|
                after.closed == relay.closed && after.id == relay.id;
            &&& same(pending.next_step(relay, trackers).1)
            &&& same(relay.delivered(envelope))
            &&& same(crate::stream::begun(relay, value, type_id, origin).1)
            &&& same(relay.subscribed(wanted, tracking))
            &&& same(relay.subscribed_tracking(wanted))
            &&& same(relay.with_subscription(id, relay.subscription(id).received()))
            &&& same(relay.with_subscription(id, relay.subscription(id).fetched()))
            &&& same(relay.with_subscription(id, relay.subscription(id).cleared()))
            &&& same(relay.unsubscribed(id))
            &&& same(relay.awaiting_one_more())
            &&& same(relay.readied())
            &&& same(relay.handler_gone())
            &&& same(relay.numbered())
        }),
        relay.shut().closed,
        relay.shut().id == relay.id,
{
}

/// A step may make a tracker exactly where the message is not yet delivered and is
/// to get one.
pub proof fn law_when_a_tracker_is_made<V, E>(pending: PendingSend<V, E>)
    ensures
        match pending {
            PendingSend::AwaitReady { track, .. } => pending.tracks() == track,
            PendingSend::AwaitCompletion { .. } => !pending.tracks(),
        },
{
}

/// A handler that returns nothing has succeeded, and one that returns a result has
/// that result. A handle of both ends belongs to a relay exactly when both ends
/// do.
pub proof fn law_returned_values_and_handles<V, E>(
    r: Result<(), E>,
    handle: TestRelay,
    relay: RelayModel<V, E>,
)
    ensures
        ().result() is Ok,
        r is Ok ==> r.result() is Ok,
        r matches Err(e) ==> r.result() == Err::<(), E>(e),
        handle.belongs_to(relay) <==> handle.tx.id() == relay.id && handle.rx.relay == relay.id,
{
}

} // verus!
