//! Sending a message.
use std::sync::Arc;
use vstd::prelude::*;

use crate::envelope::{Envelope, Payload};
use crate::inner::RelayModel;
use crate::stream::{PendingSend, SendError, SendStep};
use crate::subscription::{SubscriptionModel, Wanted};
use crate::tracker::TableModel;
use crate::type_key::TypeKey;

verus! {

/// The tracker whose completion ends the sending, if there is one.
pub open spec fn awaited<V, E>(
    pending: PendingSend<V, E>,
    trackers: TableModel<E>,
) -> Option<u64> {
    match pending {
        PendingSend::AwaitReady { envelope, track } => if track {
            Some(trackers.next)
        } else {
            envelope.tracker
        },
        PendingSend::AwaitCompletion { tracker, .. } => Some(tracker),
    }
}

/// The trackers, once the message of a sending has been delivered.
pub open spec fn trackers_then<V, E>(
    pending: PendingSend<V, E>,
    relay: RelayModel<V, E>,
    trackers: TableModel<E>,
) -> TableModel<E> {
    match pending {
        PendingSend::AwaitReady { envelope, track } => if track {
            let (envelope, trackers) = relay.with_tracker(envelope, trackers);
            relay.trackers_delivered(envelope, trackers)
        } else {
            relay.trackers_delivered(envelope, trackers)
        },
        PendingSend::AwaitCompletion { .. } => trackers,
    }
}

/// Completion safety: sending ends only when all handlers that are waited for
/// have completed.
pub proof fn law_send_waits_for_all_handlers<V, E>(
    pending: PendingSend<V, E>,
    relay: RelayModel<V, E>,
    trackers: TableModel<E>,
    key: u64,
)
    requires
        awaited(pending, trackers) == Some(key),
        pending.next_step(relay, trackers).0 is Finished,
    ensures
        trackers_then(pending, relay, trackers).is_complete(key),
{
}

/// Failure propagation: sending succeeds exactly when no handler failed, and
/// otherwise gives the error that was recorded first.
pub proof fn law_errors_reach_the_sender<V, E>(
    pending: PendingSend<V, E>,
    relay: RelayModel<V, E>,
    trackers: TableModel<E>,
    key: u64,
)
    requires
        awaited(pending, trackers) == Some(key),
        pending.next_step(relay, trackers).0 is Finished,
    ensures
        pending.next_step(relay, trackers).0 == SendStep::<V, E>::Finished(
            match trackers_then(pending, relay, trackers).error(key) {
                Some(error) => Err(SendError::Downstream(error)),
                None => Ok(()),
            },
        ),
{
}

/// The end of a sending takes nothing from those who still refer to the tracker:
/// it stays, with its counts.
pub proof fn law_tracker_outlives_the_sending<V, E>(
    pending: PendingSend<V, E>,
    relay: RelayModel<V, E>,
    trackers: TableModel<E>,
    key: u64,
)
    requires
        awaited(pending, trackers) == Some(key),
        relay.is_ready(),
        trackers_then(pending, relay, trackers).live.contains_key(key),
    ensures
        ({
            let then = trackers_then(pending, relay, trackers);
            let after = pending.next_step(relay, trackers).2;
            &&& after.live.contains_key(key)
            &&& after.live[key].expected == then.live[key].expected
            &&& after.live[key].completed == then.live[key].completed
        }),
{
}

/// Sending never comes back with `Closed` once it was accepted.
pub proof fn law_accepted_message_is_not_refused<V, E>(
    pending: PendingSend<V, E>,
    relay: RelayModel<V, E>,
    trackers: TableModel<E>,
)
    ensures
        pending.next_step(relay, trackers).0 != SendStep::<V, E>::Finished(
            Err(SendError::Closed),
        ),
{
}

/// No handlers, no waiting: a message that nobody tracks is sent at once.
pub proof fn law_no_handlers_no_wait<V, E>(
    relay: RelayModel<V, E>,
    trackers: TableModel<E>,
    value: Arc<Payload<V, E>>,
    type_id: TypeKey,
    origin: u64,
)
    requires
        !relay.closed,
        relay.is_ready(),
        relay.handler_count == 0,
    ensures
        ({
            let (pending, relay1) = crate::stream::begun(relay, value, type_id, origin);
            &&& pending is Ok
            &&& pending->Ok_0.next_step(relay1, trackers).0 == SendStep::<V, E>::Finished(Ok(()))
        }),
{
    let (envelope, created) = relay.with_tracker(
        relay.envelope(value, type_id, origin),
        trackers,
    );
    crate::laws::accounting::lemma_passed_over(
        relay.subscribers,
        envelope.tracker,
        created,
        trackers.next,
    );
}

/// A closed relay refuses every message, and stays as it is.
pub proof fn law_closed_relay_refuses<V, E>(
    relay: RelayModel<V, E>,
    value: Arc<Payload<V, E>>,
    type_id: TypeKey,
    origin: u64,
    envelope: Envelope<V, E>,
)
    requires
        relay.closed,
    ensures
        crate::stream::begun(relay, value, type_id, origin) == (
            Err::<PendingSend<V, E>, SendError<E>>(SendError::Closed),
            relay,
        ),
        crate::stream::forwarded(relay, envelope) == Err::<PendingSend<V, E>, SendError<E>>(
            SendError::Closed,
        ),
{
}

/// Closure is for good: nothing opens a relay again.
pub proof fn law_closed_stays_closed<V, E>(
    relay: RelayModel<V, E>,
    envelope: Envelope<V, E>,
    wanted: Wanted,
    tracking: bool,
    id: u64,
    subscription: SubscriptionModel<V, E>,
)
    requires
        relay.closed,
    ensures
        relay.delivered(envelope).closed,
        relay.subscribed(wanted, tracking).closed,
        relay.subscribed_tracking(wanted).closed,
        relay.with_subscription(id, subscription).closed,
        relay.unsubscribed(id).closed,
        relay.numbered().closed,
        relay.awaiting_one_more().closed,
        relay.readied().closed,
        relay.handler_gone().closed,
        relay.shut() == relay.shut().shut(),
        relay.shut().closed,
{
    assert(relay.shut().subscribers =~= relay.shut().shut().subscribers);
}

/// Successive messages of a relay have successive IDs.
pub proof fn law_messages_are_numbered<V, E>(
    relay: RelayModel<V, E>,
    first: Arc<Payload<V, E>>,
    second: Arc<Payload<V, E>>,
    type_id: TypeKey,
    origin: u64,
)
    requires
        !relay.closed,
        relay.msg_id_counter < u64::MAX,
    ensures
        ({
            let (pending1, relay1) = crate::stream::begun(relay, first, type_id, origin);
            let (pending2, relay2) = crate::stream::begun(relay1, second, type_id, origin);
            &&& pending1 matches Ok(PendingSend::AwaitReady { envelope: envelope1, .. })
            &&& pending2 matches Ok(PendingSend::AwaitReady { envelope: envelope2, .. })
            &&& envelope2.msg_id == envelope1.msg_id + 1
        }),
{
}

/// The handlers that a sending waits for are those of the moment when the
/// message is delivered, all but those that do not get it: for them it is
/// complete at once. Handlers that come and go later do not change their number.
pub proof fn law_handlers_are_counted_at_delivery<V, E>(
    relay: RelayModel<V, E>,
    trackers: TableModel<E>,
    envelope: Envelope<V, E>,
    later: RelayModel<V, E>,
)
    requires
        relay.is_ready(),
        crate::laws::accounting::missing_count(relay.subscribers) < relay.handler_count,
    ensures
        ({
            let pending = PendingSend::AwaitReady { envelope, track: true };
            let (step, _, trackers1) = pending.next_step(relay, trackers);
            let delivered = PendingSend::<V, E>::AwaitCompletion { tracker: trackers.next };
            &&& step == SendStep::WaitCompletion(delivered)
            &&& trackers1.live[trackers.next].expected == relay.handler_count
            &&& trackers1.live[trackers.next].completed
                == crate::laws::accounting::missing_count(relay.subscribers)
            &&& delivered.next_step(later, trackers1) == (step, later, trackers1)
        }),
{
    let (envelope, created) = relay.with_tracker(envelope, trackers);
    crate::laws::accounting::lemma_passed_over(
        relay.subscribers,
        envelope.tracker,
        created,
        trackers.next,
    );
    crate::inner::lemma_nobody_passed_over(relay.subscribers, envelope.tracker, created);
}

/// Drops block nobody: a message that no handler gets is sent at once, and the
/// sending succeeds.
pub proof fn law_dropped_message_blocks_nobody<V, E>(
    relay: RelayModel<V, E>,
    trackers: TableModel<E>,
    envelope: Envelope<V, E>,
)
    requires
        relay.is_ready(),
        crate::laws::accounting::counted(relay),
        forall|i: int|
            0 <= i < relay.subscribers.len() && (
            #[trigger] relay.subscribers[i]).subscription.tracking
                ==> !relay.subscribers[i].subscription.mailbox.takes(),
    ensures
        (PendingSend::AwaitReady { envelope, track: true }).next_step(relay, trackers).0
            == SendStep::<V, E>::Finished(Ok(())),
{
    let (envelope, created) = relay.with_tracker(envelope, trackers);
    crate::laws::accounting::lemma_passed_over(
        relay.subscribers,
        envelope.tracker,
        created,
        trackers.next,
    );
    crate::inner::lemma_nobody_passed_over(relay.subscribers, envelope.tracker, created);
    crate::laws::accounting::lemma_all_miss(relay.subscribers);
}

/// Two messages are tracked apart.
pub proof fn law_messages_are_tracked_apart<V, E>(
    relay: RelayModel<V, E>,
    trackers: TableModel<E>,
    first: Envelope<V, E>,
    second: Envelope<V, E>,
)
    requires
        trackers.wf(),
        trackers.next < u64::MAX,
    ensures
        ({
            let (envelope1, trackers1) = relay.with_tracker(first, trackers);
            let (envelope2, trackers2) = relay.with_tracker(second, trackers1);
            &&& envelope1.tracker != envelope2.tracker
            &&& !trackers.live.contains_key(trackers.next)
            &&& trackers2.live[trackers.next] == trackers1.live[trackers.next]
        }),
{
}

/// What subscriptions get is the message that was sent, with the ID that it was
/// given, an origin, and a tracker that tells how many handlers were counted. It
/// tells so for as long as it is in use, also where the sending ends at once.
pub proof fn law_what_is_sent_is_delivered<V, E>(
    relay: RelayModel<V, E>,
    trackers: TableModel<E>,
    value: Arc<Payload<V, E>>,
    type_id: TypeKey,
    origin: u64,
)
    requires
        !relay.closed,
        relay.is_ready(),
    ensures
        ({
            let (pending, relay1) = crate::stream::begun(relay, value, type_id, origin);
            let (_, relay2, trackers2) = pending->Ok_0.next_step(relay1, trackers);
            &&& pending is Ok
            &&& relay2 == relay1.delivered(
                Envelope {
                    value,
                    type_id,
                    msg_id: relay.msg_id_counter,
                    tracker: Some(trackers.next),
                    origin: if origin == 0 {
                        relay.id
                    } else {
                        origin
                    },
                },
            )
            &&& trackers2.live.contains_key(trackers.next)
            &&& trackers2.live[trackers.next].expected == relay.handler_count
        }),
{
    let (envelope, created) = relay.with_tracker(
        relay.envelope(value, type_id, origin),
        trackers,
    );
    crate::laws::accounting::lemma_passed_over(
        relay.subscribers,
        envelope.tracker,
        created,
        trackers.next,
    );
}

/// Echo prevention: an envelope keeps the origin that it has. One that has
/// none gets that of the first relay that sends it.
pub proof fn law_origin_is_kept<V, E>(
    first: RelayModel<V, E>,
    second: RelayModel<V, E>,
    envelope: Envelope<V, E>,
)
    requires
        first.id != 0,
    ensures
        envelope.origin != 0 ==> first.stamped(envelope) == envelope,
        envelope.origin == 0 ==> first.stamped(envelope).origin == first.id,
        second.stamped(first.stamped(envelope)) == first.stamped(envelope),
{
}

} // verus!
