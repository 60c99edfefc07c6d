use std::sync::Arc;
use vstd::prelude::*;

use crate::envelope::{Envelope, Payload};
use crate::error::{Fault, PanicError, PanicPayload, RelayError};
use crate::inner::{Inner, RelayIds, RelayModel};
use crate::subscription::{HandlerOutcome, Received, SubscriptionModel, Wanted};
use crate::tracker::{Completion, TableModel, TrackerTable};
use crate::type_key::TypeKey;

verus! {

/// How many messages a subscription holds unless told otherwise.
pub const DEFAULT_CHANNEL_SIZE: usize = 65536;

/// Why a message was not sent, or not handled.
#[derive(Debug)]
pub enum SendError<E> {
    /// The relay is closed.
    Closed,
    /// A handler failed.
    Downstream(RelayError<E>),
}

impl<E> Clone for SendError<E> {
    fn clone(&self) -> (r: SendError<E>)
        ensures
            r == *self,
    {
        match self {
            SendError::Closed => SendError::Closed,
            SendError::Downstream(error) => SendError::Downstream(error.clone()),
        }
    }
}

/// A message that is being sent.
#[derive(Debug)]
pub enum PendingSend<V, E> {
    /// It is delivered once all subscriptions are ready.
    ///
    /// `track` tells whether it gets a tracker then. An envelope that was made
    /// elsewhere keeps the one that it has.
    AwaitReady { envelope: Envelope<V, E>, track: bool },
    /// It was delivered, and its handlers are at work.
    AwaitCompletion { tracker: u64 },
}

/// How far the sending of a message has come.
#[derive(Debug)]
pub enum SendStep<V, E> {
    /// Wait for the readiness of the relay, and go on.
    WaitReady(PendingSend<V, E>),
    /// Wait for the completion of the tracker, and go on.
    WaitCompletion(PendingSend<V, E>),
    /// The sending has ended.
    Finished(Result<(), SendError<E>>),
}

/// Waiting for the handlers of a message: once all have completed, the first
/// error among theirs, if there is one, is the result. The tracker stays, for
/// those who still refer to it.
pub open spec fn completion_step<V, E>(tracker: u64, trackers: TableModel<E>) -> (
    SendStep<V, E>,
    TableModel<E>,
) {
    if !trackers.is_complete(tracker) {
        (SendStep::WaitCompletion(PendingSend::AwaitCompletion { tracker }), trackers)
    } else {
        (
            SendStep::Finished(
                match trackers.error(tracker) {
                    Some(error) => Err(SendError::Downstream(error)),
                    None => Ok(()),
                },
            ),
            trackers.error_taken(tracker),
        )
    }
}

impl<V, E> PendingSend<V, E> {
    /// Whether the next step may make a tracker.
    pub open spec fn tracks(self) -> bool {
        self matches PendingSend::AwaitReady { track: true, .. }
    }

    /// What the next step comes to, what it makes of the relay, and what of
    /// the trackers.
    pub open spec fn next_step(
        self,
        relay: RelayModel<V, E>,
        trackers: TableModel<E>,
    ) -> (SendStep<V, E>, RelayModel<V, E>, TableModel<E>) {
        match self {
            PendingSend::AwaitReady { envelope, track } => {
                if !relay.is_ready() {
                    (SendStep::WaitReady(self), relay, trackers)
                } else {
                    let (envelope, trackers) = if track {
                        relay.with_tracker(envelope, trackers)
                    } else {
                        (envelope, trackers)
                    };
                    let envelope = relay.stamped(envelope);
                    let after = relay.delivered(envelope);
                    let trackers = relay.trackers_delivered(envelope, trackers);
                    match envelope.tracker {
                        Some(tracker) => {
                            let (step, trackers) = completion_step(tracker, trackers);
                            (step, after, trackers)
                        },
                        None => (SendStep::Finished(Ok(())), after, trackers),
                    }
                }
            },
            PendingSend::AwaitCompletion { tracker } => {
                let (step, trackers) = completion_step(tracker, trackers);
                (step, relay, trackers)
            },
        }
    }

    /// Go on with the sending, as far as it goes without waiting.
    ///
    /// Once all subscriptions are ready, the handlers of that moment are
    /// counted, and the message is delivered. It is complete at once for those
    /// that do not get it. The sending ends when it is for all.
    pub fn step(
        self,
        inner: &mut Inner<V, E>,
        trackers: &mut TrackerTable<E>,
    ) -> (r: SendStep<V, E>)
        requires
            self.tracks() ==> old(trackers)@.next < u64::MAX,
        ensures
            (r, final(inner)@, final(trackers)@) == self.next_step(
                old(inner)@,
                old(trackers)@,
            ),
            old(inner).wf() ==> final(inner).wf(),
            old(inner)@.keeps(final(inner)@),
            old(trackers)@.wf() ==> final(trackers)@.wf(),
    {
        match self {
            PendingSend::AwaitReady { envelope, track } => {
                if !inner.is_ready() {
                    return SendStep::WaitReady(PendingSend::AwaitReady { envelope, track });
                }
                let mut envelope = envelope;
                if track {
                    envelope.tracker = Some(trackers.create(inner.handler_count()));
                }
                let envelope = if envelope.origin() == 0 {
                    envelope.with_new_origin(inner.id())
                } else {
                    envelope
                };
                inner.deliver(&envelope, trackers);
                match envelope.tracker() {
                    Some(tracker) => Self::complete(tracker, trackers),
                    None => SendStep::Finished(Ok(())),
                }
            },
            PendingSend::AwaitCompletion { tracker } => Self::complete(tracker, trackers),
        }
    }

    /// End the sending if all handlers have completed.
    fn complete(tracker: u64, trackers: &mut TrackerTable<E>) -> (r: SendStep<V, E>)
        ensures
            (r, final(trackers)@) == completion_step::<V, E>(tracker, old(trackers)@),
            old(trackers)@.wf() ==> final(trackers)@.wf(),
    {
        if let Completion::AwaitNotification = trackers.wait_owned(tracker) {
            return SendStep::WaitCompletion(PendingSend::AwaitCompletion { tracker });
        }
        match trackers.take_error(tracker) {
            Some(error) => SendStep::Finished(Err(SendError::Downstream(error))),
            None => SendStep::Finished(Ok(())),
        }
    }
}

/// What sending a message first comes to, and what it makes of the relay: the
/// message gets an ID. A closed relay takes no message.
pub open spec fn begun<V, E>(
    relay: RelayModel<V, E>,
    value: Arc<Payload<V, E>>,
    type_id: TypeKey,
    origin: u64,
) -> (Result<PendingSend<V, E>, SendError<E>>, RelayModel<V, E>) {
    if relay.closed {
        (Err(SendError::Closed), relay)
    } else {
        (
            Ok(
                PendingSend::AwaitReady {
                    envelope: relay.envelope(value, type_id, origin),
                    track: true,
                },
            ),
            relay.numbered(),
        )
    }
}

/// What sending an envelope that was made elsewhere first comes to.
pub open spec fn forwarded<V, E>(
    relay: RelayModel<V, E>,
    envelope: Envelope<V, E>,
) -> Result<PendingSend<V, E>, SendError<E>> {
    if relay.closed {
        Err(SendError::Closed)
    } else {
        Ok(PendingSend::AwaitReady { envelope, track: false })
    }
}

/// The single owner of a relay.
///
/// There is exactly one owner, and it is not `Clone`: when it goes away, the
/// relay closes. Use `weak()` for handles that can send without keeping the
/// relay open.
#[derive(Debug)]
pub struct RelaySender {
    relay: u64,
}

impl RelaySender {
    /// The ID of the relay.
    pub closed spec fn spec_id(&self) -> u64 {
        self.relay
    }

    /// Send a message to all subscriptions.
    pub fn send<V, E>(
        &self,
        inner: &mut Inner<V, E>,
        value: Payload<V, E>,
    ) -> (r: Result<PendingSend<V, E>, SendError<E>>)
        requires
            self.id() == old(inner)@.id,
        ensures
            (r, final(inner)@) == begun(
                old(inner)@,
                Arc::new(value),
                value.type_key(),
                old(inner)@.id,
            ),
            old(inner).wf() ==> final(inner).wf(),
            old(inner)@.keeps(final(inner)@),
    {
        if inner.is_closed() {
            return Err(SendError::Closed);
        }
        let msg_id = inner.next_msg_id();
        let envelope = Envelope::with_origin(value, msg_id, None, inner.id());
        Ok(PendingSend::AwaitReady { envelope, track: true })
    }

    /// Send a shared message, with a declared type.
    pub fn send_any<V, E>(
        &self,
        inner: &mut Inner<V, E>,
        value: Arc<Payload<V, E>>,
        type_id: TypeKey,
    ) -> (r: Result<PendingSend<V, E>, SendError<E>>)
        requires
            self.id() == old(inner)@.id,
        ensures
            (r, final(inner)@) == begun(
                old(inner)@,
                value,
                type_id,
                old(inner)@.id,
            ),
            old(inner).wf() ==> final(inner).wf(),
            old(inner)@.keeps(final(inner)@),
    {
        let origin = inner.id();
        self.send_any_with_origin(inner, value, type_id, origin)
    }

    /// Send a shared message, with a declared type and a specific origin (for
    /// echo prevention).
    pub fn send_any_with_origin<V, E>(
        &self,
        inner: &mut Inner<V, E>,
        value: Arc<Payload<V, E>>,
        type_id: TypeKey,
        origin: u64,
    ) -> (r: Result<PendingSend<V, E>, SendError<E>>)
        requires
            self.id() == old(inner)@.id,
        ensures
            (r, final(inner)@) == begun(
                old(inner)@,
                value,
                type_id,
                origin,
            ),
            old(inner).wf() ==> final(inner).wf(),
            old(inner)@.keeps(final(inner)@),
    {
        if inner.is_closed() {
            return Err(SendError::Closed);
        }
        let msg_id = inner.next_msg_id();
        let envelope = Envelope::from_any_with_origin(
            value,
            type_id,
            msg_id,
            None,
            origin,
        );
        Ok(PendingSend::AwaitReady { envelope, track: true })
    }

    /// Send an envelope that was made elsewhere, such as one being forwarded.
    pub fn send_envelope<V, E>(
        &self,
        inner: &Inner<V, E>,
        envelope: Envelope<V, E>,
    ) -> (r: Result<PendingSend<V, E>, SendError<E>>)
        requires
            self.id() == inner@.id,
        ensures
            r == forwarded(inner@, envelope),
    {
        if inner.is_closed() {
            return Err(SendError::Closed);
        }
        Ok(PendingSend::AwaitReady { envelope, track: false })
    }

    /// Deliver an envelope to all subscriptions, and wait for nobody.
    pub fn deliver_envelope<V, E>(
        &self,
        inner: &mut Inner<V, E>,
        trackers: &mut TrackerTable<E>,
        envelope: &Envelope<V, E>,
    ) -> (r: Result<(), SendError<E>>)
        requires
            self.id() == old(inner)@.id,
        ensures
            r == Ok::<(), SendError<E>>(()),
            final(inner)@ == old(inner)@.delivered(*envelope),
            final(trackers)@ == old(inner)@.trackers_delivered(*envelope, old(trackers)@),
            old(inner).wf() ==> final(inner).wf(),
            old(inner)@.keeps(final(inner)@),
            old(trackers)@.wf() ==> final(trackers)@.wf(),
    {
        inner.deliver(envelope, trackers);
        Ok(())
    }

    /// Create a weak sender.
    ///
    /// Weak senders can send, but don't keep the relay open.
    pub fn weak(&self) -> (r: WeakSender)
        ensures
            r.relay == self.id(),
    {
        WeakSender { relay: self.relay }
    }

    /// Check if the relay is closed.
    pub fn is_closed<V, E>(&self, inner: &Inner<V, E>) -> (r: bool)
        requires
            self.id() == inner@.id,
        ensures
            r == inner@.closed,
    {
        inner.is_closed()
    }

    /// Get the ID of the relay.
    #[verifier::when_used_as_spec(spec_id)]
    pub fn id(&self) -> (r: u64)
        ensures
            r == self.spec_id(),
    {
        self.relay
    }

    /// Get the number of handlers that a sender waits for.
    pub fn handler_count<V, E>(&self, inner: &Inner<V, E>) -> (r: usize)
        requires
            self.id() == inner@.id,
        ensures
            r == inner@.handler_count,
    {
        inner.handler_count()
    }

    /// Close the relay explicitly, as if the owner went away.
    pub fn close<V, E>(&self, inner: &mut Inner<V, E>)
        requires
            self.id() == old(inner)@.id,
        ensures
            final(inner)@ == old(inner)@.shut(),
            old(inner).wf() ==> final(inner).wf(),
            old(inner)@.keeps(final(inner)@),
    {
        inner.close();
    }

    /// The owner goes away: the relay closes.
    pub fn drop<V, E>(self, inner: &mut Inner<V, E>)
        requires
            self.id() == old(inner)@.id,
        ensures
            final(inner)@ == old(inner)@.shut(),
            old(inner).wf() ==> final(inner).wf(),
            old(inner)@.keeps(final(inner)@),
    {
        inner.close();
    }

    /// A second handle to the same relay, for tests only: it breaks the rule
    /// that there is one owner.
    pub fn clone_for_test(&self) -> (r: RelaySender)
        ensures
            r == *self,
    {
        RelaySender { relay: self.relay }
    }
}

/// A sender that does not keep the relay open.
///
/// Created by [`RelaySender::weak`]. Where the state of the relay is gone, or
/// the relay is closed, sending fails with [`SendError::Closed`].
#[derive(Debug)]
pub struct WeakSender {
    /// The ID of the relay.
    pub relay: u64,
}

impl Clone for WeakSender {
    fn clone(&self) -> (r: WeakSender)
        ensures
            r == *self,
    {
        WeakSender { relay: self.relay }
    }
}

impl WeakSender {
    /// Send a message if the relay is still there and open.
    pub fn send<V, E>(
        &self,
        inner: Option<&mut Inner<V, E>>,
        value: Payload<V, E>,
    ) -> (r: Result<PendingSend<V, E>, SendError<E>>)
        requires
            inner matches Some(i) ==> self.relay == i@.id,
        ensures
            inner is None ==> r == Err::<PendingSend<V, E>, SendError<E>>(SendError::Closed),
            inner matches Some(i) ==> {
                &&& (r, final(i)@) == begun(
                    i@,
                    Arc::new(value),
                    value.type_key(),
                    i@.id,
                )
                &&& i.wf() ==> final(i).wf()
                &&& i@.keeps(final(i)@)
            },
    {
        match inner {
            Some(inner) => {
                if inner.is_closed() {
                    return Err(SendError::Closed);
                }
                let msg_id = inner.next_msg_id();
                let envelope = Envelope::with_origin(value, msg_id, None, inner.id());
                Ok(PendingSend::AwaitReady { envelope, track: true })
            },
            None => Err(SendError::Closed),
        }
    }

    /// Send a shared message, with a declared type, if the relay is still
    /// there and open.
    pub fn send_any<V, E>(
        &self,
        inner: Option<&mut Inner<V, E>>,
        value: Arc<Payload<V, E>>,
        type_id: TypeKey,
    ) -> (r: Result<PendingSend<V, E>, SendError<E>>)
        requires
            inner matches Some(i) ==> self.relay == i@.id,
        ensures
            inner is None ==> r == Err::<PendingSend<V, E>, SendError<E>>(SendError::Closed),
            inner matches Some(i) ==> {
                &&& (r, final(i)@) == begun(
                    i@,
                    value,
                    type_id,
                    i@.id,
                )
                &&& i.wf() ==> final(i).wf()
                &&& i@.keeps(final(i)@)
            },
    {
        self.send_any_with_origin(inner, value, type_id, self.relay)
    }

    /// Send a shared message, with a declared type and a specific origin, if
    /// the relay is still there and open.
    pub fn send_any_with_origin<V, E>(
        &self,
        inner: Option<&mut Inner<V, E>>,
        value: Arc<Payload<V, E>>,
        type_id: TypeKey,
        origin: u64,
    ) -> (r: Result<PendingSend<V, E>, SendError<E>>)
        requires
            inner matches Some(i) ==> self.relay == i@.id,
        ensures
            inner is None ==> r == Err::<PendingSend<V, E>, SendError<E>>(SendError::Closed),
            inner matches Some(i) ==> {
                &&& (r, final(i)@) == begun(
                    i@,
                    value,
                    type_id,
                    origin,
                )
                &&& i.wf() ==> final(i).wf()
                &&& i@.keeps(final(i)@)
            },
    {
        match inner {
            Some(inner) => {
                if inner.is_closed() {
                    return Err(SendError::Closed);
                }
                let msg_id = inner.next_msg_id();
                let envelope = Envelope::from_any_with_origin(
                    value,
                    type_id,
                    msg_id,
                    None,
                    origin,
                );
                Ok(PendingSend::AwaitReady { envelope, track: true })
            },
            None => Err(SendError::Closed),
        }
    }

    /// Send an envelope that was made elsewhere, if the relay is open.
    pub fn send_envelope_inner<V, E>(
        &self,
        inner: &Inner<V, E>,
        envelope: Envelope<V, E>,
    ) -> (r: Result<PendingSend<V, E>, SendError<E>>)
        requires
            self.relay == inner@.id,
        ensures
            r == forwarded(inner@, envelope),
    {
        if inner.is_closed() {
            return Err(SendError::Closed);
        }
        Ok(PendingSend::AwaitReady { envelope, track: false })
    }

    /// Check if the relay is closed, or its state is gone.
    pub fn is_closed<V, E>(&self, inner: Option<&Inner<V, E>>) -> (r: bool)
        requires
            inner matches Some(i) ==> self.relay == i@.id,
        ensures
            r == (inner matches Some(i) ==> i@.closed),
    {
        match inner {
            Some(inner) => inner.is_closed(),
            None => true,
        }
    }
}

/// Makes the number of handlers right again when a handler goes away.
#[derive(Debug)]
pub struct HandlerGuard {
    /// The ID of the relay that counts the handler.
    pub relay: u64,
}

impl HandlerGuard {
    /// Guard a handler that the relay has counted.
    pub fn new(relay: u64) -> (r: HandlerGuard)
        ensures
            r.relay == relay,
    {
        HandlerGuard { relay }
    }

    /// The handler goes away, whether it ended, panicked or was cancelled.
    pub fn drop<V, E>(self, inner: &mut Inner<V, E>)
        requires
            self.relay == old(inner)@.id,
        ensures
            final(inner)@ == old(inner)@.handler_gone(),
            old(inner).wf() ==> final(inner).wf(),
            old(inner)@.keeps(final(inner)@),
    {
        inner.remove_handler();
    }
}

/// What happened to a handler.
#[derive(Debug)]
pub enum HandlerEvent<E> {
    /// It has begun, or a message may have come.
    Ready,
    /// It has ended the processing of a message.
    Ended(HandlerOutcome<E>),
}

/// What a handler does next.
#[derive(Debug)]
pub enum HandlerAction<V, E> {
    /// Process a message.
    Run(Arc<Payload<V, E>>),
    /// Wait for a message.
    Wait,
    /// End: the relay is closed.
    Exit,
}

/// What a handler does next, and the error that it sends through the relay
/// before, if there is one.
#[derive(Debug)]
pub struct HandlerStep<V, E> {
    /// The error to send through the relay.
    pub emit: Option<RelayError<E>>,
    /// What to do next.
    pub action: HandlerAction<V, E>,
}

/// The subscription of a handler before it receives, given what happened to
/// the handler.
pub open spec fn before_receiving<V, E>(
    subscription: SubscriptionModel<V, E>,
    event: HandlerEvent<E>,
) -> SubscriptionModel<V, E> {
    match event {
        HandlerEvent::Ready => subscription,
        HandlerEvent::Ended(_) => subscription.cleared(),
    }
}

/// What a handler does with what its subscription yields.
pub open spec fn action_for<V, E>(received: Received<V, E>) -> HandlerAction<V, E> {
    match received {
        Received::Message(value) => HandlerAction::Run(value),
        Received::Empty => HandlerAction::Wait,
        Received::Closed => HandlerAction::Exit,
    }
}

/// A handler attached to a relay: it processes one message after the other.
#[derive(Debug)]
pub struct HandlerTask {
    /// The ID of its subscription.
    pub subscription: u64,
    /// What its errors give as their source.
    pub source: &'static str,
    /// Keeps the number of handlers right.
    pub guard: HandlerGuard,
}

impl HandlerTask {
    /// Go on after an event.
    ///
    /// A message that was processed is completed, with the error if there is
    /// one. Then the next message is received. Messages of other types are
    /// completed on the way.
    pub fn advance<V, E>(
        &self,
        inner: &mut Inner<V, E>,
        trackers: &mut TrackerTable<E>,
        event: HandlerEvent<E>,
    ) -> (r: HandlerStep<V, E>)
        requires
            old(inner).wf(),
            old(inner)@.has(self.subscription),
            self.guard.relay == old(inner)@.id,
        ensures
            match event {
                HandlerEvent::Ready => r.emit is None,
                HandlerEvent::Ended(outcome) => outcome.reported_as(
                    old(inner)@.subscription(self.subscription).report_id(),
                    self.source,
                    r.emit,
                ),
            },
            ({
                let subscription = old(inner)@.subscription(self.subscription);
                let cleared = before_receiving(subscription, event);
                let settled = match event {
                    HandlerEvent::Ready => old(trackers)@,
                    HandlerEvent::Ended(_) => subscription.trackers_settled(
                        old(trackers)@,
                        r.emit,
                    ),
                };
                &&& r.action == action_for(cleared.yields())
                &&& final(inner)@ == old(inner)@.with_subscription(
                    self.subscription,
                    cleared.received(),
                )
                &&& final(trackers)@ == cleared.trackers_after(settled)
            }),
            final(inner).wf(),
            old(inner)@.keeps(final(inner)@),
            old(trackers)@.wf() ==> final(trackers)@.wf(),
    {
        let emit = match event {
            HandlerEvent::Ready => None,
            HandlerEvent::Ended(outcome) => {
                inner.settle(self.subscription, trackers, outcome, self.source)
            },
        };
        proof {
            let before = old(inner)@;
            let id = self.subscription;
            before.lemma_same_subscription(id);
            before.lemma_replaced(
                id,
                before.subscription(id).cleared(),
                before_receiving(before.subscription(id), event).received(),
            );
        }
        let action = match inner.recv(self.subscription, trackers) {
            Received::Message(value) => HandlerAction::Run(value),
            Received::Empty => HandlerAction::Wait,
            Received::Closed => HandlerAction::Exit,
        };
        HandlerStep { emit, action }
    }

    /// The handler goes away.
    pub fn drop<V, E>(self, inner: &mut Inner<V, E>, trackers: &mut TrackerTable<E>)
        requires
            old(inner).wf(),
            old(inner)@.has(self.subscription),
            self.guard.relay == old(inner)@.id,
        ensures
            final(inner)@ == old(inner)@.unsubscribed(self.subscription).handler_gone(),
            final(trackers)@ == old(inner)@.subscription(self.subscription).trackers_at_drop(
                old(trackers)@,
            ),
            final(inner).wf(),
            old(inner)@.keeps_others(self.subscription, final(inner)@),
            old(trackers)@.wf() ==> final(trackers)@.wf(),
    {
        inner.unsubscribe(self.subscription, trackers);
        self.guard.drop(inner);
    }
}

/// A handle for subscribing to a relay.
///
/// It is `Clone`, and does not keep the relay open.
#[derive(Debug)]
pub struct RelayReceiver {
    /// The ID of the relay.
    pub relay: u64,
}

impl Clone for RelayReceiver {
    fn clone(&self) -> (r: RelayReceiver)
        ensures
            r == *self,
    {
        RelayReceiver { relay: self.relay }
    }
}

impl RelayReceiver {
    /// Subscribe to messages of one type.
    ///
    /// Returns the ID of a subscription that yields messages until the relay
    /// closes.
    pub fn subscribe<V, E>(&self, inner: &mut Inner<V, E>, wanted: TypeKey) -> (id: u64)
        requires
            self.relay == old(inner)@.id,
            old(inner)@.can_subscribe(),
        ensures
            id == old(inner)@.next_subscriber,
            final(inner)@ == old(inner)@.subscribed(Wanted::Only(wanted), false),
            old(inner).wf() ==> final(inner).wf(),
            final(inner)@.has(id),
            old(inner)@.keeps(final(inner)@),
    {
        inner.subscribe(Wanted::Only(wanted))
    }

    /// Subscribe to all messages regardless of type.
    pub fn subscribe_all<V, E>(&self, inner: &mut Inner<V, E>) -> (id: u64)
        requires
            self.relay == old(inner)@.id,
            old(inner)@.can_subscribe(),
        ensures
            id == old(inner)@.next_subscriber,
            final(inner)@ == old(inner)@.subscribed(Wanted::All, false),
            old(inner).wf() ==> final(inner).wf(),
            final(inner)@.has(id),
            old(inner)@.keeps(final(inner)@),
    {
        inner.subscribe(Wanted::All)
    }

    /// Subscribe to messages of one type, with completion tracking.
    ///
    /// The subscription is ready to receive messages at once. The relay counts
    /// one more handler; a [`HandlerGuard`] takes it off again.
    pub fn subscribe_tracked<V, E>(&self, inner: &mut Inner<V, E>, wanted: TypeKey) -> (id: u64)
        requires
            self.relay == old(inner)@.id,
            old(inner)@.can_subscribe(),
        ensures
            id == old(inner)@.next_subscriber,
            final(inner)@ == old(inner)@.subscribed_tracking(Wanted::Only(wanted)),
            old(inner).wf() ==> final(inner).wf(),
            final(inner)@.has(id),
            old(inner)@.keeps(final(inner)@),
    {
        inner.subscribe_tracked(Wanted::Only(wanted))
    }

    /// Check if the relay is closed.
    pub fn is_closed<V, E>(&self, inner: &Inner<V, E>) -> (r: bool)
        requires
            self.relay == inner@.id,
        ensures
            r == inner@.closed,
    {
        inner.is_closed()
    }

    /// Get the ID of the relay.
    pub fn id(&self) -> (r: u64)
        ensures
            r == self.relay,
    {
        self.relay
    }

    /// Attach a handler to messages of one type.
    fn attach<V, E>(
        &self,
        inner: &mut Inner<V, E>,
        wanted: TypeKey,
        source: &'static str,
    ) -> (task: HandlerTask)
        requires
            self.relay == old(inner)@.id,
            old(inner)@.can_subscribe(),
        ensures
            task == (HandlerTask {
                subscription: old(inner)@.next_subscriber,
                source,
                guard: HandlerGuard { relay: self.relay },
            }),
            final(inner)@ == old(inner)@.subscribed_tracking(Wanted::Only(wanted)),
            old(inner).wf() ==> final(inner).wf(),
            final(inner)@.has(task.subscription),
            old(inner)@.keeps(final(inner)@),
    {
        let subscription = self.subscribe_tracked(inner, wanted);
        HandlerTask { subscription, source, guard: HandlerGuard::new(self.relay) }
    }

    /// Attach a handler that consumes messages of one type.
    ///
    /// Senders wait for it. Its errors and panics go back to the sender, and
    /// through the relay.
    pub fn sink<V, E>(&self, inner: &mut Inner<V, E>, wanted: TypeKey) -> (task: HandlerTask)
        requires
            self.relay == old(inner)@.id,
            old(inner)@.can_subscribe(),
        ensures
            task == (HandlerTask {
                subscription: old(inner)@.next_subscriber,
                source: "sink",
                guard: HandlerGuard { relay: self.relay },
            }),
            final(inner)@ == old(inner)@.subscribed_tracking(Wanted::Only(wanted)),
            old(inner).wf() ==> final(inner).wf(),
            final(inner)@.has(task.subscription),
            old(inner)@.keeps(final(inner)@),
    {
        self.attach(inner, wanted, "sink")
    }

    /// Attach a handler that observes messages of one type.
    ///
    /// Like a sink, but its errors say where they come from.
    pub fn tap<V, E>(&self, inner: &mut Inner<V, E>, wanted: TypeKey) -> (task: HandlerTask)
        requires
            self.relay == old(inner)@.id,
            old(inner)@.can_subscribe(),
        ensures
            task == (HandlerTask {
                subscription: old(inner)@.next_subscriber,
                source: "tap",
                guard: HandlerGuard { relay: self.relay },
            }),
            final(inner)@ == old(inner)@.subscribed_tracking(Wanted::Only(wanted)),
            old(inner).wf() ==> final(inner).wf(),
            final(inner)@.has(task.subscription),
            old(inner)@.keeps(final(inner)@),
    {
        self.attach(inner, wanted, "tap")
    }

    /// A task of the program has ended: what to report of it, if it panicked.
    ///
    /// Unlike sinks and taps, such a task takes no part in completion
    /// tracking: no sender gets the error.
    pub fn within<E>(&self, ended: Result<(), PanicPayload>) -> (r: Option<RelayError<E>>)
        ensures
            match ended {
                Ok(()) => r is None,
                Err(payload) => HandlerOutcome::<E>::Panicked(payload).reported_as(
                    0,
                    "within",
                    r,
                ),
            },
    {
        match ended {
            Ok(()) => None,
            Err(payload) => Some(
                RelayError::new(0, Fault::Panicked(PanicError::new(payload)), "within"),
            ),
        }
    }
}

/// Creates relays.
#[derive(Clone, Copy, Debug)]
pub struct Relay;

impl Relay {
    /// Create a new relay, with mailboxes of the default size.
    ///
    /// Returns its state, its single owner, and a handle for subscribing.
    /// Dropping the owner closes the relay.
    pub fn channel<V, E>(ids: &mut RelayIds) -> (r: (Inner<V, E>, RelaySender, RelayReceiver))
        ensures
            r.0@ == RelayModel::<V, E>::fresh(old(ids).next, DEFAULT_CHANNEL_SIZE),
            r.0.wf(),
            r.0@.can_subscribe(),
            r.1.id() == r.0@.id,
            r.2.relay == r.0@.id,
            final(ids).next == old(ids).next.wrapping_add(1),
    {
        Self::channel_with_size(ids, DEFAULT_CHANNEL_SIZE)
    }

    /// Create a new relay, with mailboxes of the given size.
    pub fn channel_with_size<V, E>(
        ids: &mut RelayIds,
        channel_size: usize,
    ) -> (r: (Inner<V, E>, RelaySender, RelayReceiver))
        ensures
            r.0@ == RelayModel::<V, E>::fresh(old(ids).next, channel_size),
            r.0.wf(),
            r.1.id() == r.0@.id,
            r.2.relay == r.0@.id,
            final(ids).next == old(ids).next.wrapping_add(1),
    {
        let inner = Inner::new(ids, channel_size);
        let relay = inner.id();
        (inner, RelaySender { relay }, RelayReceiver { relay })
    }

    /// Create a relay whose owner and receiver are one handle, for tests.
    pub fn new<V, E>(ids: &mut RelayIds) -> (r: (Inner<V, E>, TestRelay))
        ensures
            r.0@ == RelayModel::<V, E>::fresh(old(ids).next, DEFAULT_CHANNEL_SIZE),
            r.0.wf(),
            r.0@.can_subscribe(),
            r.1.belongs_to(r.0@),
            final(ids).next == old(ids).next.wrapping_add(1),
    {
        let (inner, tx, rx) = Self::channel(ids);
        (inner, TestRelay { tx, rx })
    }

    /// As [`Relay::new`], with mailboxes of the given size.
    pub fn with_channel_size<V, E>(ids: &mut RelayIds, size: usize) -> (r: (
        Inner<V, E>,
        TestRelay,
    ))
        ensures
            r.0@ == RelayModel::<V, E>::fresh(old(ids).next, size),
            r.0.wf(),
            r.1.belongs_to(r.0@),
            final(ids).next == old(ids).next.wrapping_add(1),
    {
        let (inner, tx, rx) = Self::channel_with_size(ids, size);
        (inner, TestRelay { tx, rx })
    }
}

/// The owner and a receiver of one relay in one handle, for tests.
#[derive(Debug)]
pub struct TestRelay {
    /// The owner.
    pub tx: RelaySender,
    /// The receiver.
    pub rx: RelayReceiver,
}

impl Clone for TestRelay {
    fn clone(&self) -> (r: TestRelay)
        ensures
            r == *self,
    {
        TestRelay { tx: self.tx.clone_for_test(), rx: self.rx.clone() }
    }
}

impl TestRelay {
    /// Whether this is a handle to the given relay.
    pub open spec fn belongs_to<V, E>(self, relay: RelayModel<V, E>) -> bool {
        self.tx.id() == relay.id && self.rx.relay == relay.id
    }

    /// Send a message to all subscriptions.
    pub fn send<V, E>(
        &self,
        inner: &mut Inner<V, E>,
        value: Payload<V, E>,
    ) -> (r: Result<PendingSend<V, E>, SendError<E>>)
        requires
            self.belongs_to(old(inner)@),
        ensures
            (r, final(inner)@) == begun(
                old(inner)@,
                Arc::new(value),
                value.type_key(),
                old(inner)@.id,
            ),
            old(inner).wf() ==> final(inner).wf(),
            old(inner)@.keeps(final(inner)@),
    {
        self.tx.send(inner, value)
    }

    /// Subscribe to messages of one type.
    pub fn subscribe<V, E>(&self, inner: &mut Inner<V, E>, wanted: TypeKey) -> (id: u64)
        requires
            self.belongs_to(old(inner)@),
            old(inner)@.can_subscribe(),
        ensures
            id == old(inner)@.next_subscriber,
            final(inner)@ == old(inner)@.subscribed(Wanted::Only(wanted), false),
            old(inner).wf() ==> final(inner).wf(),
            final(inner)@.has(id),
            old(inner)@.keeps(final(inner)@),
    {
        self.rx.subscribe(inner, wanted)
    }

    /// Attach a handler that consumes messages of one type.
    pub fn sink<V, E>(&self, inner: &mut Inner<V, E>, wanted: TypeKey) -> (task: HandlerTask)
        requires
            self.belongs_to(old(inner)@),
            old(inner)@.can_subscribe(),
        ensures
            task == (HandlerTask {
                subscription: old(inner)@.next_subscriber,
                source: "sink",
                guard: HandlerGuard { relay: old(inner)@.id },
            }),
            final(inner)@ == old(inner)@.subscribed_tracking(Wanted::Only(wanted)),
            old(inner).wf() ==> final(inner).wf(),
            final(inner)@.has(task.subscription),
            old(inner)@.keeps(final(inner)@),
    {
        self.rx.sink(inner, wanted)
    }

    /// Attach a handler that observes messages of one type.
    pub fn tap<V, E>(&self, inner: &mut Inner<V, E>, wanted: TypeKey) -> (task: HandlerTask)
        requires
            self.belongs_to(old(inner)@),
            old(inner)@.can_subscribe(),
        ensures
            task == (HandlerTask {
                subscription: old(inner)@.next_subscriber,
                source: "tap",
                guard: HandlerGuard { relay: old(inner)@.id },
            }),
            final(inner)@ == old(inner)@.subscribed_tracking(Wanted::Only(wanted)),
            old(inner).wf() ==> final(inner).wf(),
            final(inner)@.has(task.subscription),
            old(inner)@.keeps(final(inner)@),
    {
        self.rx.tap(inner, wanted)
    }

    /// Check if the relay is closed.
    pub fn is_closed<V, E>(&self, inner: &Inner<V, E>) -> (r: bool)
        requires
            self.belongs_to(inner@),
        ensures
            r == inner@.closed,
    {
        self.tx.is_closed(inner)
    }

    /// Get the number of handlers that a sender waits for.
    pub fn handler_count<V, E>(&self, inner: &Inner<V, E>) -> (r: usize)
        requires
            self.belongs_to(inner@),
        ensures
            r == inner@.handler_count,
    {
        self.tx.handler_count(inner)
    }

    /// Close the relay.
    pub fn close<V, E>(&self, inner: &mut Inner<V, E>)
        requires
            self.belongs_to(old(inner)@),
        ensures
            final(inner)@ == old(inner)@.shut(),
            old(inner).wf() ==> final(inner).wf(),
            old(inner)@.keeps(final(inner)@),
    {
        self.tx.close(inner)
    }

    /// Send a shared message, with a declared type.
    pub fn send_any<V, E>(
        &self,
        inner: &mut Inner<V, E>,
        value: Arc<Payload<V, E>>,
        type_id: TypeKey,
    ) -> (r: Result<PendingSend<V, E>, SendError<E>>)
        requires
            self.belongs_to(old(inner)@),
        ensures
            (r, final(inner)@) == begun(
                old(inner)@,
                value,
                type_id,
                old(inner)@.id,
            ),
            old(inner).wf() ==> final(inner).wf(),
            old(inner)@.keeps(final(inner)@),
    {
        self.tx.send_any(inner, value, type_id)
    }

    /// Send an envelope that was made elsewhere.
    pub fn send_envelope<V, E>(
        &self,
        inner: &Inner<V, E>,
        envelope: Envelope<V, E>,
    ) -> (r: Result<PendingSend<V, E>, SendError<E>>)
        requires
            self.belongs_to(inner@),
        ensures
            r == forwarded(inner@, envelope),
    {
        self.tx.send_envelope(inner, envelope)
    }

    /// A task of the program has ended: what to report of it, if it panicked.
    pub fn within<E>(&self, ended: Result<(), PanicPayload>) -> (r: Option<RelayError<E>>)
        ensures
            match ended {
                Ok(()) => r is None,
                Err(payload) => HandlerOutcome::<E>::Panicked(payload).reported_as(
                    0,
                    "within",
                    r,
                ),
            },
    {
        self.rx.within(ended)
    }
}

/// What a handler may return.
pub trait IntoResult: Sized {
    /// Its error.
    type Error;

    /// The result that the returned value stands for.
    spec fn result(self) -> Result<(), Self::Error>;

    /// Turn the returned value into a result.
    fn into_result(self) -> (r: Result<(), Self::Error>)
        ensures
            r == self.result(),
    ;
}

impl IntoResult for () {
    type Error = std::convert::Infallible;

    open spec fn result(self) -> Result<(), std::convert::Infallible> {
        Ok(())
    }

    fn into_result(self) -> (r: Result<(), std::convert::Infallible>) {
        Ok(())
    }
}

impl<E> IntoResult for Result<(), E> {
    type Error = E;

    open spec fn result(self) -> Result<(), E> {
        self
    }

    fn into_result(self) -> (r: Result<(), E>) {
        self
    }
}

/// How a handler ended that returned a value or panicked.
pub fn handler_outcome<R: IntoResult>(run: Result<R, PanicPayload>) -> (r: HandlerOutcome<
    R::Error,
>)
    ensures
        r == (match run {
            Ok(value) => match value.result() {
                Ok(()) => HandlerOutcome::Completed,
                Err(e) => HandlerOutcome::Failed(e),
            },
            Err(payload) => HandlerOutcome::Panicked(payload),
        }),
{
    match run {
        Ok(value) => match value.into_result() {
            Ok(()) => HandlerOutcome::Completed,
            Err(e) => HandlerOutcome::Failed(e),
        },
        Err(payload) => HandlerOutcome::Panicked(payload),
    }
}

} // verus!
