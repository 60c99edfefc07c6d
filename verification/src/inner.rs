use std::sync::Arc;
use vstd::prelude::*;

use crate::envelope::{Envelope, Payload};
use crate::error::RelayError;
use crate::events::Dropped;
use crate::mailbox::{Fetched, Mailbox, MailboxModel, Offered};
use crate::subscription::{
    HandlerOutcome, Received, Subscription, SubscriptionModel, Wanted,
};
use crate::tracker::{TableModel, TrackerTable};
use crate::type_key::TypeKey;

verus! {

/// Where relays get their IDs from.
#[derive(Debug)]
pub struct RelayIds {
    /// The ID of the next relay.
    pub next: u64,
}

impl RelayIds {
    /// Start counting at 1: 0 stands for no relay.
    pub fn new() -> (r: RelayIds)
        ensures
            r.next == 1,
    {
        RelayIds { next: 1 }
    }
}

/// The ID of a new relay.
pub fn next_relay_id(ids: &mut RelayIds) -> (id: u64)
    ensures
        id == old(ids).next,
        final(ids).next == old(ids).next.wrapping_add(1),
{
    let id = ids.next;
    ids.next = id.wrapping_add(1);
    id
}

/// What a relay knows of one subscription.
#[verifier::ext_equal]
pub struct SubscriberModel<V, E> {
    /// The ID by which it is found.
    pub id: u64,
    /// The subscription itself.
    pub subscription: SubscriptionModel<V, E>,
}

impl<V, E> SubscriberModel<V, E> {
    /// A message was offered to it.
    pub open spec fn offered(self, envelope: Envelope<V, E>) -> SubscriberModel<V, E> {
        SubscriberModel { subscription: self.subscription.offered(envelope), ..self }
    }

    /// It is still connected, but its mailbox is full.
    pub open spec fn overflows(self) -> bool {
        self.subscription.mailbox.connected && !self.subscription.mailbox.takes()
    }

    /// A sender would wait for it, but it does not get the message.
    pub open spec fn misses(self) -> bool {
        self.subscription.tracking && !self.subscription.mailbox.takes()
    }
}

/// The subscriptions, after a message was offered to each of them.
pub open spec fn offered_to_all<V, E>(
    subscribers: Seq<SubscriberModel<V, E>>,
    envelope: Envelope<V, E>,
) -> Seq<SubscriberModel<V, E>> {
    subscribers.map_values(|s: SubscriberModel<V, E>| s.offered(envelope))
}

/// Whether some subscription has no room for a message.
pub open spec fn some_overflows<V, E>(subscribers: Seq<SubscriberModel<V, E>>) -> bool {
    exists|i: int| 0 <= i < subscribers.len() && #[trigger] subscribers[i].overflows()
}

/// Whether some handler does not get a message that is delivered now.
pub open spec fn some_misses<V, E>(subscribers: Seq<SubscriberModel<V, E>>) -> bool {
    exists|i: int| 0 <= i < subscribers.len() && #[trigger] subscribers[i].misses()
}

/// The trackers, after the message was completed once for each handler that
/// does not get it: nobody waits for those.
pub open spec fn passed_over<V, E>(
    subscribers: Seq<SubscriberModel<V, E>>,
    tracker: Option<u64>,
    trackers: TableModel<E>,
) -> TableModel<E>
    decreases subscribers.len(),
{
    if subscribers.len() == 0 {
        trackers
    } else {
        let rest = passed_over(subscribers.drop_last(), tracker, trackers);
        if subscribers.last().misses() {
            rest.completed_one(tracker)
        } else {
            rest
        }
    }
}

/// Where every handler gets the message, nobody is passed over.
pub proof fn lemma_nobody_passed_over<V, E>(
    subscribers: Seq<SubscriberModel<V, E>>,
    tracker: Option<u64>,
    trackers: TableModel<E>,
)
    ensures
        !some_misses(subscribers) || tracker is None ==> passed_over(
            subscribers,
            tracker,
            trackers,
        ) == trackers,
    decreases subscribers.len(),
{
    if subscribers.len() > 0 {
        let rest = subscribers.drop_last();
        if some_misses(rest) {
            let i = choose|i: int| 0 <= i < rest.len() && #[trigger] rest[i].misses();
            assert(subscribers[i].misses());
        }
        if subscribers.last().misses() {
            assert(subscribers[subscribers.len() - 1].misses());
        }
        lemma_nobody_passed_over(rest, tracker, trackers);
    }
}

/// The subscription with the given ID stands at position `i` of a list.
pub open spec fn stands_at<V, E>(
    subscribers: Seq<SubscriberModel<V, E>>,
    id: u64,
    i: int,
) -> bool {
    0 <= i < subscribers.len() && subscribers[i].id == id
}

/// What [`Inner`] holds.
#[verifier::ext_equal]
pub struct RelayModel<V, E> {
    /// The ID of the relay.
    pub id: u64,
    /// The subscriptions, in the order in which they were made.
    pub subscribers: Seq<SubscriberModel<V, E>>,
    /// The ID that the next subscription gets.
    pub next_subscriber: u64,
    /// How many messages a subscription holds.
    pub channel_size: usize,
    /// How many tasks are to signal that they are ready.
    pub pending_ready: usize,
    /// How many have.
    pub ready_count: usize,
    /// Whether those who wait for readiness are to be notified.
    pub ready_signal: bool,
    /// The ID that the next message gets.
    pub msg_id_counter: u64,
    /// How many handlers a sender waits for.
    pub handler_count: usize,
    /// Whether the relay is closed.
    pub closed: bool,
}

impl<V, E> RelayModel<V, E> {
    /// A relay that was just created.
    pub open spec fn fresh(id: u64, channel_size: usize) -> RelayModel<V, E> {
        RelayModel {
            id,
            subscribers: Seq::empty(),
            next_subscriber: 0,
            channel_size,
            pending_ready: 0,
            ready_count: 0,
            ready_signal: false,
            msg_id_counter: 0,
            handler_count: 0,
            closed: false,
        }
    }

    /// Subscriptions are listed by rising IDs, and they are connected exactly
    /// as long as the relay is open.
    pub open spec fn wf(self) -> bool {
        &&& forall|i: int, j: int|
            0 <= i < j < self.subscribers.len() ==> (#[trigger] self.subscribers[i]).id < (
            #[trigger] self.subscribers[j]).id
        &&& forall|i: int|
            0 <= i < self.subscribers.len() ==> (#[trigger] self.subscribers[i]).id
                < self.next_subscriber
        &&& forall|i: int|
            0 <= i < self.subscribers.len() ==> (
            #[trigger] self.subscribers[i]).subscription.mailbox.connected == !self.closed
    }

    /// Whether there is a subscription with the given ID.
    pub open spec fn has(self, id: u64) -> bool {
        exists|i: int| stands_at(self.subscribers, id, i)
    }

    /// Whether the subscriptions of this relay are there after a change.
    pub open spec fn keeps(self, after: RelayModel<V, E>) -> bool {
        forall|id: u64| self.has(id) ==> #[trigger] after.has(id)
    }

    /// Whether they are, all but one.
    pub open spec fn keeps_others(self, gone: u64, after: RelayModel<V, E>) -> bool {
        forall|id: u64| id != gone && self.has(id) ==> #[trigger] after.has(id)
    }

    /// The position of the subscription with the given ID.
    pub open spec fn position(self, id: u64) -> int {
        choose|i: int| stands_at(self.subscribers, id, i)
    }

    /// The subscription with the given ID.
    pub open spec fn subscription(self, id: u64) -> SubscriptionModel<V, E> {
        self.subscribers[self.position(id)].subscription
    }

    /// The subscription with the given ID has changed.
    pub open spec fn with_subscription(
        self,
        id: u64,
        subscription: SubscriptionModel<V, E>,
    ) -> RelayModel<V, E> {
        RelayModel {
            subscribers: self.subscribers.update(
                self.position(id),
                SubscriberModel { id, subscription },
            ),
            ..self
        }
    }

    /// Whether one more subscription can be made: the size of its mailbox must
    /// be one that a channel can have, and there must be an ID left for it.
    pub open spec fn can_subscribe(self) -> bool {
        &&& 1 <= self.channel_size <= crate::mailbox::max_capacity()
        &&& self.next_subscriber < u64::MAX
    }

    /// A new subscription. On a closed relay it is disconnected from the start.
    pub open spec fn subscribed(self, wanted: Wanted, tracking: bool) -> RelayModel<V, E> {
        RelayModel {
            subscribers: self.subscribers.push(
                SubscriberModel {
                    id: self.next_subscriber,
                    subscription: SubscriptionModel {
                        mailbox: MailboxModel {
                            queue: Seq::empty(),
                            capacity: self.channel_size as nat,
                            connected: !self.closed,
                        },
                        wanted,
                        tracking,
                        current_tracker: None,
                        current_msg_id: None,
                    },
                },
            ),
            next_subscriber: (self.next_subscriber + 1) as u64,
            ..self
        }
    }

    /// Whether all pending tasks have signaled ready.
    pub open spec fn is_ready(self) -> bool {
        self.ready_count >= self.pending_ready
    }

    /// An envelope without an origin gets this relay's ID for one.
    pub open spec fn stamped(self, envelope: Envelope<V, E>) -> Envelope<V, E> {
        if envelope.origin == 0 {
            Envelope { origin: self.id, ..envelope }
        } else {
            envelope
        }
    }

    /// The report that a message was dropped.
    pub open spec fn drop_notice(self, envelope: Envelope<V, E>) -> Envelope<V, E> {
        Envelope {
            value: Arc::new(
                Payload::Dropped(
                    Dropped {
                        msg_id: envelope.msg_id,
                        origin_stream_id: self.id,
                        event_type_name: envelope.value.spec_label(),
                    },
                ),
            ),
            type_id: TypeKey::Dropped,
            msg_id: envelope.msg_id,
            tracker: None,
            origin: self.id,
        }
    }

    /// A message was delivered: every connected subscription with room for it
    /// has it now. If one had no room, the drop is reported in the same way.
    pub open spec fn delivered(self, envelope: Envelope<V, E>) -> RelayModel<V, E> {
        let subscribers = offered_to_all(self.subscribers, envelope);
        RelayModel {
            subscribers: if some_overflows(self.subscribers) {
                offered_to_all(subscribers, self.drop_notice(envelope))
            } else {
                subscribers
            },
            ..self
        }
    }

    /// The trackers after the delivery of a message: a handler that did not get
    /// it is not waited for.
    pub open spec fn trackers_delivered(
        self,
        envelope: Envelope<V, E>,
        trackers: TableModel<E>,
    ) -> TableModel<E> {
        if some_misses(self.subscribers) {
            passed_over(self.subscribers, envelope.tracker, trackers)
        } else {
            trackers
        }
    }

    /// Whether a subscription has a message that is tracked under `key`, in its
    /// queue or in processing.
    pub open spec fn refers_to(self, key: u64) -> bool {
        exists|i: int|
            0 <= i < self.subscribers.len() && (
            #[trigger] self.subscribers[i]).subscription.refers_to(key)
    }

    /// The relay was closed.
    pub open spec fn shut(self) -> RelayModel<V, E> {
        RelayModel {
            subscribers: self.subscribers.map_values(
                |s: SubscriberModel<V, E>|
                    SubscriberModel { subscription: s.subscription.disconnected(), ..s },
            ),
            closed: true,
            ..self
        }
    }

    /// The subscription with the given ID is gone.
    pub open spec fn unsubscribed(self, id: u64) -> RelayModel<V, E> {
        RelayModel { subscribers: self.subscribers.remove(self.position(id)), ..self }
    }

    /// One more task is to signal that it is ready.
    pub open spec fn awaiting_one_more(self) -> RelayModel<V, E> {
        RelayModel { pending_ready: self.pending_ready.wrapping_add(1), ..self }
    }

    /// One more task has signaled that it is ready.
    pub open spec fn readied(self) -> RelayModel<V, E> {
        RelayModel {
            ready_count: self.ready_count.wrapping_add(1),
            ready_signal: true,
            ..self
        }
    }

    /// A new subscription that senders wait for. It is ready at once.
    pub open spec fn subscribed_tracking(self, wanted: Wanted) -> RelayModel<V, E> {
        let relay = self.subscribed(wanted, true);
        RelayModel {
            handler_count: self.handler_count.wrapping_add(1),
            ..relay.awaiting_one_more().readied()
        }
    }

    /// One handler less.
    pub open spec fn handler_gone(self) -> RelayModel<V, E> {
        RelayModel { handler_count: self.handler_count.wrapping_sub(1), ..self }
    }

    /// The envelope of a new message of this relay.
    pub open spec fn envelope(
        self,
        value: Arc<Payload<V, E>>,
        type_id: TypeKey,
        origin: u64,
    ) -> Envelope<V, E> {
        Envelope { value, type_id, msg_id: self.msg_id_counter, tracker: None, origin }
    }

    /// The message is tracked: those that complete it are the handlers of this
    /// moment.
    pub open spec fn with_tracker(
        self,
        envelope: Envelope<V, E>,
        trackers: TableModel<E>,
    ) -> (Envelope<V, E>, TableModel<E>) {
        (
            Envelope { tracker: Some(trackers.next), ..envelope },
            trackers.created(self.handler_count as nat),
        )
    }

    /// A message ID was used.
    pub open spec fn numbered(self) -> RelayModel<V, E> {
        RelayModel { msg_id_counter: self.msg_id_counter.wrapping_add(1), ..self }
    }

    /// Subscriptions are there as long as their IDs stay in place.
    pub proof fn lemma_keeps(self, after: RelayModel<V, E>)
        requires
            self.subscribers.len() <= after.subscribers.len(),
            forall|i: int|
                0 <= i < self.subscribers.len() ==> (#[trigger] after.subscribers[i]).id
                    == self.subscribers[i].id,
        ensures
            self.keeps(after),
    {
        assert forall|id: u64| self.has(id) implies #[trigger] after.has(id) by {
            let i = self.position(id);
            assert(stands_at(self.subscribers, id, i));
            assert(after.subscribers[i].id == id);
            assert(stands_at(after.subscribers, id, i));
        }
    }

    /// Putting a subscription in its own place changes nothing.
    pub proof fn lemma_same_subscription(self, id: u64)
        requires
            self.has(id),
        ensures
            self.with_subscription(id, self.subscription(id)) == self,
    {
        assert(stands_at(self.subscribers, id, self.position(id)));
        assert(self.with_subscription(id, self.subscription(id)).subscribers
            =~= self.subscribers);
    }

    /// Of two changes to one subscription, the second counts.
    pub proof fn lemma_replaced(
        self,
        id: u64,
        first: SubscriptionModel<V, E>,
        second: SubscriptionModel<V, E>,
    )
        requires
            self.wf(),
            self.has(id),
        ensures
            self.with_subscription(id, first).has(id),
            self.with_subscription(id, first).subscription(id) == first,
            self.with_subscription(id, first).with_subscription(id, second)
                == self.with_subscription(id, second),
    {
        let i = self.position(id);
        let middle = self.with_subscription(id, first);
        assert(stands_at(self.subscribers, id, i));
        assert(stands_at(middle.subscribers, id, i));
        let p = middle.position(id);
        assert(stands_at(middle.subscribers, id, p));
        assert(stands_at(self.subscribers, id, p));
        lemma_position(self, id, p);
        assert(middle.with_subscription(id, second).subscribers =~= self.with_subscription(
            id,
            second,
        ).subscribers);
    }
}

/// One subscription of a relay.
#[verifier::reject_recursive_types(V)]
#[verifier::reject_recursive_types(E)]
struct Subscriber<V, E> {
    id: u64,
    subscription: Subscription<V, E>,
}

impl<V, E> View for Subscriber<V, E> {
    type V = SubscriberModel<V, E>;

    closed spec fn view(&self) -> SubscriberModel<V, E> {
        SubscriberModel { id: self.id, subscription: self.subscription@ }
    }
}

/// The state of a relay, shared by its senders, receivers and subscriptions.
#[verifier::reject_recursive_types(V)]
#[verifier::reject_recursive_types(E)]
pub struct Inner<V, E> {
    id: u64,
    subscribers: Vec<Subscriber<V, E>>,
    next_subscriber: u64,
    channel_size: usize,
    pending_ready: usize,
    ready_count: usize,
    ready_signal: bool,
    msg_id_counter: u64,
    handler_count: usize,
    closed: bool,
}

impl<V, E> View for Inner<V, E> {
    type V = RelayModel<V, E>;

    closed spec fn view(&self) -> RelayModel<V, E> {
        RelayModel {
            id: self.id,
            subscribers: self.subscribers@.map_values(|s: Subscriber<V, E>| s@),
            next_subscriber: self.next_subscriber,
            channel_size: self.channel_size,
            pending_ready: self.pending_ready,
            ready_count: self.ready_count,
            ready_signal: self.ready_signal,
            msg_id_counter: self.msg_id_counter,
            handler_count: self.handler_count,
            closed: self.closed,
        }
    }
}

/// IDs tell subscriptions apart.
pub proof fn lemma_position<V, E>(relay: RelayModel<V, E>, id: u64, i: int)
    requires
        relay.wf(),
        stands_at(relay.subscribers, id, i),
    ensures
        relay.has(id),
        relay.position(id) == i,
{
    let p = relay.position(id);
    assert(stands_at(relay.subscribers, id, p));
    if p < i {
        assert(relay.subscribers[p].id < relay.subscribers[i].id);
    } else if i < p {
        assert(relay.subscribers[i].id < relay.subscribers[p].id);
    }
}

impl<V, E> Inner<V, E> {
    /// Every subscription is well-formed.
    pub closed spec fn sound(&self) -> bool {
        forall|i: int|
            0 <= i < self.subscribers@.len() ==> (
            #[trigger] self.subscribers@[i]).subscription.wf()
    }

    /// The relay is well-formed, and so is every subscription.
    pub open spec fn wf(&self) -> bool {
        self@.wf() && self.sound()
    }

    /// One subscription has changed, and nothing else.
    proof fn lemma_updated(self, before: Inner<V, E>, id: u64, i: int)
        requires
            before.wf(),
            before@.has(id),
            i == before@.position(id),
            self.subscribers@.len() == before.subscribers@.len(),
            self.subscribers@[i].id == id,
            forall|j: int|
                0 <= j < before.subscribers@.len() && j != i ==> self.subscribers@[j]
                    == before.subscribers@[j],
            self@ == (RelayModel { subscribers: self@.subscribers, ..before@ }),
            self.subscribers@[i]@.subscription.mailbox.connected == !before@.closed,
            self.subscribers@[i].subscription.wf(),
        ensures
            self@ == before@.with_subscription(id, self.subscribers@[i].subscription@),
            self.wf(),
            before@.keeps(self@),
    {
        assert(stands_at(before@.subscribers, id, i));
        let after = before@.with_subscription(id, self.subscribers@[i].subscription@);
        assert(self@.subscribers =~= after.subscribers);
        assert forall|j: int| 0 <= j < self@.subscribers.len() implies (
        #[trigger] self@.subscribers[j]).id == before@.subscribers[j].id by {}
        before@.lemma_keeps(self@);
    }

    /// The state of a new relay.
    pub fn new(ids: &mut RelayIds, channel_size: usize) -> (r: Inner<V, E>)
        ensures
            r@ == RelayModel::<V, E>::fresh(old(ids).next, channel_size),
            r.wf(),
            final(ids).next == old(ids).next.wrapping_add(1),
    {
        let r = Inner {
            id: next_relay_id(ids),
            subscribers: Vec::new(),
            next_subscriber: 0,
            channel_size,
            pending_ready: 0,
            ready_count: 0,
            ready_signal: false,
            msg_id_counter: 0,
            handler_count: 0,
            closed: false,
        };
        assert(r@.subscribers =~= Seq::empty());
        r
    }

    /// Offer a message to every subscription, and complete it for the handlers
    /// that do not get it.
    ///
    /// Returns whether one of the mailboxes is full.
    fn offer_to_all(
        &mut self,
        envelope: &Envelope<V, E>,
        trackers: &mut TrackerTable<E>,
    ) -> (lost: bool)
        ensures
            final(self)@ == (RelayModel {
                subscribers: offered_to_all(old(self)@.subscribers, *envelope),
                ..old(self)@
            }),
            final(trackers)@ == passed_over(
                old(self)@.subscribers,
                envelope.tracker,
                old(trackers)@,
            ),
            old(trackers)@.wf() ==> final(trackers)@.wf(),
            lost == some_overflows(old(self)@.subscribers),
            old(self).sound() ==> final(self).sound(),
    {
        let mut lost = false;
        let mut i: usize = 0;
        let ghost before = self@;
        while i < self.subscribers.len()
            invariant
                i <= self.subscribers@.len(),
                before == old(self)@,
                self@ == (RelayModel { subscribers: self@.subscribers, ..before }),
                self@.subscribers.len() == before.subscribers.len(),
                self.subscribers@.len() == before.subscribers.len(),
                forall|j: int|
                    0 <= j < i ==> #[trigger] self@.subscribers[j]
                        == before.subscribers[j].offered(*envelope),
                forall|j: int|
                    i <= j < before.subscribers.len() ==> #[trigger] self@.subscribers[j]
                        == before.subscribers[j],
                trackers@ == passed_over(
                    before.subscribers.take(i as int),
                    envelope.tracker,
                    old(trackers)@,
                ),
                old(trackers)@.wf() ==> trackers@.wf(),
                lost == exists|j: int| 0 <= j < i && #[trigger] before.subscribers[j].overflows(),
                old(self).sound() ==> self.sound(),
            decreases self.subscribers.len() - i,
        {
            let ghost list = self.subscribers@;
            let ghost seen = self@.subscribers;
            let ghost whole = *self;
            assert(seen[i as int] == before.subscribers[i as int]);
            assert(list[i as int]@ == seen[i as int]);
            let waited_for = self.subscribers[i].subscription.is_tracked();
            let answer = self.subscribers[i].subscription.offer(envelope.clone());
            assert(self.subscribers@ =~= list.update(i as int, self.subscribers@[i as int]));
            assert(self@.subscribers =~= seen.update(
                i as int,
                before.subscribers[i as int].offered(*envelope),
            ));
            assert(whole.sound() ==> list[i as int].subscription.wf());
            assert(before.subscribers.take(i as int + 1).drop_last()
                =~= before.subscribers.take(i as int));
            assert(before.subscribers.take(i as int + 1).last() == before.subscribers[i as int]);
            match answer {
                Offered::Taken => {},
                Offered::Full => {
                    lost = true;
                    if waited_for {
                        trackers.complete_one(envelope.tracker());
                    }
                },
                Offered::Disconnected => {
                    if waited_for {
                        trackers.complete_one(envelope.tracker());
                    }
                },
            }
            assert((answer is Full) == before.subscribers[i as int].overflows());
            i = i + 1;
        }
        assert(self@.subscribers =~= offered_to_all(before.subscribers, *envelope));
        assert(before.subscribers.take(i as int) =~= before.subscribers);
        lost
    }

    /// Deliver a message to every subscription with room for it.
    ///
    /// A subscription without room misses the message, and no sender waits for
    /// it: where it is that of a handler, the message is completed at once. The
    /// drop is reported to all subscriptions, as far as they have room.
    pub fn deliver(&mut self, envelope: &Envelope<V, E>, trackers: &mut TrackerTable<E>)
        ensures
            final(self)@ == old(self)@.delivered(*envelope),
            final(trackers)@ == old(self)@.trackers_delivered(*envelope, old(trackers)@),
            old(self).wf() ==> final(self).wf(),
            old(self)@.keeps(final(self)@),
            old(trackers)@.wf() ==> final(trackers)@.wf(),
    {
        let lost = self.offer_to_all(envelope, trackers);
        proof {
            lemma_nobody_passed_over(old(self)@.subscribers, envelope.tracker, old(trackers)@);
        }
        if lost {
            let notice = Envelope {
                value: Arc::new(
                    Payload::Dropped(
                        Dropped {
                            msg_id: envelope.msg_id,
                            origin_stream_id: self.id,
                            event_type_name: envelope.value.label(),
                        },
                    ),
                ),
                type_id: TypeKey::Dropped,
                msg_id: envelope.msg_id,
                tracker: None,
                origin: self.id,
            };
            let ghost middle = self@.subscribers;
            let ghost settled = trackers@;
            self.offer_to_all(&notice, trackers);
            proof {
                lemma_nobody_passed_over(middle, notice.tracker, settled);
            }
        }
        proof {
            old(self)@.lemma_keeps(self@);
        }
    }

    /// The ID of the relay.
    pub fn id(&self) -> (r: u64)
        ensures
            r == self@.id,
    {
        self.id
    }

    /// How many handlers a sender waits for.
    pub fn handler_count(&self) -> (r: usize)
        ensures
            r == self@.handler_count,
    {
        self.handler_count
    }

    /// Whether the relay is closed.
    pub fn is_closed(&self) -> (r: bool)
        ensures
            r == self@.closed,
    {
        self.closed
    }

    /// Close the relay: it takes no more messages, and its subscriptions end
    /// once they have received what was delivered.
    pub fn close(&mut self)
        ensures
            final(self)@ == old(self)@.shut(),
            old(self).wf() ==> final(self).wf(),
            old(self)@.keeps(final(self)@),
    {
        self.closed = true;
        let mut i: usize = 0;
        let ghost before = old(self)@;
        while i < self.subscribers.len()
            invariant
                i <= self.subscribers@.len(),
                before == old(self)@,
                self@ == (RelayModel { subscribers: self@.subscribers, closed: true, ..before }),
                self@.subscribers.len() == before.subscribers.len(),
                self.subscribers@.len() == before.subscribers.len(),
                forall|j: int|
                    0 <= j < i ==> #[trigger] self@.subscribers[j] == before.shut().subscribers[j],
                forall|j: int|
                    i <= j < before.subscribers.len() ==> #[trigger] self@.subscribers[j]
                        == before.subscribers[j],
                old(self).sound() ==> self.sound(),
            decreases self.subscribers.len() - i,
        {
            let ghost list = self.subscribers@;
            let ghost seen = self@.subscribers;
            let ghost whole = *self;
            assert(seen[i as int] == before.subscribers[i as int]);
            assert(list[i as int]@ == seen[i as int]);
            assert(whole.sound() ==> list[i as int].subscription.wf());
            self.subscribers[i].subscription.disconnect();
            assert(self.subscribers@ =~= list.update(i as int, self.subscribers@[i as int]));
            assert(self@.subscribers =~= seen.update(
                i as int,
                before.shut().subscribers[i as int],
            ));
            i = i + 1;
        }
        assert(self@.subscribers =~= before.shut().subscribers);
        proof {
            before.lemma_keeps(self@);
        }
    }

    /// The position of the subscription with the given ID.
    fn find(&self, id: u64) -> (r: Option<usize>)
        requires
            self.wf(),
        ensures
            r is Some <==> self@.has(id),
            r matches Some(i) ==> i == self@.position(id) && i < self.subscribers@.len()
                && self.subscribers@[i as int].id == id,
    {
        let mut i: usize = 0;
        while i < self.subscribers.len()
            invariant
                i <= self.subscribers@.len(),
                self.wf(),
                forall|j: int| 0 <= j < i ==> !stands_at(self@.subscribers, id, j),
            decreases self.subscribers.len() - i,
        {
            assert(self@.subscribers[i as int] == self.subscribers@[i as int]@);
            if self.subscribers[i].id == id {
                proof {
                    lemma_position(self@, id, i as int);
                }
                return Some(i);
            }
            i = i + 1;
        }
        None
    }

    /// Whether there is a subscription with the given ID.
    pub fn has(&self, id: u64) -> (r: bool)
        requires
            self.wf(),
        ensures
            r == self@.has(id),
    {
        self.find(id).is_some()
    }

    /// Whether one more subscription can be made.
    pub fn can_subscribe(&self) -> (r: bool)
        ensures
            r == self@.can_subscribe(),
    {
        1 <= self.channel_size && self.channel_size <= usize::MAX / 8 && self.next_subscriber
            < u64::MAX
    }

    /// Make a subscription.
    ///
    /// On a closed relay it yields nothing and ends at once.
    fn add(&mut self, wanted: Wanted, tracking: bool) -> (id: u64)
        requires
            old(self)@.can_subscribe(),
        ensures
            id == old(self)@.next_subscriber,
            final(self)@ == old(self)@.subscribed(wanted, tracking),
            old(self).wf() ==> final(self).wf(),
            final(self)@.has(id),
            old(self)@.keeps(final(self)@),
    {
        let id = self.next_subscriber;
        self.next_subscriber = id + 1;
        let mut mailbox = Mailbox::open(self.channel_size);
        if self.closed {
            mailbox.disconnect();
        }
        let subscription = if tracking {
            Subscription::new_tracked(mailbox, wanted)
        } else {
            Subscription::new(mailbox, wanted)
        };
        self.subscribers.push(Subscriber { id, subscription });
        assert(self@.subscribers =~= old(self)@.subscribed(wanted, tracking).subscribers);
        assert(stands_at(self@.subscribers, id, old(self)@.subscribers.len() as int));
        proof {
            old(self)@.lemma_keeps(self@);
        }
        id
    }

    /// Make a subscription that no sender waits for.
    pub fn subscribe(&mut self, wanted: Wanted) -> (id: u64)
        requires
            old(self)@.can_subscribe(),
        ensures
            id == old(self)@.next_subscriber,
            final(self)@ == old(self)@.subscribed(wanted, false),
            old(self).wf() ==> final(self).wf(),
            final(self)@.has(id),
            old(self)@.keeps(final(self)@),
    {
        self.add(wanted, false)
    }

    /// Make a subscription that senders wait for.
    ///
    /// It is ready to receive messages at once.
    pub fn subscribe_tracked(&mut self, wanted: Wanted) -> (id: u64)
        requires
            old(self)@.can_subscribe(),
        ensures
            id == old(self)@.next_subscriber,
            final(self)@ == old(self)@.subscribed_tracking(wanted),
            old(self).wf() ==> final(self).wf(),
            final(self)@.has(id),
            old(self)@.keeps(final(self)@),
    {
        let id = self.add(wanted, true);
        self.handler_count = self.handler_count.wrapping_add(1);
        let mut ready_guard = ReadyGuard::new(self);
        ready_guard.signal(self);
        proof {
            old(self)@.lemma_keeps(self@);
        }
        id
    }

    /// Receive the next message that a subscription wants, if one is there.
    pub fn recv(&mut self, id: u64, trackers: &mut TrackerTable<E>) -> (r: Received<V, E>)
        requires
            old(self).wf(),
            old(self)@.has(id),
        ensures
            r == old(self)@.subscription(id).yields(),
            final(self)@ == old(self)@.with_subscription(
                id,
                old(self)@.subscription(id).received(),
            ),
            final(trackers)@ == old(self)@.subscription(id).trackers_after(old(trackers)@),
            final(self).wf(),
            old(trackers)@.wf() ==> final(trackers)@.wf(),
            old(self)@.keeps(final(self)@),
    {
        match self.find(id) {
            Some(i) => {
                let r = self.subscribers[i].subscription.recv(trackers);
                proof {
                    self.lemma_updated(*old(self), id, i as int);
                }
                r
            },
            None => Received::Closed,
        }
    }

    /// Receive the next message that a subscription wants, without waiting.
    pub fn try_recv(
        &mut self,
        id: u64,
        trackers: &mut TrackerTable<E>,
    ) -> (r: Option<Arc<Payload<V, E>>>)
        requires
            old(self).wf(),
            old(self)@.has(id),
        ensures
            r == (if old(self)@.subscription(id).has_message() {
                Some(old(self)@.subscription(id).next_message().value)
            } else {
                None
            }),
            final(self)@ == old(self)@.with_subscription(
                id,
                old(self)@.subscription(id).received(),
            ),
            final(trackers)@ == old(self)@.subscription(id).trackers_after(old(trackers)@),
            final(self).wf(),
            old(trackers)@.wf() ==> final(trackers)@.wf(),
            old(self)@.keeps(final(self)@),
    {
        match self.find(id) {
            Some(i) => {
                let r = self.subscribers[i].subscription.try_recv(trackers);
                proof {
                    self.lemma_updated(*old(self), id, i as int);
                }
                r
            },
            None => None,
        }
    }

    /// Take the next message of a subscription, whatever its type.
    pub fn recv_envelope(&mut self, id: u64) -> (r: Fetched<Envelope<V, E>>)
        requires
            old(self).wf(),
            old(self)@.has(id),
        ensures
            r == old(self)@.subscription(id).fetches(),
            final(self)@ == old(self)@.with_subscription(
                id,
                old(self)@.subscription(id).fetched(),
            ),
            final(self).wf(),
            old(self)@.keeps(final(self)@),
    {
        match self.find(id) {
            Some(i) => {
                let r = self.subscribers[i].subscription.recv_envelope();
                proof {
                    self.lemma_updated(*old(self), id, i as int);
                }
                r
            },
            None => Fetched::Disconnected,
        }
    }

    /// Whether a subscription takes part in completion tracking.
    pub fn is_tracked(&self, id: u64) -> (r: bool)
        requires
            self.wf(),
            self@.has(id),
        ensures
            r == self@.subscription(id).tracking,
    {
        match self.find(id) {
            Some(i) => self.subscribers[i].subscription.is_tracked(),
            None => false,
        }
    }

    /// The tracker of the message that a subscription is processing.
    pub fn current_tracker(&self, id: u64) -> (r: Option<u64>)
        requires
            self.wf(),
            self@.has(id),
        ensures
            r == self@.subscription(id).current_tracker,
    {
        match self.find(id) {
            Some(i) => self.subscribers[i].subscription.current_tracker(),
            None => None,
        }
    }

    /// The ID of the message that a subscription is processing.
    pub fn current_msg_id(&self, id: u64) -> (r: Option<u64>)
        requires
            self.wf(),
            self@.has(id),
        ensures
            r == self@.subscription(id).current_msg_id,
    {
        match self.find(id) {
            Some(i) => self.subscribers[i].subscription.current_msg_id(),
            None => None,
        }
    }

    /// Forget the message that a subscription is processing.
    pub fn clear_tracker(&mut self, id: u64)
        requires
            old(self).wf(),
            old(self)@.has(id),
        ensures
            final(self)@ == old(self)@.with_subscription(
                id,
                old(self)@.subscription(id).cleared(),
            ),
            final(self).wf(),
            old(self)@.keeps(final(self)@),
    {
        if let Some(i) = self.find(id) {
            self.subscribers[i].subscription.clear_tracker();
            proof {
                self.lemma_updated(*old(self), id, i as int);
            }
        }
    }

    /// The handler behind a subscription has ended.
    pub fn settle(
        &mut self,
        id: u64,
        trackers: &mut TrackerTable<E>,
        outcome: HandlerOutcome<E>,
        source: &'static str,
    ) -> (r: Option<RelayError<E>>)
        requires
            old(self).wf(),
            old(self)@.has(id),
        ensures
            final(self)@ == old(self)@.with_subscription(
                id,
                old(self)@.subscription(id).cleared(),
            ),
            final(self).wf(),
            old(self)@.keeps(final(self)@),
            outcome.reported_as(old(self)@.subscription(id).report_id(), source, r),
            final(trackers)@ == old(self)@.subscription(id).trackers_settled(old(trackers)@, r),
            old(trackers)@.wf() ==> final(trackers)@.wf(),
    {
        match self.find(id) {
            Some(i) => {
                let r = self.subscribers[i].subscription.settle(trackers, outcome, source);
                proof {
                    self.lemma_updated(*old(self), id, i as int);
                }
                r
            },
            None => None,
        }
    }

    /// A subscription goes away.
    pub fn unsubscribe(&mut self, id: u64, trackers: &mut TrackerTable<E>)
        requires
            old(self).wf(),
            old(self)@.has(id),
        ensures
            final(self)@ == old(self)@.unsubscribed(id),
            final(trackers)@ == old(self)@.subscription(id).trackers_at_drop(old(trackers)@),
            final(self).wf(),
            old(trackers)@.wf() ==> final(trackers)@.wf(),
            old(self)@.keeps_others(id, final(self)@),
    {
        if let Some(i) = self.find(id) {
            let subscriber = self.subscribers.remove(i);
            subscriber.subscription.drop(trackers);
            assert(self@.subscribers =~= old(self)@.unsubscribed(id).subscribers);
            assert(stands_at(old(self)@.subscribers, id, i as int));
            assert forall|j: int| 0 <= j < self@.subscribers.len() implies (
            #[trigger] self@.subscribers[j]) == old(self)@.subscribers[if j < i {
                j
            } else {
                j + 1
            }] by {}
            assert forall|other: u64| other != id && old(self)@.has(other) implies
                #[trigger] self@.has(other) by {
                let j = old(self)@.position(other);
                assert(stands_at(old(self)@.subscribers, other, j));
                assert(stands_at(self@.subscribers, other, if j < i { j } else { j - 1 }));
            }
        }
    }

    /// Whether a subscription has a message that is tracked under `key`, in its
    /// mailbox or in processing.
    pub fn refers_to(&self, key: u64) -> (r: bool)
        requires
            self.wf(),
        ensures
            r == self@.refers_to(key),
    {
        let mut i: usize = 0;
        while i < self.subscribers.len()
            invariant
                i <= self.subscribers@.len(),
                self.wf(),
                forall|j: int|
                    0 <= j < i ==> !(#[trigger] self@.subscribers[j]).subscription.refers_to(key),
            decreases self.subscribers.len() - i,
        {
            assert(self@.subscribers[i as int] == self.subscribers@[i as int]@);
            if self.subscribers[i].subscription.refers_to(key) {
                return true;
            }
            i = i + 1;
        }
        false
    }

    /// The ID of a new message.
    pub fn next_msg_id(&mut self) -> (id: u64)
        ensures
            id == old(self)@.msg_id_counter,
            final(self)@ == old(self)@.numbered(),
            old(self).wf() ==> final(self).wf(),
            old(self)@.keeps(final(self)@),
    {
        let id = self.msg_id_counter;
        self.msg_id_counter = id.wrapping_add(1);
        id
    }

    /// One handler less.
    pub fn remove_handler(&mut self)
        ensures
            final(self)@ == old(self)@.handler_gone(),
            old(self).wf() ==> final(self).wf(),
            old(self)@.keeps(final(self)@),
    {
        self.handler_count = self.handler_count.wrapping_sub(1);
    }

    /// Whether all pending tasks have signaled ready.
    pub fn is_ready(&self) -> (r: bool)
        ensures
            r == self@.is_ready(),
    {
        self.ready_count >= self.pending_ready
    }

    /// Decide what a task does that waits for readiness.
    ///
    /// It registers for a notification before it looks a second time, so that
    /// no signal goes unnoticed.
    pub fn wait_ready(&self, point: WaitPoint) -> (r: WaitAction)
        ensures
            r == wait_action(self@.is_ready(), point),
    {
        if self.is_ready() {
            return WaitAction::Proceed;
        }
        match point {
            WaitPoint::Entered => WaitAction::Register,
            WaitPoint::Registered => WaitAction::Await,
        }
    }

    /// Whether those who wait for readiness are to be notified, since this was
    /// last asked.
    pub fn take_ready_signal(&mut self) -> (r: bool)
        ensures
            r == old(self)@.ready_signal,
            final(self)@ == (RelayModel { ready_signal: false, ..old(self)@ }),
            old(self).wf() ==> final(self).wf(),
            old(self)@.keeps(final(self)@),
    {
        let r = self.ready_signal;
        self.ready_signal = false;
        r
    }
}

/// Whether nobody refers to the tracker under `key`: no relay has a message with
/// it, in a mailbox or in processing, and it is not among the keys that are kept.
pub open spec fn unreferenced<V, E>(
    relays: Seq<&Inner<V, E>>,
    kept: Seq<u64>,
    key: u64,
) -> bool {
    &&& forall|i: int| 0 <= i < relays.len() ==> !(#[trigger] relays[i])@.refers_to(key)
    &&& !kept.contains(key)
}

/// Let go of a tracker that nobody refers to any more.
///
/// `relays` are the relays that may have got an envelope with this tracker, and
/// `kept` the trackers of envelopes that were handed out and of sendings under
/// way. A tracker that one of them refers to stays.
///
/// Returns whether the tracker is gone.
pub fn release_tracker<V, E>(
    relays: &Vec<&Inner<V, E>>,
    kept: &Vec<u64>,
    trackers: &mut TrackerTable<E>,
    key: u64,
) -> (released: bool)
    requires
        forall|i: int| 0 <= i < relays@.len() ==> (#[trigger] relays@[i]).wf(),
    ensures
        released == unreferenced(relays@, kept@, key),
        final(trackers)@ == (if released {
            old(trackers)@.released(key)
        } else {
            old(trackers)@
        }),
        old(trackers)@.wf() ==> final(trackers)@.wf(),
{
    let mut i: usize = 0;
    while i < relays.len()
        invariant
            i <= relays@.len(),
            forall|j: int| 0 <= j < relays@.len() ==> (#[trigger] relays@[j]).wf(),
            forall|j: int| 0 <= j < i ==> !(#[trigger] relays@[j])@.refers_to(key),
        decreases relays.len() - i,
    {
        assert(relays@[i as int].wf());
        if relays[i].refers_to(key) {
            return false;
        }
        i = i + 1;
    }
    let mut j: usize = 0;
    while j < kept.len()
        invariant
            j <= kept@.len(),
            forall|k: int| 0 <= k < j ==> #[trigger] kept@[k] != key,
        decreases kept.len() - j,
    {
        if kept[j] == key {
            assert(kept@[j as int] == key);
            return false;
        }
        j = j + 1;
    }
    trackers.release(key);
    true
}

/// Where a task stands that waits for readiness.
#[derive(Clone, Copy, Debug)]
pub enum WaitPoint {
    /// It has begun to wait, or was notified.
    Entered,
    /// It has registered for a notification.
    Registered,
}

/// What a task does that waits for readiness.
#[derive(Clone, Copy, Debug, PartialEq, Eq)]
pub enum WaitAction {
    /// Everything is ready.
    Proceed,
    /// Register for a notification, and look again.
    Register,
    /// Await the notification.
    Await,
}

/// The next step of waiting for readiness.
pub open spec fn wait_action(ready: bool, point: WaitPoint) -> WaitAction {
    match point {
        _ if ready => WaitAction::Proceed,
        WaitPoint::Entered => WaitAction::Register,
        WaitPoint::Registered => WaitAction::Await,
    }
}

/// Ensures that a task signals ready, once.
#[derive(Debug)]
pub struct ReadyGuard {
    relay: u64,
    signaled: bool,
}

impl ReadyGuard {
    /// Whether the task has signaled.
    pub closed spec fn is_signaled(self) -> bool {
        self.signaled
    }

    /// The ID of the relay that waits for the task.
    pub closed spec fn relay(self) -> u64 {
        self.relay
    }

    /// One more task is to signal ready.
    pub fn new<V, E>(inner: &mut Inner<V, E>) -> (r: ReadyGuard)
        ensures
            !r.is_signaled(),
            r.relay() == old(inner)@.id,
            final(inner)@ == old(inner)@.awaiting_one_more(),
            old(inner).wf() ==> final(inner).wf(),
            old(inner)@.keeps(final(inner)@),
    {
        inner.pending_ready = inner.pending_ready.wrapping_add(1);
        ReadyGuard { relay: inner.id, signaled: false }
    }

    /// Signal that the task is ready to receive messages.
    pub fn signal<V, E>(&mut self, inner: &mut Inner<V, E>)
        requires
            old(self).relay() == old(inner)@.id,
        ensures
            final(self).is_signaled(),
            final(self).relay() == old(self).relay(),
            final(inner)@ == (if old(self).is_signaled() {
                old(inner)@
            } else {
                old(inner)@.readied()
            }),
            old(inner).wf() ==> final(inner).wf(),
            old(inner)@.keeps(final(inner)@),
    {
        if !self.signaled {
            self.signaled = true;
            inner.ready_count = inner.ready_count.wrapping_add(1);
            inner.ready_signal = true;
        }
    }

    /// The guard goes away: signal ready even if the task panicked or was
    /// cancelled.
    pub fn drop<V, E>(self, inner: &mut Inner<V, E>)
        requires
            self.relay() == old(inner)@.id,
        ensures
            final(inner)@ == (if self.is_signaled() {
                old(inner)@
            } else {
                old(inner)@.readied()
            }),
            old(inner).wf() ==> final(inner).wf(),
            old(inner)@.keeps(final(inner)@),
    {
        let mut guard = self;
        guard.signal(inner);
    }
}

} // verus!
