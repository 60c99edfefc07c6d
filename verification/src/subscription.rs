use std::collections::HashMap;
use std::sync::Arc;
use vstd::prelude::*;

use crate::envelope::{Envelope, Payload};
use crate::error::{Fault, PanicError, PanicPayload, RelayError};
use crate::mailbox::{Fetched, Mailbox, MailboxModel, Offered};
use crate::tracker::{TableModel, TrackerTable};
use crate::type_key::TypeKey;

verus! {

broadcast use vstd::std_specs::hash::group_hash_axioms;

/// Which messages a subscription yields.
#[derive(Clone, Copy, Debug)]
pub enum Wanted {
    /// Those of one type. Messages of other types are skipped.
    Only(TypeKey),
    /// All of them.
    All,
}

/// What a subscription yields.
#[derive(Debug)]
pub enum Received<V, E> {
    /// The content of the next message.
    Message(Arc<Payload<V, E>>),
    /// No message is there, but one may still come.
    Empty,
    /// No message is there, and none will come.
    Closed,
}

/// How a handler ended.
#[derive(Debug)]
pub enum HandlerOutcome<E> {
    /// It returned without an error.
    Completed,
    /// It returned an error.
    Failed(E),
    /// It panicked.
    Panicked(PanicPayload),
}

impl<E> HandlerOutcome<E> {
    /// What is reported of this outcome, for the message `msg_id`: nothing, if
    /// it is no failure.
    pub open spec fn reported_as(
        self,
        msg_id: u64,
        source: &'static str,
        report: Option<RelayError<E>>,
    ) -> bool {
        match (self, report) {
            (HandlerOutcome::Completed, None) => true,
            (HandlerOutcome::Failed(e), Some(error)) => {
                error == RelayError { msg_id, error: Arc::new(Fault::Raised(e)), source }
            },
            (HandlerOutcome::Panicked(payload), Some(error)) => {
                &&& error.msg_id == msg_id
                &&& error.source == source
                &&& *error.error matches Fault::Panicked(panic)
                &&& panic@ == crate::error::panic_message(payload)
            },
            _ => false,
        }
    }
}

/// Whether a message is among those that a subscription yields.
///
/// What counts is the type that the content really has.
pub open spec fn wants<V, E>(wanted: Wanted, envelope: Envelope<V, E>) -> bool {
    match wanted {
        Wanted::Only(key) => envelope.value.type_key() == key,
        Wanted::All => true,
    }
}

impl Wanted {
    /// Whether a message is among those that are wanted.
    fn accepts<V, E>(self, envelope: &Envelope<V, E>) -> (r: bool)
        ensures
            r == wants(self, *envelope),
    {
        match self {
            Wanted::Only(key) => envelope.downcast(key).is_some(),
            Wanted::All => true,
        }
    }
}

/// How many messages at the head of a queue are not wanted.
pub open spec fn unwanted_head<V, E>(wanted: Wanted, queue: Seq<Envelope<V, E>>) -> nat
    decreases queue.len(),
{
    if queue.len() == 0 || wants(wanted, queue[0]) {
        0
    } else {
        1 + unwanted_head(wanted, queue.drop_first())
    }
}

/// The trackers, after each of the given messages was completed once.
pub open spec fn discharged<V, E>(
    trackers: TableModel<E>,
    messages: Seq<Envelope<V, E>>,
) -> TableModel<E>
    decreases messages.len(),
{
    if messages.len() == 0 {
        trackers
    } else {
        discharged(trackers, messages.drop_last()).completed_one(messages.last().tracker)
    }
}

/// The error with which a message fails whose subscription was dropped.
pub open spec fn interruption<E>(msg_id: u64) -> RelayError<E> {
    RelayError { msg_id, error: Arc::new(Fault::Interrupted), source: "subscription" }
}

/// The trackers, after the given messages were given up because nobody is left
/// to receive them: those that are wanted fail, and those of other types are
/// complete, as if they were skipped.
pub open spec fn abandoned<V, E>(
    trackers: TableModel<E>,
    wanted: Wanted,
    messages: Seq<Envelope<V, E>>,
) -> TableModel<E>
    decreases messages.len(),
{
    if messages.len() == 0 {
        trackers
    } else {
        let before = abandoned(trackers, wanted, messages.drop_last());
        let last = messages.last();
        if wants(wanted, last) {
            before.failed(last.tracker, interruption(last.msg_id))
        } else {
            before.completed_one(last.tracker)
        }
    }
}

/// How many of the messages are tracked under `key`.
pub open spec fn count_in<V, E>(messages: Seq<Envelope<V, E>>, key: u64) -> nat
    decreases messages.len(),
{
    if messages.len() == 0 {
        0
    } else {
        count_in(messages.drop_last(), key) + if messages.last().tracker == Some(key) {
            1nat
        } else {
            0nat
        }
    }
}

/// Counting two lists one after the other.
pub proof fn lemma_count_add<V, E>(a: Seq<Envelope<V, E>>, b: Seq<Envelope<V, E>>, key: u64)
    ensures
        count_in(a + b, key) == count_in(a, key) + count_in(b, key),
    decreases b.len(),
{
    if b.len() == 0 {
        assert(a + b =~= a);
    } else {
        assert((a + b).drop_last() =~= a + b.drop_last());
        lemma_count_add(a, b.drop_last(), key);
    }
}

/// Counting with one message more.
pub proof fn lemma_count_push<V, E>(a: Seq<Envelope<V, E>>, e: Envelope<V, E>, key: u64)
    ensures
        count_in(a.push(e), key) == count_in(a, key) + if e.tracker == Some(key) {
            1nat
        } else {
            0nat
        },
{
    assert(a.push(e).drop_last() =~= a);
}

/// Counting with the first message gone.
pub proof fn lemma_count_first<V, E>(a: Seq<Envelope<V, E>>, key: u64)
    requires
        a.len() > 0,
    ensures
        count_in(a, key) == count_in(a.drop_first(), key) + if a[0].tracker == Some(key) {
            1nat
        } else {
            0nat
        },
{
    let first = Seq::<Envelope<V, E>>::empty().push(a[0]);
    assert(a =~= first + a.drop_first());
    lemma_count_add(first, a.drop_first(), key);
    lemma_count_push(Seq::<Envelope<V, E>>::empty(), a[0], key);
}

/// A message in a list counts.
pub proof fn lemma_count_member<V, E>(messages: Seq<Envelope<V, E>>, i: int, key: u64)
    requires
        0 <= i < messages.len(),
        messages[i].tracker == Some(key),
    ensures
        count_in(messages, key) > 0,
    decreases messages.len(),
{
    if i < messages.len() - 1 {
        lemma_count_member(messages.drop_last(), i, key);
    }
}

/// There are no more messages under one key than there are messages.
proof fn lemma_count_bound<V, E>(a: Seq<Envelope<V, E>>, key: u64)
    ensures
        count_in(a, key) <= a.len(),
    decreases a.len(),
{
    if a.len() > 0 {
        lemma_count_bound(a.drop_last(), key);
    }
}

/// What a [`Subscription`] holds.
#[verifier::ext_equal]
pub struct SubscriptionModel<V, E> {
    /// The messages that were delivered and not yet received.
    pub mailbox: MailboxModel<Envelope<V, E>>,
    /// Which of them it yields.
    pub wanted: Wanted,
    /// Whether it takes part in completion tracking.
    pub tracking: bool,
    /// The tracker of the message that is being processed.
    pub current_tracker: Option<u64>,
    /// The ID of the message that is being processed.
    pub current_msg_id: Option<u64>,
}

impl<V, E> SubscriptionModel<V, E> {
    /// A message was offered.
    pub open spec fn offered(self, envelope: Envelope<V, E>) -> SubscriptionModel<V, E> {
        SubscriptionModel { mailbox: self.mailbox.offered(envelope), ..self }
    }

    /// The relay has closed: what was delivered stays, nothing more comes.
    pub open spec fn disconnected(self) -> SubscriptionModel<V, E> {
        SubscriptionModel {
            mailbox: MailboxModel { connected: false, ..self.mailbox },
            ..self
        }
    }

    /// No message is being processed.
    pub open spec fn cleared(self) -> SubscriptionModel<V, E> {
        SubscriptionModel { current_tracker: None, current_msg_id: None, ..self }
    }

    /// The message that is received next stands behind this many others.
    pub open spec fn skips(self) -> nat {
        unwanted_head(self.wanted, self.mailbox.queue)
    }

    /// Whether a wanted message is there.
    pub open spec fn has_message(self) -> bool {
        self.skips() < self.mailbox.queue.len()
    }

    /// The message that is received next.
    pub open spec fn next_message(self) -> Envelope<V, E> {
        self.mailbox.queue[self.skips() as int]
    }

    /// What receiving yields.
    pub open spec fn yields(self) -> Received<V, E> {
        if self.has_message() {
            Received::Message(self.next_message().value)
        } else if self.mailbox.connected {
            Received::Empty
        } else {
            Received::Closed
        }
    }

    /// After receiving: the message and those before it are gone from the
    /// queue, and the message is the one being processed.
    pub open spec fn received(self) -> SubscriptionModel<V, E> {
        if self.has_message() {
            SubscriptionModel {
                mailbox: MailboxModel {
                    queue: self.mailbox.queue.skip(self.skips() as int + 1),
                    ..self.mailbox
                },
                current_tracker: self.next_message().tracker,
                current_msg_id: Some(self.next_message().msg_id),
                ..self
            }
        } else {
            SubscriptionModel {
                mailbox: MailboxModel { queue: Seq::empty(), ..self.mailbox },
                ..self.cleared()
            }
        }
    }

    /// The messages that receiving skips.
    pub open spec fn skipped(self) -> Seq<Envelope<V, E>> {
        self.mailbox.queue.take(self.skips() as int)
    }

    /// The trackers after receiving: a tracked subscription completes the
    /// messages that it skips.
    pub open spec fn trackers_after(self, trackers: TableModel<E>) -> TableModel<E> {
        if self.tracking {
            discharged(trackers, self.skipped())
        } else {
            trackers
        }
    }

    /// What taking a message out of the mailbox gives.
    pub open spec fn fetches(self) -> Fetched<Envelope<V, E>> {
        if self.mailbox.queue.len() > 0 {
            Fetched::Item(self.mailbox.queue[0])
        } else if self.mailbox.connected {
            Fetched::Empty
        } else {
            Fetched::Disconnected
        }
    }

    /// After a message was taken out of the mailbox, if there was one.
    pub open spec fn fetched(self) -> SubscriptionModel<V, E> {
        if self.mailbox.queue.len() > 0 {
            SubscriptionModel {
                mailbox: MailboxModel {
                    queue: self.mailbox.queue.drop_first(),
                    ..self.mailbox
                },
                ..self
            }
        } else {
            self
        }
    }

    /// The trackers after a handler has ended, with an error or without.
    pub open spec fn trackers_settled(
        self,
        trackers: TableModel<E>,
        error: Option<RelayError<E>>,
    ) -> TableModel<E> {
        match error {
            None => trackers.completed_one(self.current_tracker),
            Some(error) => trackers.failed(self.current_tracker, error),
        }
    }

    /// The trackers after the subscription is gone: a tracked subscription
    /// fails the message that it was processing, and those that it had not yet
    /// received. Messages of other types it completes.
    pub open spec fn trackers_at_drop(self, trackers: TableModel<E>) -> TableModel<E> {
        if self.tracking {
            abandoned(
                trackers.failed(self.current_tracker, interruption(self.report_id())),
                self.wanted,
                self.mailbox.queue,
            )
        } else {
            trackers
        }
    }

    /// Whether a message in the queue, or the one being processed, is tracked
    /// under `key`.
    pub open spec fn refers_to(self, key: u64) -> bool {
        self.current_tracker == Some(key) || count_in(self.mailbox.queue, key) > 0
    }

    /// The ID that an error report about the current message bears.
    pub open spec fn report_id(self) -> u64 {
        match self.current_msg_id {
            Some(id) => id,
            None => 0,
        }
    }
}

/// A head of unwanted messages has the length up to the first wanted one.
pub proof fn lemma_unwanted_head<V, E>(wanted: Wanted, queue: Seq<Envelope<V, E>>, n: nat)
    requires
        n <= queue.len(),
        forall|i: int| 0 <= i < n ==> !wants(wanted, #[trigger] queue[i]),
        n < queue.len() ==> wants(wanted, queue[n as int]),
    ensures
        unwanted_head(wanted, queue) == n,
    decreases n,
{
    if n > 0 {
        let rest = queue.drop_first();
        assert forall|i: int| 0 <= i < n - 1 implies !wants(wanted, #[trigger] rest[i]) by {
            assert(rest[i] == queue[i + 1]);
        }
        lemma_unwanted_head(wanted, rest, (n - 1) as nat);
        assert(!wants(wanted, queue[0]));
    }
}

/// The unwanted messages at the head of a queue, and the one behind them.
pub proof fn lemma_head<V, E>(wanted: Wanted, queue: Seq<Envelope<V, E>>)
    ensures
        ({
            let n = unwanted_head(wanted, queue);
            &&& n <= queue.len()
            &&& forall|i: int| 0 <= i < n ==> !wants(wanted, #[trigger] queue[i])
            &&& n < queue.len() ==> wants(wanted, queue[n as int])
        }),
    decreases queue.len(),
{
    if queue.len() > 0 && !wants(wanted, queue[0]) {
        let rest = queue.drop_first();
        let n = unwanted_head(wanted, queue);
        lemma_head(wanted, rest);
        assert forall|i: int| 0 <= i < n implies !wants(wanted, #[trigger] queue[i]) by {
            if i > 0 {
                assert(queue[i] == rest[i - 1]);
            }
        }
    }
}

/// A subscription to a relay.
///
/// There are two kinds of subscriptions:
/// - Tracked ones, used by handlers, take part in completion tracking: they
///   complete messages of other types at once, and fail the message being
///   processed when they are dropped.
/// - Untracked ones receive the same messages, but no sender waits for them.
#[verifier::reject_recursive_types(V)]
#[verifier::reject_recursive_types(E)]
pub struct Subscription<V, E> {
    mailbox: Mailbox<Envelope<V, E>>,
    /// How many messages in the mailbox each tracker has.
    held: HashMap<u64, usize>,
    wanted: Wanted,
    tracking: bool,
    current_tracker: Option<u64>,
    current_msg_id: Option<u64>,
}

impl<V, E> View for Subscription<V, E> {
    type V = SubscriptionModel<V, E>;

    closed spec fn view(&self) -> SubscriptionModel<V, E> {
        SubscriptionModel {
            mailbox: self.mailbox@,
            wanted: self.wanted,
            tracking: self.tracking,
            current_tracker: self.current_tracker,
            current_msg_id: self.current_msg_id,
        }
    }
}

/// The numbers in `held` are those of the messages in `queue`.
spec fn tallies<V, E>(held: Map<u64, usize>, queue: Seq<Envelope<V, E>>) -> bool {
    forall|key: u64|
        {
            &&& #[trigger] held.contains_key(key) <==> count_in(queue, key) > 0
            &&& held.contains_key(key) ==> held[key] == count_in(queue, key)
        }
}

impl<V, E> Subscription<V, E> {
    /// The mailbox is no fuller than it can be, and its trackers are counted.
    pub closed spec fn wf(&self) -> bool {
        &&& self.mailbox@.queue.len() <= self.mailbox@.capacity <= usize::MAX
        &&& tallies(self.held@, self.mailbox@.queue)
    }

    /// One more message in the mailbox has this tracker.
    fn note(&mut self, tracker: Option<u64>)
        ensures
            final(self)@ == old(self)@,
            final(self).mailbox == old(self).mailbox,
            match tracker {
                None => final(self).held@ == old(self).held@,
                Some(key) => {
                    let n: usize = if old(self).held@.contains_key(key) {
                        old(self).held@[key]
                    } else {
                        0
                    };
                    n < usize::MAX ==> final(self).held@ == old(self).held@.insert(
                        key,
                        (n + 1) as usize,
                    )
                },
            },
    {
        if let Some(key) = tracker {
            let n: usize = match self.held.get(&key) {
                Some(n) => *n,
                None => 0,
            };
            if n < usize::MAX {
                self.held.insert(key, n + 1);
            }
        }
    }

    /// One message less in the mailbox has this tracker.
    fn forget(&mut self, tracker: Option<u64>)
        ensures
            final(self)@ == old(self)@,
            final(self).mailbox == old(self).mailbox,
            match tracker {
                Some(key) if old(self).held@.contains_key(key) => final(self).held@ == (if old(
                    self,
                ).held@[key] > 1 {
                    old(self).held@.insert(key, (old(self).held@[key] - 1) as usize)
                } else {
                    old(self).held@.remove(key)
                }),
                _ => final(self).held@ == old(self).held@,
            },
    {
        if let Some(key) = tracker {
            let n: usize = match self.held.get(&key) {
                Some(n) => *n,
                None => 0,
            };
            if n > 1 {
                self.held.insert(key, n - 1);
            } else {
                self.held.remove(&key);
            }
            assert(old(self).held@.contains_key(key) || self.held@ =~= old(self).held@);
        }
    }

    /// Take the next message out of the mailbox.
    fn fetch(&mut self) -> (r: Fetched<Envelope<V, E>>)
        ensures
            r == old(self)@.fetches(),
            final(self)@ == old(self)@.fetched(),
            old(self).wf() ==> final(self).wf(),
    {
        let r = self.mailbox.fetch();
        if let Fetched::Item(envelope) = &r {
            let ghost queue = old(self).mailbox@.queue;
            self.forget(envelope.tracker());
            proof {
                assert forall|key: u64|
                    old(self).wf() implies (#[trigger] self.held@.contains_key(key) <==> count_in(
                        queue.drop_first(),
                        key,
                    ) > 0) && (self.held@.contains_key(key) ==> self.held@[key] == count_in(
                        queue.drop_first(),
                        key,
                    )) by {
                    lemma_count_first(queue, key);
                    assert(old(self).held@.contains_key(key) <==> count_in(queue, key) > 0);
                }
            }
        }
        r
    }

    /// Create an untracked subscription.
    pub fn new(mailbox: Mailbox<Envelope<V, E>>, wanted: Wanted) -> (r: Subscription<V, E>)
        ensures
            r@ == (SubscriptionModel {
                mailbox: mailbox@,
                wanted,
                tracking: false,
                current_tracker: None,
                current_msg_id: None,
            }),
            mailbox@.queue.len() == 0 && mailbox@.capacity <= usize::MAX ==> r.wf(),
    {
        Subscription {
            mailbox,
            held: HashMap::new(),
            wanted,
            tracking: false,
            current_tracker: None,
            current_msg_id: None,
        }
    }

    /// Create a tracked subscription.
    pub fn new_tracked(
        mailbox: Mailbox<Envelope<V, E>>,
        wanted: Wanted,
    ) -> (r: Subscription<V, E>)
        ensures
            r@ == (SubscriptionModel {
                mailbox: mailbox@,
                wanted,
                tracking: true,
                current_tracker: None,
                current_msg_id: None,
            }),
            mailbox@.queue.len() == 0 && mailbox@.capacity <= usize::MAX ==> r.wf(),
    {
        Subscription {
            mailbox,
            held: HashMap::new(),
            wanted,
            tracking: true,
            current_tracker: None,
            current_msg_id: None,
        }
    }

    /// Get the key of the tracker of the current message.
    ///
    /// `None` if no message is being processed or if it is not tracked.
    pub fn current_tracker(&self) -> (r: Option<u64>)
        ensures
            r == self@.current_tracker,
    {
        self.current_tracker
    }

    /// Get the ID of the message being processed, if there is one.
    pub fn current_msg_id(&self) -> (r: Option<u64>)
        ensures
            r == self@.current_msg_id,
    {
        self.current_msg_id
    }

    /// Whether the subscription takes part in completion tracking.
    pub fn is_tracked(&self) -> (r: bool)
        ensures
            r == self@.tracking,
    {
        self.tracking
    }

    /// Whether a message in the mailbox, or the one being processed, is
    /// tracked under `key`.
    pub fn refers_to(&self, key: u64) -> (r: bool)
        requires
            self.wf(),
        ensures
            r == self@.refers_to(key),
    {
        if let Some(current) = self.current_tracker {
            if current == key {
                return true;
            }
        }
        self.held.contains_key(&key)
    }

    /// Forget the current message without signaling its completion.
    ///
    /// Handlers call this after they have completed the message, so that it is
    /// not completed twice.
    pub fn clear_tracker(&mut self)
        ensures
            final(self)@ == old(self)@.cleared(),
            old(self).wf() ==> final(self).wf(),
    {
        self.current_tracker = None;
        self.current_msg_id = None;
    }

    /// Deliver a message, if there is room for it.
    pub fn offer(&mut self, envelope: Envelope<V, E>) -> (r: Offered)
        ensures
            r == old(self)@.mailbox.answer(),
            final(self)@ == old(self)@.offered(envelope),
            old(self).wf() ==> final(self).wf(),
    {
        let tracker = envelope.tracker();
        let r = self.mailbox.offer(envelope);
        if let Offered::Taken = r {
            let ghost queue = old(self).mailbox@.queue;
            proof {
                if let Some(key) = tracker {
                    lemma_count_bound(queue, key);
                }
            }
            self.note(tracker);
            proof {
                assert forall|key: u64|
                    old(self).wf() implies (#[trigger] self.held@.contains_key(key) <==> count_in(
                        queue.push(envelope),
                        key,
                    ) > 0) && (self.held@.contains_key(key) ==> self.held@[key] == count_in(
                        queue.push(envelope),
                        key,
                    )) by {
                    lemma_count_push(queue, envelope, key);
                    assert(old(self).held@.contains_key(key) <==> count_in(queue, key) > 0);
                }
            }
        }
        r
    }

    /// Let go of the sending end: nothing more is delivered.
    pub fn disconnect(&mut self)
        ensures
            final(self)@ == old(self)@.disconnected(),
            old(self).wf() ==> final(self).wf(),
    {
        self.mailbox.disconnect();
    }

    /// Receive the next wanted message, if one is there.
    ///
    /// Messages of other types are skipped. A tracked subscription completes
    /// them. The message that was being processed is forgotten: handlers must
    /// have completed it.
    pub fn recv(&mut self, trackers: &mut TrackerTable<E>) -> (r: Received<V, E>)
        ensures
            r == old(self)@.yields(),
            final(self)@ == old(self)@.received(),
            old(self).wf() ==> final(self).wf(),
            final(trackers)@ == old(self)@.trackers_after(old(trackers)@),
            old(trackers)@.wf() ==> final(trackers)@.wf(),
    {
        self.clear_tracker();
        let ghost queue = self@.mailbox.queue;
        let ghost mut n: nat = 0;
        loop
            invariant
                n <= queue.len(),
                queue == old(self)@.mailbox.queue,
                self@ == (SubscriptionModel {
                    mailbox: MailboxModel { queue: queue.skip(n as int), ..old(self)@.mailbox },
                    ..old(self)@.cleared()
                }),
                forall|i: int| 0 <= i < n ==> !wants(old(self)@.wanted, #[trigger] queue[i]),
                trackers@ == (if old(self)@.tracking {
                    discharged(old(trackers)@, queue.take(n as int))
                } else {
                    old(trackers)@
                }),
                old(trackers)@.wf() ==> trackers@.wf(),
                old(self).wf() ==> self.wf(),
            decreases queue.len() - n,
        {
            match self.fetch() {
                Fetched::Item(envelope) => {
                    assert(envelope == queue[n as int]);
                    assert(queue.skip(n as int).drop_first() =~= queue.skip(n as int + 1));
                    if self.wanted.accepts(&envelope) {
                        proof {
                            lemma_unwanted_head(old(self)@.wanted, queue, n);
                        }
                        self.current_tracker = envelope.tracker();
                        self.current_msg_id = Some(envelope.msg_id());
                        return Received::Message(envelope.value);
                    }
                    proof {
                        assert(queue.take(n as int + 1).drop_last() =~= queue.take(n as int));
                        n = n + 1;
                    }
                    // This subscription cannot process the message.
                    if self.tracking {
                        trackers.complete_one(envelope.tracker());
                    }
                },
                Fetched::Empty => {
                    proof {
                        lemma_unwanted_head(old(self)@.wanted, queue, n);
                        assert(queue.skip(n as int) =~= Seq::empty());
                    }
                    return Received::Empty;
                },
                Fetched::Disconnected => {
                    proof {
                        lemma_unwanted_head(old(self)@.wanted, queue, n);
                        assert(queue.skip(n as int) =~= Seq::empty());
                    }
                    return Received::Closed;
                },
            }
        }
    }

    /// Receive the next wanted message without waiting.
    ///
    /// `None` if no such message is there, or the relay is closed.
    pub fn try_recv(&mut self, trackers: &mut TrackerTable<E>) -> (r: Option<Arc<Payload<V, E>>>)
        ensures
            r == (if old(self)@.has_message() {
                Some(old(self)@.next_message().value)
            } else {
                None
            }),
            final(self)@ == old(self)@.received(),
            old(self).wf() ==> final(self).wf(),
            final(trackers)@ == old(self)@.trackers_after(old(trackers)@),
            old(trackers)@.wf() ==> final(trackers)@.wf(),
    {
        match self.recv(trackers) {
            Received::Message(value) => Some(value),
            _ => None,
        }
    }

    /// Take the next message out of the mailbox, whatever its type, and leave
    /// its completion to the caller.
    pub fn recv_envelope(&mut self) -> (r: Fetched<Envelope<V, E>>)
        ensures
            r == old(self)@.fetches(),
            final(self)@ == old(self)@.fetched(),
            old(self).wf() ==> final(self).wf(),
    {
        self.fetch()
    }

    /// A handler has ended: complete the message that was being processed.
    ///
    /// A failure, or a panic, is recorded in the tracker of the message, and
    /// returned to be sent through the relay too.
    pub fn settle(
        &mut self,
        trackers: &mut TrackerTable<E>,
        outcome: HandlerOutcome<E>,
        source: &'static str,
    ) -> (r: Option<RelayError<E>>)
        ensures
            final(self)@ == old(self)@.cleared(),
            old(self).wf() ==> final(self).wf(),
            outcome.reported_as(old(self)@.report_id(), source, r),
            final(trackers)@ == old(self)@.trackers_settled(old(trackers)@, r),
            old(trackers)@.wf() ==> final(trackers)@.wf(),
    {
        let tracker = self.current_tracker;
        let msg_id = match self.current_msg_id {
            Some(id) => id,
            None => 0,
        };
        self.clear_tracker();
        let error = match outcome {
            HandlerOutcome::Completed => {
                trackers.complete_one(tracker);
                return None;
            },
            HandlerOutcome::Failed(e) => RelayError::new(msg_id, Fault::Raised(e), source),
            HandlerOutcome::Panicked(payload) => {
                RelayError::new(msg_id, Fault::Panicked(PanicError::new(payload)), source)
            },
        };
        trackers.fail(tracker, error.clone());
        Some(error)
    }

    /// The subscription goes away.
    ///
    /// A safety net for tracked subscriptions: a message that is still being
    /// processed fails, and so does every message that was not yet received.
    /// Messages of other types are completed, as if they were skipped.
    pub fn drop(self, trackers: &mut TrackerTable<E>)
        ensures
            final(trackers)@ == self@.trackers_at_drop(old(trackers)@),
            old(trackers)@.wf() ==> final(trackers)@.wf(),
    {
        if !self.tracking {
            return;
        }
        let mut mailbox = self.mailbox;
        if let Some(tracker) = self.current_tracker {
            let msg_id = match self.current_msg_id {
                Some(id) => id,
                None => 0,
            };
            let error = RelayError::new(msg_id, Fault::Interrupted, "subscription");
            trackers.fail(Some(tracker), error);
        }
        let ghost queue = mailbox@.queue;
        let ghost first = trackers@;
        let ghost mut n: nat = 0;
        loop
            invariant
                n <= queue.len(),
                mailbox@.queue == queue.skip(n as int),
                trackers@ == abandoned(first, self.wanted, queue.take(n as int)),
                old(trackers)@.wf() ==> trackers@.wf(),
            ensures
                n == queue.len(),
            decreases queue.len() - n,
        {
            match mailbox.fetch() {
                Fetched::Item(envelope) => {
                    assert(envelope == queue[n as int]);
                    assert(queue.skip(n as int).drop_first() =~= queue.skip(n as int + 1));
                    assert(queue.take(n as int + 1).drop_last() =~= queue.take(n as int));
                    if self.wanted.accepts(&envelope) {
                        let error = RelayError::new(
                            envelope.msg_id(),
                            Fault::Interrupted,
                            "subscription",
                        );
                        trackers.fail(envelope.tracker(), error);
                    } else {
                        trackers.complete_one(envelope.tracker());
                    }
                    proof {
                        n = n + 1;
                    }
                },
                _ => {
                    break;
                },
            }
        }
        assert(queue.take(n as int) =~= queue);
    }
}

} // verus!
