//! What a handler makes of the messages in its queue, one after the other.
use vstd::prelude::*;

use crate::envelope::Envelope;
use crate::error::{Fault, RelayError};
use crate::inner::RelayModel;
use crate::stream::{HandlerAction, HandlerEvent, PendingSend, SendError, SendStep};
use crate::subscription::{HandlerOutcome, SubscriptionModel};
use crate::tracker::{TableModel, TrackerModel};

verus! {

/// A subscription after its handler has received and processed `n` messages.
pub open spec fn turns<V, E>(subscription: SubscriptionModel<V, E>, n: nat) -> SubscriptionModel<
    V,
    E,
>
    decreases n,
{
    if n == 0 {
        subscription
    } else {
        turns(subscription, (n - 1) as nat).received().cleared()
    }
}

/// The trackers then, given what the handler reports of each message.
pub open spec fn trackers_turns<V, E>(
    subscription: SubscriptionModel<V, E>,
    trackers: TableModel<E>,
    reports: spec_fn(Envelope<V, E>) -> Option<RelayError<E>>,
    n: nat,
) -> TableModel<E>
    decreases n,
{
    if n == 0 {
        trackers
    } else {
        let before = turns(subscription, (n - 1) as nat);
        before.received().trackers_settled(
            before.trackers_after(
                trackers_turns(subscription, trackers, reports, (n - 1) as nat),
            ),
            reports(before.next_message()),
        )
    }
}

/// A handler processes each message that it wants once, in the order in which
/// they came.
pub proof fn law_each_message_has_its_turn<V, E>(subscription: SubscriptionModel<V, E>, n: nat)
    requires
        n <= crate::laws::delivery::wanted_messages(subscription).len(),
    ensures
        crate::laws::delivery::wanted_messages(turns(subscription, n))
            == crate::laws::delivery::wanted_messages(subscription).skip(n as int),
        n < crate::laws::delivery::wanted_messages(subscription).len() ==> {
            &&& turns(subscription, n).has_message()
            &&& turns(subscription, n).next_message()
                == crate::laws::delivery::wanted_messages(subscription)[n as int]
        },
        n == crate::laws::delivery::wanted_messages(subscription).len() ==> !turns(
            subscription,
            n,
        ).has_message(),
        turns(subscription, n).tracking == subscription.tracking,
    decreases n,
{
    let wanted = crate::laws::delivery::wanted_messages(subscription);
    let now = turns(subscription, n);
    if n > 0 {
        let before = turns(subscription, (n - 1) as nat);
        law_each_message_has_its_turn(subscription, (n - 1) as nat);
        crate::laws::delivery::law_first_message_is_received(before);
        assert(crate::laws::delivery::wanted_messages(now)
            == crate::laws::delivery::wanted_messages(before.received()));
        assert(wanted.skip(n - 1).drop_first() =~= wanted.skip(n as int));
    } else {
        assert(wanted.skip(0) =~= wanted);
    }
    crate::laws::delivery::law_first_message_is_received(now);
}

/// Receiving, be there a message or not, leaves the kind of subscription and the
/// keys of trackers as they are.
pub proof fn lemma_next<V, E>(subscription: SubscriptionModel<V, E>, trackers: TableModel<E>)
    ensures
        subscription.received().tracking == subscription.tracking,
        subscription.received().wanted == subscription.wanted,
        subscription.trackers_after(trackers).next == trackers.next,
{
    lemma_next_discharged(trackers, subscription.skipped());
}

proof fn lemma_next_discharged<V, E>(trackers: TableModel<E>, messages: Seq<Envelope<V, E>>)
    ensures
        crate::subscription::discharged(trackers, messages).next == trackers.next,
    decreases messages.len(),
{
    if messages.len() > 0 {
        lemma_next_discharged(trackers, messages.drop_last());
    }
}

/// Turns are what handlers do. A handler that waits with its subscription as it
/// is after `n` turns is given the next message to run. When it reports how that
/// went, it stands where `n + 1` turns lead, before it receives again.
pub proof fn law_handlers_take_turns<V, E>(
    subscription: SubscriptionModel<V, E>,
    trackers: TableModel<E>,
    reports: spec_fn(Envelope<V, E>) -> Option<RelayError<E>>,
    outcome: HandlerOutcome<E>,
    n: nat,
)
    requires
        turns(subscription, n).has_message(),
    ensures
        ({
            let now = turns(subscription, n);
            let message = now.next_message();
            let running = now.received();
            let then = now.trackers_after(trackers_turns(subscription, trackers, reports, n));
            &&& crate::stream::action_for(now.yields()) == HandlerAction::<V, E>::Run(
                message.value,
            )
            &&& running.report_id() == message.msg_id
            &&& running.current_tracker == message.tracker
            &&& crate::stream::before_receiving(running, HandlerEvent::Ended(outcome)) == turns(
                subscription,
                n + 1,
            )
            &&& running.trackers_settled(then, reports(message)) == trackers_turns(
                subscription,
                trackers,
                reports,
                n + 1,
            )
        }),
{
}

/// A wanted message counts.
proof fn lemma_count_wanted<V, E>(subscription: SubscriptionModel<V, E>, i: int, key: u64)
    requires
        0 <= i < crate::laws::delivery::wanted_messages(subscription).len(),
        crate::laws::delivery::wanted_messages(subscription)[i].tracker == Some(key),
    ensures
        crate::subscription::count_in(subscription.mailbox.queue, key) > 0,
    decreases i,
{
    crate::laws::delivery::law_first_message_is_received(subscription);
    crate::subscription::lemma_head(subscription.wanted, subscription.mailbox.queue);
    let n = subscription.skips() as int;
    let queue = subscription.mailbox.queue;
    if i == 0 {
        crate::subscription::lemma_count_member(queue, n, key);
    } else {
        lemma_count_wanted(subscription.received(), i - 1, key);
        assert(queue =~= queue.take(n + 1) + queue.skip(n + 1));
        crate::subscription::lemma_count_add(queue.take(n + 1), queue.skip(n + 1), key);
    }
}

/// How the messages under one key divide at a turn.
proof fn lemma_count_turn<V, E>(subscription: SubscriptionModel<V, E>, key: u64)
    requires
        subscription.has_message(),
    ensures
        crate::subscription::count_in(subscription.mailbox.queue, key)
            == crate::subscription::count_in(subscription.skipped(), key)
            + crate::subscription::count_in(subscription.received().mailbox.queue, key) + if
            subscription.next_message().tracker == Some(key) {
            1nat
        } else {
            0nat
        },
{
    let queue = subscription.mailbox.queue;
    let n = subscription.skips() as int;
    assert(queue =~= queue.take(n).push(queue[n]) + queue.skip(n + 1));
    crate::subscription::lemma_count_add(queue.take(n).push(queue[n]), queue.skip(n + 1), key);
    crate::subscription::lemma_count_push(queue.take(n), queue[n], key);
}

/// Before a message has its turn, its tracker is as it was.
proof fn lemma_before_its_turn<V, E>(
    subscription: SubscriptionModel<V, E>,
    trackers: TableModel<E>,
    reports: spec_fn(Envelope<V, E>) -> Option<RelayError<E>>,
    p: nat,
    j: nat,
    key: u64,
)
    requires
        subscription.tracking,
        p < crate::laws::delivery::wanted_messages(subscription).len(),
        crate::laws::delivery::wanted_messages(subscription)[p as int].tracker == Some(key),
        crate::subscription::count_in(subscription.mailbox.queue, key) == 1,
        trackers.live.contains_key(key),
        trackers.live[key].completed <= usize::MAX,
        j <= p,
    ensures
        crate::subscription::count_in(turns(subscription, j).mailbox.queue, key) == 1,
        trackers_turns(subscription, trackers, reports, j).live.contains_key(key),
        trackers_turns(subscription, trackers, reports, j).live[key] == trackers.live[key],
    decreases j,
{
    if j > 0 {
        let i = (j - 1) as nat;
        let wanted = crate::laws::delivery::wanted_messages(subscription);
        let before = turns(subscription, i);
        let now = turns(subscription, j);
        lemma_before_its_turn(subscription, trackers, reports, p, i, key);
        law_each_message_has_its_turn(subscription, i);
        law_each_message_has_its_turn(subscription, j);
        assert(wanted.skip(j as int)[p - j] == wanted[p as int]);
        lemma_count_wanted(now, p - j, key);
        lemma_count_turn(before, key);
        crate::laws::accounting::lemma_discharged(
            trackers_turns(subscription, trackers, reports, i),
            before.skipped(),
            key,
        );
    }
}

/// A handler that is alone with a message decides what its sender gets, however
/// many messages it has before: until the message has its turn the sending does
/// not end, and after that its result is the outcome of the handler.
pub proof fn law_handler_decides_the_result<V, E>(
    subscription: SubscriptionModel<V, E>,
    trackers: TableModel<E>,
    reports: spec_fn(Envelope<V, E>) -> Option<RelayError<E>>,
    p: nat,
    j: nat,
    key: u64,
    relay: RelayModel<V, E>,
)
    requires
        subscription.tracking,
        p < crate::laws::delivery::wanted_messages(subscription).len(),
        crate::laws::delivery::wanted_messages(subscription)[p as int].tracker == Some(key),
        crate::subscription::count_in(subscription.mailbox.queue, key) == 1,
        trackers.live.contains_key(key),
        trackers.live[key] == (TrackerModel::<E> { expected: 1, completed: 0, error: None }),
        j <= p,
    ensures
        ({
            let pending = PendingSend::<V, E>::AwaitCompletion { tracker: key };
            let message = crate::laws::delivery::wanted_messages(subscription)[p as int];
            let before = trackers_turns(subscription, trackers, reports, j);
            let after = trackers_turns(subscription, trackers, reports, p + 1);
            &&& pending.next_step(relay, before).0 == SendStep::WaitCompletion(pending)
            &&& turns(subscription, p).next_message() == message
            &&& j < p ==> turns(subscription, j).next_message().tracker != Some(key)
            &&& pending.next_step(relay, after).0 == SendStep::<V, E>::Finished(
                match reports(message) {
                    None => Ok(()),
                    Some(error) => Err(SendError::Downstream(error)),
                },
            )
        }),
{
    let at = turns(subscription, p);
    lemma_before_its_turn(subscription, trackers, reports, p, j, key);
    lemma_before_its_turn(subscription, trackers, reports, p, p, key);
    law_each_message_has_its_turn(subscription, p);
    lemma_count_turn(at, key);
    crate::laws::accounting::lemma_discharged(
        trackers_turns(subscription, trackers, reports, p),
        at.skipped(),
        key,
    );
    if j < p {
        let wanted = crate::laws::delivery::wanted_messages(subscription);
        law_each_message_has_its_turn(subscription, j);
        law_each_message_has_its_turn(subscription, j + 1);
        lemma_before_its_turn(subscription, trackers, reports, p, j + 1, key);
        assert(wanted.skip(j as int + 1)[p - j - 1] == wanted[p as int]);
        lemma_count_wanted(turns(subscription, j + 1), p - j - 1, key);
        lemma_count_turn(turns(subscription, j), key);
    }
}

/// Sinks and taps: the sender of a message waits until the one handler of its
/// relay has processed it, once, and gets the outcome. The handler may have any
/// messages before; it must want this one and have room for it.
///
/// The result is `Ok` exactly when the handler ended without an error. Otherwise
/// it bears the ID of the message, the source of the handler, and the error that
/// was returned or the text of the panic.
pub proof fn law_only_handler_decides<V, E>(
    relay: RelayModel<V, E>,
    trackers: TableModel<E>,
    id: u64,
    envelope: Envelope<V, E>,
    reports: spec_fn(Envelope<V, E>) -> Option<RelayError<E>>,
    outcome: HandlerOutcome<E>,
    source: &'static str,
    j: nat,
)
    requires
        relay.wf(),
        relay.is_ready(),
        relay.has(id),
        relay.handler_count == 1,
        relay.subscription(id).tracking,
        forall|i: int|
            0 <= i < relay.subscribers.len() && (
            #[trigger] relay.subscribers[i]).subscription.tracking ==> relay.subscribers[i].id
                == id,
        relay.subscription(id).mailbox.takes(),
        crate::subscription::wants(relay.subscription(id).wanted, envelope),
        crate::subscription::count_in(
            relay.subscription(id).mailbox.queue,
            trackers.next,
        ) == 0,
        j <= crate::laws::delivery::wanted_messages(relay.subscription(id)).len(),
        ({
            let (sent, _) = relay.with_tracker(envelope, trackers);
            outcome.reported_as(envelope.msg_id, source, reports(relay.stamped(sent)))
        }),
    ensures
        ({
            let n = crate::laws::delivery::wanted_messages(relay.subscription(id)).len();
            let pending = PendingSend::AwaitReady { envelope, track: true };
            let waiting = PendingSend::<V, E>::AwaitCompletion { tracker: trackers.next };
            let (step, relay1, trackers1) = pending.next_step(relay, trackers);
            let subscription = relay1.subscription(id);
            let before = trackers_turns(subscription, trackers1, reports, j);
            let after = trackers_turns(subscription, trackers1, reports, n + 1);
            let end = waiting.next_step(relay1, after).0;
            &&& step == SendStep::WaitCompletion(waiting)
            &&& waiting.next_step(relay1, before).0 == SendStep::WaitCompletion(waiting)
            &&& turns(subscription, n).has_message()
            &&& turns(subscription, n).next_message().value == envelope.value
            &&& turns(subscription, n).next_message().msg_id == envelope.msg_id
            &&& j < n ==> turns(subscription, j).next_message().tracker != Some(trackers.next)
            &&& end is Finished
            &&& match outcome {
                HandlerOutcome::Completed => end->Finished_0 == Ok::<(), SendError<E>>(()),
                HandlerOutcome::Failed(e) => {
                    &&& end->Finished_0 matches Err(SendError::Downstream(error))
                    &&& error.msg_id == envelope.msg_id
                    &&& error.source == source
                    &&& *error.error == Fault::Raised(e)
                },
                HandlerOutcome::Panicked(payload) => {
                    &&& end->Finished_0 matches Err(SendError::Downstream(error))
                    &&& error.msg_id == envelope.msg_id
                    &&& error.source == source
                    &&& *error.error matches Fault::Panicked(panic)
                    &&& panic@ == crate::error::panic_message(payload)
                },
            }
        }),
{
    let before = relay.subscription(id);
    let n = crate::laws::delivery::wanted_messages(before).len();
    let i = relay.position(id);
    let (sent, created) = relay.with_tracker(envelope, trackers);
    let sent = relay.stamped(sent);
    let relay1 = relay.delivered(sent);
    let subscription = relay1.subscription(id);
    let key = trackers.next;
    assert(crate::inner::stands_at(relay.subscribers, id, i));
    // Nobody is passed over.
    assert forall|k: int| 0 <= k < relay.subscribers.len() implies !(
    #[trigger] relay.subscribers[k]).misses() by {
        if relay.subscribers[k].subscription.tracking {
            assert(crate::inner::stands_at(relay.subscribers, id, k));
            crate::inner::lemma_position(relay, id, k);
        }
    }
    // The message is in the queue of the handler, behind the others.
    crate::laws::delivery::law_delivery_reaches_subscription(relay, sent, id);
    let offered = before.offered(sent);
    crate::laws::delivery::law_messages_line_up(before, sent);
    crate::subscription::lemma_count_push(before.mailbox.queue, sent, key);
    if subscription != offered && offered.mailbox.takes() {
        let notice = relay.drop_notice(sent);
        crate::laws::delivery::law_messages_line_up(offered, notice);
        crate::subscription::lemma_count_push(offered.mailbox.queue, notice, key);
    }
    assert(crate::laws::delivery::wanted_messages(subscription).len() > n);
    assert(crate::laws::delivery::wanted_messages(subscription)[n as int] == sent);
    law_each_message_has_its_turn(subscription, n);
    law_handler_decides_the_result(subscription, created, reports, n, j, key, relay1);
}

/// Two errors say the same, but for where they come from.
pub open spec fn alike_errors<E>(a: RelayError<E>, b: RelayError<E>) -> bool {
    &&& a.msg_id == b.msg_id
    &&& forall|raised: Seq<char>| #[trigger] a.error.text(raised) == b.error.text(raised)
}

/// Two reports are both empty, or say the same.
pub open spec fn alike_reports<E>(a: Option<RelayError<E>>, b: Option<RelayError<E>>) -> bool {
    match (a, b) {
        (None, None) => true,
        (Some(a), Some(b)) => alike_errors(a, b),
        _ => false,
    }
}

/// Two tables hold the same, but for where errors come from.
pub open spec fn alike<E>(a: TableModel<E>, b: TableModel<E>) -> bool {
    &&& a.next == b.next
    &&& a.signal == b.signal
    &&& forall|key: u64| #[trigger] a.live.contains_key(key) == b.live.contains_key(key)
    &&& forall|key: u64| #[trigger]
        a.live.contains_key(key) ==> {
            &&& a.live[key].expected == b.live[key].expected
            &&& a.live[key].completed == b.live[key].completed
            &&& alike_reports(a.live[key].error, b.live[key].error)
        }
}

/// Completing messages keeps tables alike.
proof fn lemma_alike_discharged<V, E>(
    a: TableModel<E>,
    b: TableModel<E>,
    messages: Seq<Envelope<V, E>>,
)
    requires
        alike(a, b),
    ensures
        alike(
            crate::subscription::discharged(a, messages),
            crate::subscription::discharged(b, messages),
        ),
    decreases messages.len(),
{
    if messages.len() > 0 {
        lemma_alike_discharged(a, b, messages.drop_last());
    }
}

/// One outcome of a handler is reported alike from either source, and each
/// report names its own.
pub proof fn law_source_alone_differs<E>(
    outcome: HandlerOutcome<E>,
    msg_id: u64,
    first: &'static str,
    second: &'static str,
    a: Option<RelayError<E>>,
    b: Option<RelayError<E>>,
)
    requires
        outcome.reported_as(msg_id, first, a),
        outcome.reported_as(msg_id, second, b),
    ensures
        alike_reports(a, b),
        a is Some <==> !(outcome is Completed),
        a matches Some(error) ==> error.source == first,
        b matches Some(error) ==> error.source == second,
{
}

/// A tap is like a sink: on equal subscriptions, two handlers whose outcomes are
/// the same process the same messages in the same order, for `turns` does not
/// depend on them, and they leave trackers that differ only in where errors come
/// from. So their senders both wait, both succeed, or both get an error that
/// says the same.
pub proof fn law_tap_is_like_sink<V, E>(
    subscription: SubscriptionModel<V, E>,
    a: TableModel<E>,
    b: TableModel<E>,
    taps: spec_fn(Envelope<V, E>) -> Option<RelayError<E>>,
    sinks: spec_fn(Envelope<V, E>) -> Option<RelayError<E>>,
    n: nat,
    key: u64,
    relay: RelayModel<V, E>,
)
    requires
        alike(a, b),
        forall|e: Envelope<V, E>| alike_reports(#[trigger] taps(e), sinks(e)),
    ensures
        ({
            let a1 = trackers_turns(subscription, a, taps, n);
            let b1 = trackers_turns(subscription, b, sinks, n);
            let pending = PendingSend::<V, E>::AwaitCompletion { tracker: key };
            &&& alike(a1, b1)
            &&& alike(
                pending.next_step(relay, a1).2,
                pending.next_step(relay, b1).2,
            )
            &&& match (pending.next_step(relay, a1).0, pending.next_step(relay, b1).0) {
                (SendStep::WaitCompletion(p), SendStep::WaitCompletion(q)) => p == q,
                (SendStep::Finished(Ok(())), SendStep::Finished(Ok(()))) => true,
                (
                    SendStep::Finished(Err(SendError::Downstream(e))),
                    SendStep::Finished(Err(SendError::Downstream(f))),
                ) => alike_errors(e, f),
                _ => false,
            }
        }),
    decreases n,
{
    if n > 0 {
        let i = (n - 1) as nat;
        let before = turns(subscription, i);
        law_tap_is_like_sink(subscription, a, b, taps, sinks, i, key, relay);
        let a0 = trackers_turns(subscription, a, taps, i);
        let b0 = trackers_turns(subscription, b, sinks, i);
        lemma_alike_discharged(a0, b0, before.skipped());
        assert(alike_reports(taps(before.next_message()), sinks(before.next_message())));
    }
}

} // verus!
