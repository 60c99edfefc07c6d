//! What a subscription holds, and what receiving from it gives, message by
//! message.
use vstd::prelude::*;

use crate::envelope::{Envelope, Payload};
use crate::error::{Fault, PanicPayload, RelayError};
use crate::mailbox::{Fetched, MailboxModel};
use crate::stream::{HandlerAction, HandlerEvent};
use crate::subscription::{HandlerOutcome, Received, SubscriptionModel, Wanted};
use crate::tracker::TableModel;
use crate::type_key::TypeKey;

verus! {

/// Whether a message has the content that a subscription asks for.
pub open spec fn is_for<V, E>(envelope: Envelope<V, E>, wanted: Wanted) -> bool {
    match wanted {
        Wanted::All => true,
        Wanted::Only(TypeKey::Of(program_type)) => {
            *envelope.value matches Payload::Value { type_id, .. } && type_id == program_type
        },
        Wanted::Only(TypeKey::Dropped) => *envelope.value is Dropped,
        Wanted::Only(TypeKey::RelayError) => *envelope.value is Error,
    }
}

/// The first message in the queue that the subscription asks for has `n` others
/// before it. If there is none, these are all.
pub open spec fn comes_after<V, E>(subscription: SubscriptionModel<V, E>, n: nat) -> bool {
    let queue = subscription.mailbox.queue;
    &&& n <= queue.len()
    &&& forall|i: int| 0 <= i < n ==> !is_for(#[trigger] queue[i], subscription.wanted)
    &&& n < queue.len() ==> is_for(queue[n as int], subscription.wanted)
}

/// How many of the messages are tracked under `key`.
pub open spec fn number_under<V, E>(messages: Seq<Envelope<V, E>>, key: u64) -> nat {
    messages.filter(|e: Envelope<V, E>| e.tracker == Some(key)).len()
}

proof fn lemma_number_under<V, E>(messages: Seq<Envelope<V, E>>, key: u64)
    ensures
        number_under(messages, key) == crate::subscription::count_in(messages, key),
        messages.len() == 0 ==> number_under(messages, key) == 0,
        messages.len() > 0 ==> number_under(messages, key) == number_under(
            messages.drop_last(),
            key,
        ) + if messages.last().tracker == Some(key) {
            1nat
        } else {
            0nat
        },
    decreases messages.len(),
{
    reveal_with_fuel(Seq::filter, 2);
    if messages.len() > 0 {
        lemma_number_under(messages.drop_last(), key);
    }
}

proof fn lemma_number_positive<V, E>(messages: Seq<Envelope<V, E>>, key: u64)
    ensures
        number_under(messages, key) > 0 <==> exists|i: int|
            0 <= i < messages.len() && (#[trigger] messages[i]).tracker == Some(key),
    decreases messages.len(),
{
    lemma_number_under(messages, key);
    if messages.len() > 0 {
        let rest = messages.drop_last();
        lemma_number_positive(rest, key);
        if exists|i: int| 0 <= i < rest.len() && (#[trigger] rest[i]).tracker == Some(key) {
            let i = choose|i: int|
                0 <= i < rest.len() && (#[trigger] rest[i]).tracker == Some(key);
            assert(messages[i].tracker == Some(key));
        }
        if exists|i: int|
            0 <= i < messages.len() && (#[trigger] messages[i]).tracker == Some(key) {
            let i = choose|i: int|
                0 <= i < messages.len() && (#[trigger] messages[i]).tracker == Some(key);
            if i < messages.len() - 1 {
                assert(rest[i].tracker == Some(key));
            } else {
                assert(messages.last().tracker == Some(key));
            }
        }
        if messages.last().tracker == Some(key) {
            assert(messages[messages.len() - 1].tracker == Some(key));
        }
    }
}

/// A message that is offered to a mailbox goes to the end of the queue exactly
/// when the mailbox is connected and holds fewer messages than its capacity. The
/// capacity and the connection stay.
pub proof fn law_mailbox_takes_what_fits<T>(mailbox: MailboxModel<T>, item: T)
    ensures
        ({
            let fits = mailbox.connected && mailbox.queue.len() < mailbox.capacity;
            let after = mailbox.offered(item);
            &&& after.capacity == mailbox.capacity
            &&& after.connected == mailbox.connected
            &&& fits ==> after.queue == mailbox.queue.push(item)
            &&& !fits ==> after.queue == mailbox.queue
            &&& mailbox.takes() <==> fits
            &&& mailbox.answer() is Taken <==> fits
            &&& mailbox.answer() is Full <==> mailbox.connected && mailbox.queue.len()
                >= mailbox.capacity
            &&& mailbox.answer() is Disconnected <==> !mailbox.connected
        }),
{
}

/// A mailbox can have any capacity whose eightfold is a machine word.
pub proof fn law_largest_capacity()
    ensures
        8 * crate::mailbox::max_capacity() <= usize::MAX,
        8 * (crate::mailbox::max_capacity() + 1) > usize::MAX,
{
}

/// Offering to a subscription, disconnecting it and forgetting the message that
/// it processes change nothing else of it.
pub proof fn law_subscription_changes<V, E>(
    subscription: SubscriptionModel<V, E>,
    envelope: Envelope<V, E>,
)
    ensures
        ({
            let after = subscription.offered(envelope);
            let fits = subscription.mailbox.connected && subscription.mailbox.queue.len()
                < subscription.mailbox.capacity;
            &&& after == (SubscriptionModel { mailbox: after.mailbox, ..subscription })
            &&& after.mailbox == (MailboxModel {
                queue: after.mailbox.queue,
                ..subscription.mailbox
            })
            &&& fits ==> after.mailbox.queue == subscription.mailbox.queue.push(envelope)
            &&& !fits ==> after.mailbox.queue == subscription.mailbox.queue
        }),
        ({
            let after = subscription.disconnected();
            &&& after == (SubscriptionModel { mailbox: after.mailbox, ..subscription })
            &&& after.mailbox.queue == subscription.mailbox.queue
            &&& after.mailbox.capacity == subscription.mailbox.capacity
            &&& !after.mailbox.connected
        }),
        ({
            let after = subscription.cleared();
            &&& after.mailbox == subscription.mailbox
            &&& after.wanted == subscription.wanted
            &&& after.tracking == subscription.tracking
            &&& after.current_tracker is None
            &&& after.current_msg_id is None
        }),
{
}

proof fn lemma_comes_after<V, E>(subscription: SubscriptionModel<V, E>, n: nat)
    requires
        comes_after(subscription, n),
    ensures
        subscription.skips() == n,
{
    let queue = subscription.mailbox.queue;
    assert forall|i: int| 0 <= i < n implies !crate::subscription::wants(
        subscription.wanted,
        #[trigger] queue[i],
    ) by {
        assert(!is_for(queue[i], subscription.wanted));
    }
    crate::subscription::lemma_unwanted_head(subscription.wanted, queue, n);
}

/// Receiving gives the first message in the queue with a content that the
/// subscription asks for, whatever the relay, the sender and the content are
/// otherwise. Those before it are gone, those behind it stay in their order, and
/// the message is the one being processed.
pub proof fn law_first_fitting_message_is_received<V, E>(
    subscription: SubscriptionModel<V, E>,
    n: nat,
)
    requires
        comes_after(subscription, n),
        n < subscription.mailbox.queue.len(),
    ensures
        ({
            let queue = subscription.mailbox.queue;
            let after = subscription.received();
            &&& subscription.has_message()
            &&& subscription.next_message() == queue[n as int]
            &&& subscription.yields() == Received::Message(queue[n as int].value)
            &&& after.mailbox.queue == queue.subrange(n as int + 1, queue.len() as int)
            &&& after.mailbox.capacity == subscription.mailbox.capacity
            &&& after.mailbox.connected == subscription.mailbox.connected
            &&& after.wanted == subscription.wanted
            &&& after.tracking == subscription.tracking
            &&& after.current_tracker == queue[n as int].tracker
            &&& after.current_msg_id == Some(queue[n as int].msg_id)
        }),
{
    lemma_comes_after(subscription, n);
}

/// Where no message in the queue has a content that the subscription asks for,
/// receiving gives none, empties the queue, and tells whether one may still come:
/// that is so exactly as long as the subscription is connected.
pub proof fn law_nothing_fitting_is_received<V, E>(subscription: SubscriptionModel<V, E>)
    requires
        forall|i: int|
            0 <= i < subscription.mailbox.queue.len() ==> !is_for(
                #[trigger] subscription.mailbox.queue[i],
                subscription.wanted,
            ),
    ensures
        !subscription.has_message(),
        subscription.mailbox.connected ==> subscription.yields() is Empty,
        !subscription.mailbox.connected ==> subscription.yields() is Closed,
        ({
            let after = subscription.received();
            &&& after.mailbox.queue.len() == 0
            &&& after.mailbox.capacity == subscription.mailbox.capacity
            &&& after.mailbox.connected == subscription.mailbox.connected
            &&& after.wanted == subscription.wanted
            &&& after.tracking == subscription.tracking
            &&& after.current_tracker is None
            &&& after.current_msg_id is None
        }),
{
    lemma_comes_after(subscription, subscription.mailbox.queue.len());
}

/// A subscription to an open relay never ends, however many messages it skips,
/// and one to a closed relay never says that a message may still come. Receiving
/// ends the subscription exactly when it is disconnected and holds nothing that
/// it asks for.
pub proof fn law_connected_subscription_does_not_end<V, E>(
    subscription: SubscriptionModel<V, E>,
)
    ensures
        subscription.mailbox.connected ==> !(subscription.yields() is Closed),
        !subscription.mailbox.connected ==> !(subscription.yields() is Empty),
        subscription.yields() is Closed <==> !subscription.mailbox.connected && forall|i: int|
            0 <= i < subscription.mailbox.queue.len() ==> !is_for(
                #[trigger] subscription.mailbox.queue[i],
                subscription.wanted,
            ),
        subscription.yields() is Message <==> exists|i: int|
            0 <= i < subscription.mailbox.queue.len() && is_for(
                #[trigger] subscription.mailbox.queue[i],
                subscription.wanted,
            ),
{
    let queue = subscription.mailbox.queue;
    let n = subscription.skips();
    crate::subscription::lemma_head(subscription.wanted, queue);
    assert forall|i: int| 0 <= i < queue.len() implies is_for(
        #[trigger] queue[i],
        subscription.wanted,
    ) == crate::subscription::wants(subscription.wanted, queue[i]) by {}
    if n < queue.len() {
        assert(is_for(queue[n as int], subscription.wanted));
    }
}

proof fn lemma_discharged<V, E>(trackers: TableModel<E>, messages: Seq<Envelope<V, E>>)
    ensures
        crate::laws::counts::counts_up(
            trackers,
            crate::subscription::discharged(trackers, messages),
            |k: u64| number_under(messages, k),
        ),
        crate::laws::counts::same_errors(
            trackers,
            crate::subscription::discharged(trackers, messages),
        ),
    decreases messages.len(),
{
    let total = |k: u64| number_under(messages, k);
    assert forall|k: u64| true implies #[trigger] total(k) == number_under(messages, k) by {}
    if messages.len() == 0 {
        assert forall|k: u64| #[trigger] total(k) == 0 by {
            lemma_number_under(messages, k);
        }
        crate::laws::counts::lemma_counts_none(trackers, total);
    } else {
        let rest = messages.drop_last();
        let key = messages.last().tracker;
        let more = |k: u64| number_under(rest, k);
        lemma_discharged(trackers, rest);
        assert forall|k: u64| #[trigger] total(k) == more(k) + if key == Some(k) {
            1nat
        } else {
            0nat
        } by {
            lemma_number_under(messages, k);
        }
        let middle = crate::subscription::discharged(trackers, rest);
        let after = middle.completed_one(key);
        crate::laws::counts::lemma_counts_one_more(trackers, middle, after, key, more, total);
        assert forall|k: u64| trackers.live.contains_key(k) implies (
        #[trigger] after.live[k]).error == trackers.live[k].error by {
            assert(middle.live.contains_key(k));
            assert(middle.live[k].error == trackers.live[k].error);
        }
    }
}

/// A handler's subscription completes each message that receiving skips, once,
/// and no other message. One that no sender waits for completes nothing.
pub proof fn law_receiving_completes_what_it_skips<V, E>(
    subscription: SubscriptionModel<V, E>,
    trackers: TableModel<E>,
    n: nat,
)
    requires
        comes_after(subscription, n),
    ensures
        !subscription.tracking ==> subscription.trackers_after(trackers) == trackers,
        subscription.tracking ==> {
            let after = subscription.trackers_after(trackers);
            &&& crate::laws::counts::counts_up(
                trackers,
                after,
                |k: u64| number_under(subscription.mailbox.queue.take(n as int), k),
            )
            &&& crate::laws::counts::same_errors(trackers, after)
        },
{
    lemma_comes_after(subscription, n);
    lemma_discharged(trackers, subscription.mailbox.queue.take(n as int));
}

/// Taking a message out of a mailbox gives the oldest, whatever its content, and
/// leaves the others and everything else of the subscription.
pub proof fn law_oldest_message_is_fetched<V, E>(subscription: SubscriptionModel<V, E>)
    ensures
        ({
            let queue = subscription.mailbox.queue;
            let after = subscription.fetched();
            &&& after == (SubscriptionModel { mailbox: after.mailbox, ..subscription })
            &&& after.mailbox.capacity == subscription.mailbox.capacity
            &&& after.mailbox.connected == subscription.mailbox.connected
            &&& queue.len() > 0 ==> {
                &&& subscription.fetches() == Fetched::Item(queue[0])
                &&& after.mailbox.queue == queue.subrange(1, queue.len() as int)
            }
            &&& queue.len() == 0 ==> {
                &&& after.mailbox.queue == queue
                &&& subscription.fetches() is Empty <==> subscription.mailbox.connected
                &&& subscription.fetches() is Disconnected <==> !subscription.mailbox.connected
            }
        }),
{
}

/// The end of a handler completes the message that was being processed, once,
/// and no other. The error, if there is one, is kept unless there is one already.
pub proof fn law_settling_completes_once<V, E>(
    subscription: SubscriptionModel<V, E>,
    trackers: TableModel<E>,
    report: Option<RelayError<E>>,
)
    ensures
        ({
            let after = subscription.trackers_settled(trackers, report);
            &&& crate::laws::counts::counts_up(
                trackers,
                after,
                |k: u64|
                    if subscription.current_tracker == Some(k) {
                        1nat
                    } else {
                        0nat
                    },
            )
            &&& forall|k: u64|
                #![trigger after.live[k]]
                trackers.live.contains_key(k) ==> {
                    let old = trackers.live[k];
                    let fails = report is Some && subscription.current_tracker == Some(k);
                    &&& fails && old.error is None ==> after.live[k].error == report
                    &&& !fails || old.error is Some ==> after.live[k].error == old.error
                }
        }),
        match subscription.current_msg_id {
            Some(id) => subscription.report_id() == id,
            None => subscription.report_id() == 0,
        },
{
    let none = |k: u64| 0nat;
    let one = |k: u64|
        if subscription.current_tracker == Some(k) {
            1nat
        } else {
            0nat
        };
    crate::laws::counts::lemma_counts_none(trackers, none);
    let after = subscription.trackers_settled(trackers, report);
    if let Some(error) = report {
        assert(after == trackers.failed(subscription.current_tracker, error));
    }
    crate::laws::counts::lemma_counts_one_more(
        trackers,
        trackers,
        after,
        subscription.current_tracker,
        none,
        one,
    );
}

/// What is reported of a handler: nothing if it completed, and else the error it
/// returned or the text of its panic, with the ID and the source that were given.
pub proof fn law_reports_are_exact<E>(
    outcome: HandlerOutcome<E>,
    msg_id: u64,
    source: &'static str,
    report: Option<RelayError<E>>,
)
    ensures
        outcome is Completed ==> (outcome.reported_as(msg_id, source, report)
            <==> report is None),
        outcome matches HandlerOutcome::Failed(e) ==> (outcome.reported_as(
            msg_id,
            source,
            report,
        ) <==> (report matches Some(error) && error.msg_id == msg_id && error.source == source
            && *error.error == Fault::Raised(e))),
        outcome matches HandlerOutcome::Panicked(payload) ==> (outcome.reported_as(
            msg_id,
            source,
            report,
        ) <==> (report matches Some(error) && error.msg_id == msg_id && error.source == source && (
        *error.error matches Fault::Panicked(panic) && match payload {
            PanicPayload::Literal(text) => panic@ == text@,
            PanicPayload::Text(text) => panic@ == text@,
            PanicPayload::Other => panic@ == "panic occurred (non-string payload)"@,
        }))),
{
}

/// Whether an error says that a message was given up with its subscription.
pub open spec fn gave_up<E>(error: Option<RelayError<E>>, msg_id: u64) -> bool {
    error matches Some(e) && e.msg_id == msg_id && e.source@ == "subscription"@
        && *e.error is Interrupted
}

proof fn lemma_abandoned<V, E>(
    trackers: TableModel<E>,
    middle: TableModel<E>,
    wanted: Wanted,
    messages: Seq<Envelope<V, E>>,
    more: spec_fn(u64) -> nat,
)
    requires
        crate::laws::counts::counts_up(trackers, middle, more),
    ensures
        crate::laws::counts::counts_up(
            trackers,
            crate::subscription::abandoned(middle, wanted, messages),
            |k: u64| more(k) + number_under(messages, k),
        ),
    decreases messages.len(),
{
    let total = |k: u64| more(k) + number_under(messages, k);
    if messages.len() == 0 {
        assert forall|k: u64| #[trigger] total(k) == more(k) by {
            lemma_number_under(messages, k);
        }
        assert(total =~= more);
    } else {
        let rest = messages.drop_last();
        let last = messages.last();
        let part = |k: u64| more(k) + number_under(rest, k);
        lemma_abandoned(trackers, middle, wanted, rest, more);
        assert forall|k: u64| #[trigger] total(k) == part(k) + if last.tracker == Some(k) {
            1nat
        } else {
            0nat
        } by {
            lemma_number_under(messages, k);
        }
        let before = crate::subscription::abandoned(middle, wanted, rest);
        let after = crate::subscription::abandoned(middle, wanted, messages);
        if crate::subscription::wants(wanted, last) {
            assert(after == before.failed(
                last.tracker,
                crate::subscription::interruption(last.msg_id),
            ));
        }
        crate::laws::counts::lemma_counts_one_more(
            trackers,
            before,
            after,
            last.tracker,
            part,
            total,
        );
    }
}

proof fn lemma_abandoned_error<V, E>(
    trackers: TableModel<E>,
    wanted: Wanted,
    messages: Seq<Envelope<V, E>>,
    key: u64,
    i: int,
)
    requires
        trackers.live.contains_key(key),
        0 <= i <= messages.len(),
        forall|j: int|
            0 <= j < i ==> !((#[trigger] messages[j]).tracker == Some(key) && is_for(
                messages[j],
                wanted,
            )),
        i < messages.len() ==> messages[i].tracker == Some(key) && is_for(messages[i], wanted),
    ensures
        ({
            let after = crate::subscription::abandoned(trackers, wanted, messages);
            &&& after.live.contains_key(key)
            &&& trackers.live[key].error is Some || i == messages.len() ==> after.live[key].error
                == trackers.live[key].error
            &&& trackers.live[key].error is None && i < messages.len() ==> gave_up(
                after.live[key].error,
                messages[i].msg_id,
            )
        }),
    decreases messages.len(),
{
    if messages.len() > 0 {
        let rest = messages.drop_last();
        let n = if i < rest.len() {
            i
        } else {
            rest.len() as int
        };
        assert forall|j: int| 0 <= j < n implies !((#[trigger] rest[j]).tracker == Some(key)
            && is_for(rest[j], wanted)) by {
            assert(rest[j] == messages[j]);
        }
        lemma_abandoned_error(trackers, wanted, rest, key, n);
        let last = messages.last();
        assert(last == messages[messages.len() - 1]);
        assert(is_for(last, wanted) == crate::subscription::wants(wanted, last));
    }
}

/// When a handler's subscription goes away, the message that it was processing is
/// completed once, and so is each message that it had not received. When any other
/// goes away, nothing is completed.
pub proof fn law_dropping_completes_what_is_held<V, E>(
    subscription: SubscriptionModel<V, E>,
    trackers: TableModel<E>,
)
    ensures
        !subscription.tracking ==> subscription.trackers_at_drop(trackers) == trackers,
        subscription.tracking ==> crate::laws::counts::counts_up(
            trackers,
            subscription.trackers_at_drop(trackers),
            |k: u64|
                (if subscription.current_tracker == Some(k) {
                    1nat
                } else {
                    0nat
                }) + number_under(subscription.mailbox.queue, k),
        ),
{
    let error = crate::subscription::interruption::<E>(subscription.report_id());
    let current = trackers.failed(subscription.current_tracker, error);
    let none = |k: u64| 0nat;
    let one = |k: u64|
        if subscription.current_tracker == Some(k) {
            1nat
        } else {
            0nat
        };
    crate::laws::counts::lemma_counts_none(trackers, none);
    crate::laws::counts::lemma_counts_one_more(
        trackers,
        trackers,
        current,
        subscription.current_tracker,
        none,
        one,
    );
    lemma_abandoned(trackers, current, subscription.wanted, subscription.mailbox.queue, one);
    if subscription.tracking {
        let total = |k: u64|
            (if subscription.current_tracker == Some(k) {
                1nat
            } else {
                0nat
            }) + number_under(subscription.mailbox.queue, k);
        assert(total =~= (|k: u64| one(k) + number_under(subscription.mailbox.queue, k)));
    }
}

/// When a handler's subscription goes away, the message that it was processing
/// fails, and so do those that it asks for and had not received; messages that it
/// does not ask for do not. An error that is there already stays. The error is
/// about the first of these messages, in the order in which they would have been
/// received.
pub proof fn law_dropping_fails_what_is_held<V, E>(
    subscription: SubscriptionModel<V, E>,
    trackers: TableModel<E>,
    key: u64,
    i: int,
)
    requires
        subscription.tracking,
        trackers.live.contains_key(key),
        0 <= i <= subscription.mailbox.queue.len(),
        forall|j: int|
            0 <= j < i ==> !((#[trigger] subscription.mailbox.queue[j]).tracker == Some(key)
                && is_for(subscription.mailbox.queue[j], subscription.wanted)),
        i < subscription.mailbox.queue.len() ==> subscription.mailbox.queue[i].tracker == Some(key)
            && is_for(subscription.mailbox.queue[i], subscription.wanted),
    ensures
        ({
            let queue = subscription.mailbox.queue;
            let old = trackers.live[key].error;
            let new = subscription.trackers_at_drop(trackers).live[key].error;
            let current = subscription.current_tracker == Some(key);
            &&& old is Some ==> new == old
            &&& old is None && current ==> gave_up(
                new,
                match subscription.current_msg_id {
                    Some(id) => id,
                    None => 0,
                },
            )
            &&& old is None && !current && i < queue.len() ==> gave_up(new, queue[i].msg_id)
            &&& old is None && !current && i == queue.len() ==> new is None
        }),
{
    let error = crate::subscription::interruption::<E>(subscription.report_id());
    let current = trackers.failed(subscription.current_tracker, error);
    lemma_abandoned_error(current, subscription.wanted, subscription.mailbox.queue, key, i);
}

/// A subscription refers to a tracker exactly when the message that it processes,
/// or one of those in its queue, has that tracker.
pub proof fn law_references_are_messages<V, E>(subscription: SubscriptionModel<V, E>, key: u64)
    ensures
        subscription.refers_to(key) <==> subscription.current_tracker == Some(key) || exists|
            i: int,
        |
            0 <= i < subscription.mailbox.queue.len() && (
            #[trigger] subscription.mailbox.queue[i]).tracker == Some(key),
{
    lemma_number_positive(subscription.mailbox.queue, key);
    lemma_number_under(subscription.mailbox.queue, key);
}

/// A handler runs exactly on the message that its subscription yields, waits
/// exactly while none is there, and ends exactly when its subscription does.
/// Before it receives, a message whose processing has ended is forgotten.
pub proof fn law_handlers_do_what_they_receive<V, E>(
    subscription: SubscriptionModel<V, E>,
    received: Received<V, E>,
    event: HandlerEvent<E>,
)
    ensures
        match received {
            Received::Message(value) => crate::stream::action_for(received)
                == HandlerAction::<V, E>::Run(value),
            Received::Empty => crate::stream::action_for(received) is Wait,
            Received::Closed => crate::stream::action_for(received) is Exit,
        },
        ({
            let before = crate::stream::before_receiving(subscription, event);
            &&& before.mailbox == subscription.mailbox
            &&& before.wanted == subscription.wanted
            &&& before.tracking == subscription.tracking
            &&& event is Ready ==> before == subscription
            &&& event is Ended ==> before.current_tracker is None && before.current_msg_id is None
        }),
{
}

} // verus!
