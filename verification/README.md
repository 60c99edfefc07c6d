# pipedream_rs

A typed, heterogeneous event relay for one process, verified with Verus.

A relay carries messages of any type to all of its subscriptions. Handlers
(sinks and taps) take part in completion tracking: a sender gets its result when
all handlers that got it have completed the message, and the
first error among theirs is that result. Plain subscriptions get the same
messages, and nobody waits for them.

## Layout

- `src/` is the verified library. It holds the state of a relay as plain data
  and moves it from one step to the next:
  - `type_key`, `envelope`, `events`, `error`: what messages and errors are made of;
  - `tracker`: completion trackers, the table that holds them, and waiting for them;
  - `mailbox`: one bounded tokio channel per subscription;
  - `subscription`: receiving, skipping other types, settling, going away;
  - `inner`: the state of a relay: delivery, closing, readiness, handler count;
  - `stream`: senders, receivers, handlers and the sending of a message;
  - `laws`: what holds of the library as a whole.
- `app/` is ordinary Rust around it for tokio programs: locks, wake-ups, spawned
  tasks, type erasure, panic catching and tracing spans.
- `tests/` runs the library from outside.

## Steps instead of awaiting

Where a program has to wait, the library says so and is asked again:

- `RelaySender::send` gives a `PendingSend`. Its `step` delivers the message once
  all subscriptions are ready, and then tells whether to wait for readiness, to
  wait for completion, or that the sending has ended.
- `HandlerTask::advance` settles the message that a handler has processed and
  hands out the next one. An error that it returns is to be sent through the
  relay as well.
- `CompletionFuture::poll`, `CompletionTracker::wait_async` and `Inner::wait_ready`
  decide when a waiting task looks again.

## Delivery

Delivery never waits: a subscription whose mailbox is full misses the message,
and every subscription with room then gets a `Dropped` notice. A handler that
misses a message is not waited for: the message is complete for it at once. A
handler that goes away fails the messages that it still has, and completes those
of other types. So a sender only
ever waits for handlers that have the message.

## Trackers

Every message that is sent gets a tracker, which tells how many handlers were
counted and how many have completed. It stays in the table when the sending has
ended, for those who have the envelope. `release_tracker` lets go of one, and
does so only if no mailbox holds it, no subscription processes it and the program
does not keep it.

## What is trusted

The contracts of `TypeId`'s `==`, and of `channel`, `Sender::try_send` and
`Receiver::try_recv` of tokio's bounded channel, are stated and not proved.
