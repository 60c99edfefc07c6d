use std::collections::HashMap;
use vstd::prelude::*;

use crate::error::RelayError;

verus! {

broadcast use vstd::std_specs::hash::group_hash_axioms;

/// What a [`CompletionTracker`] holds.
pub struct TrackerModel<E> {
    /// How many handlers are to complete.
    pub expected: nat,
    /// How many completions were signaled.
    pub completed: nat,
    /// The first error that a handler failed with, until it is taken.
    pub error: Option<RelayError<E>>,
}

impl<E> TrackerModel<E> {
    /// Whether all handlers have completed.
    pub open spec fn is_complete(self) -> bool {
        self.completed >= self.expected
    }

    /// One more completion. The count stops at the largest number it can hold.
    pub open spec fn completed_one(self) -> TrackerModel<E> {
        TrackerModel {
            completed: if self.completed < usize::MAX {
                self.completed + 1
            } else {
                self.completed
            },
            ..self
        }
    }

    /// One more completion, with an error. The first error is kept.
    pub open spec fn failed(self, error: RelayError<E>) -> TrackerModel<E> {
        TrackerModel {
            error: if self.error is None {
                Some(error)
            } else {
                self.error
            },
            ..self
        }.completed_one()
    }

    /// The error was taken out.
    pub open spec fn error_taken(self) -> TrackerModel<E> {
        TrackerModel { error: None, ..self }
    }
}

/// Tracks completion of a single message across all handlers.
///
/// The number of handlers at send time determines `expected`. Handlers that
/// register afterwards are not waited for.
#[derive(Debug)]
pub struct CompletionTracker<E> {
    expected: usize,
    completed: usize,
    error: Option<RelayError<E>>,
}

impl<E> View for CompletionTracker<E> {
    type V = TrackerModel<E>;

    closed spec fn view(&self) -> TrackerModel<E> {
        TrackerModel {
            expected: self.expected as nat,
            completed: self.completed as nat,
            error: self.error,
        }
    }
}

impl<E> CompletionTracker<E> {
    /// Create a new tracker expecting `expected` handlers to complete.
    pub fn new(expected: usize) -> (r: CompletionTracker<E>)
        ensures
            r@ == (TrackerModel::<E> { expected: expected as nat, completed: 0, error: None }),
    {
        CompletionTracker { expected, completed: 0, error: None }
    }

    /// Get the expected count.
    pub fn expected(&self) -> (r: usize)
        ensures
            r == self@.expected,
    {
        self.expected
    }

    /// Get the completed count.
    pub fn completed(&self) -> (r: usize)
        ensures
            r == self@.completed,
    {
        self.completed
    }

    /// Check if all handlers have completed.
    pub fn is_complete(&self) -> (r: bool)
        ensures
            r == self@.is_complete(),
    {
        self.completed >= self.expected
    }

    /// Signal successful completion of one handler.
    ///
    /// Returns whether those who wait for the tracker are to be notified.
    /// Completions beyond the expected count are harmless: the tracker stays
    /// complete.
    pub fn complete_one(&mut self) -> (notify: bool)
        ensures
            final(self)@ == old(self)@.completed_one(),
            notify == final(self)@.is_complete(),
    {
        if self.completed < usize::MAX {
            self.completed = self.completed + 1;
        }
        self.completed >= self.expected
    }

    /// Signal failure with an error.
    ///
    /// The first error is the one that the sender gets.
    pub fn fail(&mut self, error: RelayError<E>) -> (notify: bool)
        ensures
            final(self)@ == old(self)@.failed(error),
            notify == final(self)@.is_complete(),
    {
        if self.error.is_none() {
            self.error = Some(error);
        }
        self.complete_one()
    }

    /// Take the error if one occurred.
    pub fn take_error(&mut self) -> (r: Option<RelayError<E>>)
        ensures
            r == old(self)@.error,
            final(self)@ == old(self)@.error_taken(),
    {
        self.error.take()
    }

    /// Whether a handler has failed, and nobody has taken the error.
    pub fn has_error(&self) -> (r: bool)
        ensures
            r == (self@.error is Some),
    {
        self.error.is_some()
    }

    /// Wait for all handlers to finish, by polling.
    pub fn wait(&self) -> (r: CompletionFuture<'_, E>)
        ensures
            *r.tracker == *self,
    {
        CompletionFuture { tracker: self }
    }

    /// Decide whether a task that waits for all handlers goes on.
    pub fn wait_async(&self) -> (r: Completion)
        ensures
            r == completion(self@.is_complete()),
    {
        if self.is_complete() {
            Completion::Finished
        } else {
            Completion::AwaitNotification
        }
    }
}

/// Where a task stands that waits for all handlers of a message.
#[derive(Clone, Copy, Debug, PartialEq, Eq)]
pub enum Completion {
    /// All of them have finished.
    Finished,
    /// Await a notification, and look again.
    AwaitNotification,
}

/// What waiting comes to, given whether all handlers have finished.
pub open spec fn completion(complete: bool) -> Completion {
    if complete {
        Completion::Finished
    } else {
        Completion::AwaitNotification
    }
}

/// What a [`TrackerTable`] holds.
#[verifier::ext_equal]
pub struct TableModel<E> {
    /// The trackers in use, by key.
    pub live: Map<u64, TrackerModel<E>>,
    /// The key that the next tracker gets.
    pub next: u64,
    /// Whether a tracker became complete, or was completed once more, since
    /// the signal was last taken.
    pub signal: bool,
}

impl<E> TableModel<E> {
    /// Every key in use was handed out before.
    pub open spec fn wf(self) -> bool {
        forall|k: u64| #[trigger] self.live.contains_key(k) ==> k < self.next
    }

    /// The tracker under `key` has changed to `tracker`, after a completion.
    pub open spec fn put(self, key: u64, tracker: TrackerModel<E>) -> TableModel<E> {
        TableModel {
            live: self.live.insert(key, tracker),
            signal: self.signal || tracker.is_complete(),
            ..self
        }
    }

    /// One more completion of the tracker under `key`, if there is one.
    pub open spec fn completed_one(self, key: Option<u64>) -> TableModel<E> {
        match key {
            Some(k) if self.live.contains_key(k) => self.put(k, self.live[k].completed_one()),
            _ => self,
        }
    }

    /// One more completion, with an error, of the tracker under `key`.
    pub open spec fn failed(self, key: Option<u64>, error: RelayError<E>) -> TableModel<E> {
        match key {
            Some(k) if self.live.contains_key(k) => self.put(k, self.live[k].failed(error)),
            _ => self,
        }
    }

    /// Whether all handlers have completed the message under `key`.
    pub open spec fn is_complete(self, key: u64) -> bool {
        self.live.contains_key(key) && self.live[key].is_complete()
    }

    /// The error under `key`, if there is one.
    pub open spec fn error(self, key: u64) -> Option<RelayError<E>> {
        if self.live.contains_key(key) {
            self.live[key].error
        } else {
            None
        }
    }

    /// A new tracker under the next key.
    pub open spec fn created(self, expected: nat) -> TableModel<E> {
        TableModel {
            live: self.live.insert(
                self.next,
                TrackerModel { expected, completed: 0, error: None },
            ),
            next: (self.next + 1) as u64,
            ..self
        }
    }

    /// The error under `key` was taken.
    pub open spec fn error_taken(self, key: u64) -> TableModel<E> {
        if self.live.contains_key(key) {
            TableModel { live: self.live.insert(key, self.live[key].error_taken()), ..self }
        } else {
            self
        }
    }

    /// The tracker under `key` is no longer in use.
    pub open spec fn released(self, key: u64) -> TableModel<E> {
        TableModel { live: self.live.remove(key), ..self }
    }
}

/// The trackers of the messages that are under way.
///
/// Envelopes and subscriptions refer to a tracker by its key. All copies of an
/// envelope share the tracker, and so do the sender and the handlers.
#[derive(Debug)]
pub struct TrackerTable<E> {
    live: HashMap<u64, CompletionTracker<E>>,
    next: u64,
    signal: bool,
}

impl<E> View for TrackerTable<E> {
    type V = TableModel<E>;

    closed spec fn view(&self) -> TableModel<E> {
        TableModel {
            live: self.live@.map_values(|t: CompletionTracker<E>| t@),
            next: self.next,
            signal: self.signal,
        }
    }
}

impl<E> TrackerTable<E> {
    /// A table without trackers.
    pub fn new() -> (r: TrackerTable<E>)
        ensures
            r@ == (TableModel::<E> { live: Map::empty(), next: 0, signal: false }),
            r@.wf(),
    {
        let r = TrackerTable { live: HashMap::new(), next: 0, signal: false };
        assert(r@.live =~= Map::empty());
        r
    }

    /// The key that the next tracker gets.
    pub fn next_key(&self) -> (r: u64)
        ensures
            r == self@.next,
    {
        self.next
    }

    /// Whether there is a key left for one more tracker.
    pub fn has_room(&self) -> (r: bool)
        ensures
            r == (self@.next < u64::MAX),
    {
        self.next < u64::MAX
    }

    /// Start tracking a message that `expected` handlers are to complete.
    pub fn create(&mut self, expected: usize) -> (key: u64)
        requires
            old(self)@.next < u64::MAX,
        ensures
            key == old(self)@.next,
            final(self)@ == old(self)@.created(expected as nat),
            old(self)@.wf() ==> !old(self)@.live.contains_key(key) && final(self)@.wf(),
    {
        let key = self.next;
        self.next = key + 1;
        self.live.insert(key, CompletionTracker::new(expected));
        assert(self@.live =~= old(self)@.created(expected as nat).live);
        key
    }

    /// The tracker under `key`, while it is in use.
    pub fn get(&self, key: u64) -> (r: Option<&CompletionTracker<E>>)
        ensures
            r is Some <==> self@.live.contains_key(key),
            r matches Some(tracker) ==> tracker@ == self@.live[key],
    {
        self.live.get(&key)
    }

    /// Check if all handlers of the message have completed.
    pub fn is_complete(&self, key: u64) -> (r: bool)
        ensures
            r == self@.is_complete(key),
    {
        match self.live.get(&key) {
            Some(tracker) => tracker.is_complete(),
            None => false,
        }
    }

    /// Signal successful completion of one handler.
    pub fn complete_one(&mut self, key: Option<u64>)
        ensures
            final(self)@ == old(self)@.completed_one(key),
            old(self)@.wf() ==> final(self)@.wf(),
    {
        if let Some(k) = key {
            if let Some(mut tracker) = self.live.remove(&k) {
                let notify = tracker.complete_one();
                self.live.insert(k, tracker);
                self.signal = self.signal || notify;
            }
        }
        assert(self@.live =~= old(self)@.completed_one(key).live);
    }

    /// Signal failure of one handler with an error.
    pub fn fail(&mut self, key: Option<u64>, error: RelayError<E>)
        ensures
            final(self)@ == old(self)@.failed(key, error),
            old(self)@.wf() ==> final(self)@.wf(),
    {
        if let Some(k) = key {
            if let Some(mut tracker) = self.live.remove(&k) {
                let notify = tracker.fail(error);
                self.live.insert(k, tracker);
                self.signal = self.signal || notify;
            }
        }
        assert(self@.live =~= old(self)@.failed(key, error).live);
    }

    /// Take the error of the message if one occurred.
    pub fn take_error(&mut self, key: u64) -> (r: Option<RelayError<E>>)
        ensures
            r == old(self)@.error(key),
            final(self)@ == old(self)@.error_taken(key),
            old(self)@.wf() ==> final(self)@.wf(),
    {
        let r = match self.live.remove(&key) {
            Some(mut tracker) => {
                let error = tracker.take_error();
                self.live.insert(key, tracker);
                error
            },
            None => None,
        };
        assert(self@.live =~= old(self)@.error_taken(key).live);
        r
    }

    /// Forget a tracker. Completions that still come are ignored.
    ///
    /// [`release_tracker`](crate::inner::release_tracker) does this for a
    /// tracker that nobody refers to.
    pub(crate) fn release(&mut self, key: u64)
        ensures
            final(self)@ == old(self)@.released(key),
            old(self)@.wf() ==> final(self)@.wf(),
    {
        self.live.remove(&key);
        assert(self@.live =~= old(self)@.released(key).live);
    }

    /// Whether those who wait for a tracker are to be notified, since this
    /// was last asked.
    pub fn take_signal(&mut self) -> (r: bool)
        ensures
            r == old(self)@.signal,
            final(self)@ == (TableModel { signal: false, ..old(self)@ }),
            old(self)@.wf() ==> final(self)@.wf(),
    {
        let r = self.signal;
        self.signal = false;
        r
    }

    /// Decide whether a task that waits for all handlers of the message goes
    /// on.
    pub fn wait_owned(&self, key: u64) -> (r: Completion)
        ensures
            r == completion(self@.is_complete(key)),
    {
        match self.live.get(&key) {
            Some(tracker) => tracker.wait_async(),
            None => Completion::AwaitNotification,
        }
    }
}

/// What happened before a [`CompletionFuture`] is asked again.
#[derive(Clone, Copy, Debug)]
pub enum PollEvent {
    /// The future was polled.
    Polled,
    /// The notification was enabled.
    Enabled,
    /// The notification has come.
    Notified,
    /// The notification has not come; the task will be woken when it does.
    NotNotified,
}

/// What a [`CompletionFuture`] is to do next.
#[derive(Clone, Copy, Debug, PartialEq, Eq)]
pub enum PollAction {
    /// All handlers have finished.
    Ready,
    /// Enable the notification.
    Enable,
    /// Poll the notification.
    PollNotification,
    /// Wake the task, so that it is polled again, and report `Pending`.
    WakeAndPend,
    /// Report `Pending`.
    Pend,
}

/// The next step of waiting for a tracker.
///
/// The tracker is looked at again after the notification was enabled, so that
/// no completion goes unnoticed.
pub open spec fn poll_action(complete: bool, event: PollEvent) -> PollAction {
    match event {
        PollEvent::NotNotified => PollAction::Pend,
        _ if complete => PollAction::Ready,
        PollEvent::Polled => PollAction::Enable,
        PollEvent::Enabled => PollAction::PollNotification,
        PollEvent::Notified => PollAction::WakeAndPend,
    }
}

/// A wait for the handlers of one message, made by [`CompletionTracker::wait`].
#[derive(Debug)]
pub struct CompletionFuture<'a, E> {
    /// The tracker of the message.
    pub tracker: &'a CompletionTracker<E>,
}

impl<'a, E> CompletionFuture<'a, E> {
    /// Decide what to do after `event`.
    pub fn poll(&self, event: PollEvent) -> (r: PollAction)
        ensures
            r == poll_action(self.tracker@.is_complete(), event),
    {
        match event {
            PollEvent::Polled => {
                // Already complete?
                if self.tracker.is_complete() {
                    PollAction::Ready
                } else {
                    PollAction::Enable
                }
            },
            PollEvent::Enabled => {
                // Look again after registering, to avoid a race.
                if self.tracker.is_complete() {
                    PollAction::Ready
                } else {
                    PollAction::PollNotification
                }
            },
            PollEvent::Notified => {
                if self.tracker.is_complete() {
                    PollAction::Ready
                } else {
                    // Not yet complete: wake the task to try again.
                    PollAction::WakeAndPend
                }
            },
            PollEvent::NotNotified => PollAction::Pend,
        }
    }
}

} // verus!
