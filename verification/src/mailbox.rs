use tokio::sync::mpsc;
use vstd::prelude::*;

verus! {

/// `tokio::sync::mpsc::Sender`, carried as an opaque value.
#[verifier::external_type_specification]
#[verifier::external_body]
#[verifier::reject_recursive_types(T)]
pub struct ExSender<T>(mpsc::Sender<T>);

/// `tokio::sync::mpsc::Receiver`, carried as an opaque value.
#[verifier::external_type_specification]
#[verifier::external_body]
#[verifier::reject_recursive_types(T)]
pub struct ExReceiver<T>(mpsc::Receiver<T>);

/// What a [`Mailbox`] holds.
#[verifier::ext_equal]
pub struct MailboxModel<T> {
    /// The messages that were sent and not yet received, oldest first.
    pub queue: Seq<T>,
    /// How many messages fit.
    pub capacity: nat,
    /// Whether the sending end is still there.
    pub connected: bool,
}

impl<T> MailboxModel<T> {
    /// Whether a message that is sent now is taken.
    pub open spec fn takes(self) -> bool {
        self.connected && self.queue.len() < self.capacity
    }

    /// What comes of a message that is offered now.
    pub open spec fn answer(self) -> Offered {
        if self.takes() {
            Offered::Taken
        } else if self.connected {
            Offered::Full
        } else {
            Offered::Disconnected
        }
    }

    /// A message was offered: it is taken if there is room for it.
    pub open spec fn offered(self, item: T) -> MailboxModel<T> {
        if self.takes() {
            MailboxModel { queue: self.queue.push(item), ..self }
        } else {
            self
        }
    }
}

/// What comes of a message that is offered to a [`Mailbox`].
#[derive(Clone, Copy, Debug, PartialEq, Eq)]
pub enum Offered {
    /// It is in the queue.
    Taken,
    /// It was lost: there is no room.
    Full,
    /// It was lost: the sending end is gone.
    Disconnected,
}

/// What came out of a [`Mailbox`].
pub enum Fetched<T> {
    /// The oldest message.
    Item(T),
    /// No message is there, but one may still come.
    Empty,
    /// No message is there, and none will come.
    Disconnected,
}

/// Both ends of one bounded channel.
///
/// The channel is reached through this value alone: neither end is handed out
/// or cloned. So the messages in it are known, and `queue` tells which. No
/// function outside this file can touch the fields.
#[verifier::reject_recursive_types(T)]
pub struct Mailbox<T> {
    tx: Option<mpsc::Sender<T>>,
    rx: mpsc::Receiver<T>,
    queue: Ghost<Seq<T>>,
    capacity: Ghost<nat>,
}

impl<T> View for Mailbox<T> {
    type V = MailboxModel<T>;

    closed spec fn view(&self) -> MailboxModel<T> {
        MailboxModel {
            queue: self.queue@,
            capacity: self.capacity@,
            connected: self.tx is Some,
        }
    }
}

/// The largest capacity of a channel.
pub open spec fn max_capacity() -> nat {
    (usize::MAX / 8) as nat
}

impl<T> Mailbox<T> {
    /// `tokio::sync::mpsc::channel`: an empty channel that holds `capacity`
    /// messages. The call panics unless the capacity lies between one and the
    /// largest number of permits of a semaphore.
    #[verifier::external_body]
    pub(crate) fn open(capacity: usize) -> (r: Mailbox<T>)
        requires
            1 <= capacity <= max_capacity(),
        ensures
            r@ == (MailboxModel::<T> {
                queue: Seq::empty(),
                capacity: capacity as nat,
                connected: true,
            }),
    {
        let (tx, rx) = mpsc::channel(capacity);
        Mailbox { tx: Some(tx), rx, queue: Ghost(Seq::empty()), capacity: Ghost(capacity as nat) }
    }

    /// `tokio::sync::mpsc::Sender::try_send`: the message goes to the end of
    /// the queue if the queue holds less than the capacity; else it is handed
    /// back, and here discarded. The receiver is not closed while this value
    /// is there.
    #[verifier::external_body]
    fn push(&mut self, item: T) -> (sent: bool)
        requires
            old(self)@.connected,
        ensures
            sent == old(self)@.takes(),
            final(self)@ == old(self)@.offered(item),
    {
        self.tx.as_ref().unwrap().try_send(item).is_ok()
    }

    /// `tokio::sync::mpsc::Receiver::try_recv`: the oldest message, or, where
    /// there is none, whether the sender is still there.
    #[verifier::external_body]
    pub(crate) fn fetch(&mut self) -> (r: Fetched<T>)
        ensures
            match r {
                Fetched::Item(item) => {
                    &&& old(self)@.queue.len() > 0
                    &&& item == old(self)@.queue[0]
                    &&& final(self)@ == (MailboxModel {
                        queue: old(self)@.queue.drop_first(),
                        ..old(self)@
                    })
                },
                Fetched::Empty => {
                    &&& old(self)@.queue.len() == 0
                    &&& old(self)@.connected
                    &&& final(self)@ == old(self)@
                },
                Fetched::Disconnected => {
                    &&& old(self)@.queue.len() == 0
                    &&& !old(self)@.connected
                    &&& final(self)@ == old(self)@
                },
            },
    {
        match self.rx.try_recv() {
            Ok(item) => Fetched::Item(item),
            Err(mpsc::error::TryRecvError::Empty) => Fetched::Empty,
            Err(mpsc::error::TryRecvError::Disconnected) => Fetched::Disconnected,
        }
    }

    /// Offer a message. It is lost if the mailbox is full or disconnected.
    pub fn offer(&mut self, item: T) -> (r: Offered)
        ensures
            r == old(self)@.answer(),
            final(self)@ == old(self)@.offered(item),
    {
        if self.tx.is_none() {
            return Offered::Disconnected;
        }
        if self.push(item) {
            Offered::Taken
        } else {
            Offered::Full
        }
    }

    /// Let go of the sending end. The messages in the queue can still be
    /// fetched.
    pub fn disconnect(&mut self)
        ensures
            final(self)@ == (MailboxModel { connected: false, ..old(self)@ }),
    {
        self.tx = None;
    }
}

} // verus!
