//! A typed, heterogeneous event relay with completion tracking.
//!
//! A relay carries messages of any type to all its subscriptions. Handlers
//! complete the messages that they get, and a sender can wait until all have.
//! The library holds the state of relays and trackers and decides what happens
//! next; the program around it shares the state and does the waiting.

pub mod envelope;
pub mod error;
pub mod events;
pub mod inner;
pub mod laws;
pub mod mailbox;
pub mod stream;
pub mod subscription;
pub mod tracker;
pub mod type_key;

pub use envelope::{Envelope, Payload};
pub use error::{Fault, PanicError, PanicPayload, RelayError};
pub use events::Dropped;
pub use inner::{release_tracker, Inner, ReadyGuard, RelayIds, WaitAction, WaitPoint};
pub use mailbox::{Fetched, Offered};
pub use stream::{
    handler_outcome, HandlerAction, HandlerEvent, HandlerGuard, HandlerStep, HandlerTask,
    IntoResult, PendingSend, Relay, RelayReceiver, RelaySender, SendError, SendStep, TestRelay,
    WeakSender, DEFAULT_CHANNEL_SIZE,
};
pub use subscription::{HandlerOutcome, Received, Subscription, Wanted};
pub use tracker::{
    Completion, CompletionFuture, CompletionTracker, PollAction, PollEvent, TrackerTable,
};
pub use type_key::TypeKey;
