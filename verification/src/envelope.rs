use std::any::TypeId;
use std::sync::Arc;
use vstd::prelude::*;

use crate::error::RelayError;
use crate::events::Dropped;
use crate::type_key::TypeKey;

verus! {

/// The content of a message.
///
/// `V` is whatever the program sends, with its type erased, and `E` the error
/// type of its handlers.
#[derive(Debug)]
pub enum Payload<V, E> {
    /// A value of the program, with the type that it was erased from.
    Value { value: V, type_id: TypeId, label: &'static str },
    /// The relay reports a dropped message.
    Dropped(Dropped),
    /// A handler failed.
    Error(RelayError<E>),
}

impl<V, E> Payload<V, E> {
    /// The type that the content really has.
    pub open spec fn spec_type_key(&self) -> TypeKey {
        match self {
            Payload::Value { type_id, .. } => TypeKey::Of(*type_id),
            Payload::Dropped(_) => TypeKey::Dropped,
            Payload::Error(_) => TypeKey::RelayError,
        }
    }

    /// The name of the type, for debugging.
    pub open spec fn spec_label(&self) -> &'static str {
        match self {
            Payload::Value { label, .. } => label,
            Payload::Dropped(_) => "Dropped",
            Payload::Error(_) => "RelayError",
        }
    }

    /// The type that the content really has.
    #[verifier::when_used_as_spec(spec_type_key)]
    pub fn type_key(&self) -> (r: TypeKey)
        ensures
            r == self.spec_type_key(),
    {
        match self {
            Payload::Value { type_id, .. } => TypeKey::Of(*type_id),
            Payload::Dropped(_) => TypeKey::Dropped,
            Payload::Error(_) => TypeKey::RelayError,
        }
    }

    /// The name of the type, for debugging.
    pub fn label(&self) -> (r: &'static str)
        ensures
            r == self.spec_label(),
    {
        match self {
            Payload::Value { label, .. } => label,
            Payload::Dropped(_) => "Dropped",
            Payload::Error(_) => "RelayError",
        }
    }
}

/// A message on its way, whatever its type.
#[derive(Debug)]
pub struct Envelope<V, E> {
    /// The content. All copies of an envelope share it.
    pub value: Arc<Payload<V, E>>,
    /// The type that the sender declared.
    pub type_id: TypeKey,
    /// The message ID.
    pub msg_id: u64,
    /// The key of the tracker that handlers complete, if the message is tracked.
    pub tracker: Option<u64>,
    /// The relay where this envelope originated (0 until a relay sends it).
    pub origin: u64,
}

impl<V, E> Clone for Envelope<V, E> {
    fn clone(&self) -> (r: Envelope<V, E>)
        ensures
            r == *self,
    {
        Envelope {
            value: self.value.clone(),
            type_id: self.type_id,
            msg_id: self.msg_id,
            tracker: self.tracker,
            origin: self.origin,
        }
    }
}

impl<V, E> Envelope<V, E> {
    /// Create a new envelope around a content.
    pub fn new(value: Payload<V, E>, msg_id: u64, tracker: Option<u64>) -> (r: Envelope<V, E>)
        ensures
            r == (Envelope {
                value: Arc::new(value),
                type_id: value.type_key(),
                msg_id,
                tracker,
                origin: 0,
            }),
    {
        Envelope::with_origin(value, msg_id, tracker, 0)
    }

    /// Create a new envelope with a specific origin.
    pub fn with_origin(
        value: Payload<V, E>,
        msg_id: u64,
        tracker: Option<u64>,
        origin: u64,
    ) -> (r: Envelope<V, E>)
        ensures
            r == (Envelope {
                value: Arc::new(value),
                type_id: value.type_key(),
                msg_id,
                tracker,
                origin,
            }),
    {
        let type_id = value.type_key();
        Envelope { value: Arc::new(value), type_id, msg_id, tracker, origin }
    }

    /// Create an envelope from a shared content, with a declared type.
    pub fn from_any(
        value: Arc<Payload<V, E>>,
        type_id: TypeKey,
        msg_id: u64,
        tracker: Option<u64>,
    ) -> (r: Envelope<V, E>)
        ensures
            r == (Envelope { value, type_id, msg_id, tracker, origin: 0 }),
    {
        Envelope { value, type_id, msg_id, tracker, origin: 0 }
    }

    /// Create an envelope from a shared content, with a declared type and a
    /// specific origin.
    pub fn from_any_with_origin(
        value: Arc<Payload<V, E>>,
        type_id: TypeKey,
        msg_id: u64,
        tracker: Option<u64>,
        origin: u64,
    ) -> (r: Envelope<V, E>)
        ensures
            r == (Envelope { value, type_id, msg_id, tracker, origin }),
    {
        Envelope { value, type_id, msg_id, tracker, origin }
    }

    /// Get the declared type.
    pub fn type_id(&self) -> (r: TypeKey)
        ensures
            r == self.type_id,
    {
        self.type_id
    }

    /// Get the message ID.
    pub fn msg_id(&self) -> (r: u64)
        ensures
            r == self.msg_id,
    {
        self.msg_id
    }

    /// Get the key of the completion tracker if present.
    pub fn tracker(&self) -> (r: Option<u64>)
        ensures
            r == self.tracker,
    {
        self.tracker
    }

    /// Get the ID of the relay where the envelope originated.
    pub fn origin(&self) -> (r: u64)
        ensures
            r == self.origin,
    {
        self.origin
    }

    /// Create a copy of this envelope with a new origin.
    pub fn with_new_origin(&self, origin: u64) -> (r: Envelope<V, E>)
        ensures
            r == (Envelope { origin, ..*self }),
    {
        Envelope {
            value: self.value.clone(),
            type_id: self.type_id,
            msg_id: self.msg_id,
            tracker: self.tracker,
            origin,
        }
    }

    /// Create a copy of this envelope without a tracker.
    ///
    /// Used when forwarding: the target relay has handlers of its own.
    pub fn without_tracker(&self) -> (r: Envelope<V, E>)
        ensures
            r == (Envelope { tracker: None, ..*self }),
    {
        Envelope {
            value: self.value.clone(),
            type_id: self.type_id,
            msg_id: self.msg_id,
            tracker: None,
            origin: self.origin,
        }
    }

    /// The content, if it really is of the given type.
    pub fn downcast_ref(&self, wanted: TypeKey) -> (r: Option<&Payload<V, E>>)
        ensures
            r == (if self.value.type_key() == wanted {
                Some(&*self.value)
            } else {
                None
            }),
    {
        if self.value.type_key().same(wanted) {
            Some(&*self.value)
        } else {
            None
        }
    }

    /// The shared content, if it really is of the given type.
    pub fn downcast(&self, wanted: TypeKey) -> (r: Option<Arc<Payload<V, E>>>)
        ensures
            r == (if self.value.type_key() == wanted {
                Some(self.value)
            } else {
                None
            }),
    {
        if self.value.type_key().same(wanted) {
            Some(self.value.clone())
        } else {
            None
        }
    }

    /// Check if the envelope was declared to hold the given type.
    pub fn is(&self, wanted: TypeKey) -> (r: bool)
        ensures
            r == (self.type_id == wanted),
    {
        self.type_id.same(wanted)
    }
}

} // verus!
