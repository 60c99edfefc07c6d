use std::sync::Arc;
use vstd::prelude::*;

verus! {

/// What a panic carried, told apart by its type.
#[derive(Debug)]
pub enum PanicPayload {
    /// A string literal.
    Literal(&'static str),
    /// An owned string.
    Text(String),
    /// Anything else.
    Other,
}

/// A panic, turned into an error.
///
/// Only the text of the panic survives: a payload that is no string is
/// replaced by a generic message.
#[derive(Debug)]
pub struct PanicError {
    message: String,
}

impl View for PanicError {
    type V = Seq<char>;

    /// The message of the panic.
    closed spec fn view(&self) -> Seq<char> {
        self.message@
    }
}

/// The message that is kept of a panic payload.
pub open spec fn panic_message(payload: PanicPayload) -> Seq<char> {
    match payload {
        PanicPayload::Literal(s) => s@,
        PanicPayload::Text(s) => s@,
        PanicPayload::Other => "panic occurred (non-string payload)"@,
    }
}

/// The decimal digit of a number below ten.
pub open spec fn digit(n: nat) -> char {
    (('0' as nat) + n) as char
}

/// A number, written in decimal.
pub open spec fn decimal(n: nat) -> Seq<char>
    decreases n,
{
    if n < 10 {
        seq![digit(n)]
    } else {
        decimal(n / 10).push(digit(n % 10))
    }
}

/// Write a number below ten.
fn write_digit(n: u64) -> (r: &'static str)
    requires
        n < 10,
    ensures
        r@ == seq![digit(n as nat)],
{
    proof {
        reveal_strlit("0");
        reveal_strlit("1");
        reveal_strlit("2");
        reveal_strlit("3");
        reveal_strlit("4");
        reveal_strlit("5");
        reveal_strlit("6");
        reveal_strlit("7");
        reveal_strlit("8");
        reveal_strlit("9");
    }
    let r = match n {
        0 => "0",
        1 => "1",
        2 => "2",
        3 => "3",
        4 => "4",
        5 => "5",
        6 => "6",
        7 => "7",
        8 => "8",
        _ => "9",
    };
    assert(r@ =~= seq![digit(n as nat)]);
    r
}

/// Write a number in decimal.
fn write_decimal(n: u64) -> (r: String)
    ensures
        r@ == decimal(n as nat),
    decreases n,
{
    if n < 10 {
        write_digit(n).to_string()
    } else {
        let mut r = write_decimal(n / 10);
        r.append(write_digit(n % 10));
        assert(r@ =~= decimal(n as nat));
        r
    }
}

impl PanicError {
    /// Create a `PanicError` from a panic payload.
    pub fn new(payload: PanicPayload) -> (r: PanicError)
        ensures
            r@ == panic_message(payload),
    {
        let message = match payload {
            PanicPayload::Literal(s) => s.to_string(),
            PanicPayload::Text(s) => s,
            PanicPayload::Other => "panic occurred (non-string payload)".to_string(),
        };
        PanicError { message }
    }

    /// The panic in words.
    pub fn to_text(&self) -> (r: String)
        ensures
            r@ == "panic: "@ + self@,
    {
        let mut r = "panic: ".to_string();
        r.append(self.message.as_str());
        r
    }
}

/// The error underneath a [`RelayError`].
#[derive(Debug)]
pub enum Fault<E> {
    /// The error that a handler returned.
    Raised(E),
    /// A handler panicked.
    Panicked(PanicError),
    /// A subscription was dropped while it was processing a message.
    Interrupted,
}

/// Error from a downstream handler of a relay.
#[derive(Debug)]
pub struct RelayError<E> {
    /// The message ID that caused this error (0 if unknown).
    pub msg_id: u64,
    /// The underlying error.
    pub error: Arc<Fault<E>>,
    /// Where the error comes from: "sink", "tap", "within" or "subscription".
    pub source: &'static str,
}

impl<E> RelayError<E> {
    /// Create a new `RelayError`.
    pub fn new(msg_id: u64, error: Fault<E>, source: &'static str) -> (r: RelayError<E>)
        ensures
            r.msg_id == msg_id,
            *r.error == error,
            r.source == source,
    {
        RelayError { msg_id, error: Arc::new(error), source }
    }
}

impl<E> Fault<E> {
    /// The error in words, given those of a handler's own error.
    pub open spec fn text(self, raised: Seq<char>) -> Seq<char> {
        match self {
            Fault::Raised(_) => raised,
            Fault::Panicked(panic) => "panic: "@ + panic@,
            Fault::Interrupted => "subscription dropped while processing message"@,
        }
    }

    /// The error in words, given those of a handler's own error.
    pub fn to_text(&self, raised: &str) -> (r: String)
        ensures
            r@ == self.text(raised@),
    {
        match self {
            Fault::Raised(_) => raised.to_string(),
            Fault::Panicked(panic) => panic.to_text(),
            Fault::Interrupted => "subscription dropped while processing message".to_string(),
        }
    }
}

impl<E> RelayError<E> {
    /// The error in words, with its source and the message it is about, given
    /// the words of a handler's own error.
    pub fn to_text(&self, raised: &str) -> (r: String)
        ensures
            r@ == "["@ + self.source@ + "] msg "@ + decimal(self.msg_id as nat) + ": "@
                + self.error.text(raised@),
    {
        let mut r = "[".to_string();
        r.append(self.source);
        r.append("] msg ");
        r.append(write_decimal(self.msg_id).as_str());
        r.append(": ");
        r.append(self.error.to_text(raised).as_str());
        r
    }
}

impl<E> Clone for RelayError<E> {
    fn clone(&self) -> (r: RelayError<E>)
        ensures
            r == *self,
    {
        RelayError { msg_id: self.msg_id, error: self.error.clone(), source: self.source }
    }
}

} // verus!
