//! What messages are, and what errors say.
use std::any::TypeId;
use vstd::prelude::*;

use crate::envelope::Payload;
use crate::error::{Fault, PanicPayload};
use crate::type_key::TypeKey;

verus! {

/// The type of a content is that of the value, or one of the two that the relay
/// itself produces; so is its name.
pub proof fn law_content_has_its_type<V, E>(payload: Payload<V, E>, program_type: TypeId)
    ensures
        payload.type_key() == TypeKey::Of(program_type) <==> (payload matches Payload::Value {
            type_id,
            ..
        } && type_id == program_type),
        payload.type_key() == TypeKey::Dropped <==> payload is Dropped,
        payload.type_key() == TypeKey::RelayError <==> payload is Error,
        payload matches Payload::Value { label, .. } ==> payload.spec_label() == label,
        payload is Dropped ==> payload.spec_label()@ == "Dropped"@,
        payload is Error ==> payload.spec_label()@ == "RelayError"@,
{
}

/// The number that a text of decimal digits stands for.
pub open spec fn number(text: Seq<char>) -> nat
    decreases text.len(),
{
    if text.len() == 0 {
        0
    } else {
        number(text.drop_last()) * 10 + (text.last() as nat - '0' as nat) as nat
    }
}

/// A number that is written in decimal reads as itself. It is written with
/// digits alone, at least one, and no zero in front of others.
pub proof fn law_decimal_reads_back(n: nat)
    ensures
        number(crate::error::decimal(n)) == n,
        crate::error::decimal(n).len() >= 1,
        forall|i: int|
            0 <= i < crate::error::decimal(n).len() ==> '0' <= #[trigger] crate::error::decimal(
                n,
            )[i] <= '9',
        crate::error::decimal(n).len() > 1 ==> crate::error::decimal(n)[0] != '0',
        n > 0 ==> crate::error::decimal(n)[0] != '0',
    decreases n,
{
    let text = crate::error::decimal(n);
    reveal_with_fuel(number, 2);
    if n < 10 {
        assert(text.drop_last() =~= Seq::empty());
    } else {
        law_decimal_reads_back(n / 10);
        assert(text.drop_last() =~= crate::error::decimal(n / 10));
        assert(text[0] == crate::error::decimal(n / 10)[0]);
        assert forall|i: int| 0 <= i < text.len() implies '0' <= #[trigger] text[i] <= '9' by {
            if i < text.len() - 1 {
                assert(text[i] == crate::error::decimal(n / 10)[i]);
            }
        }
    }
}

/// A panic keeps its text, literal or not, and one without a text says that it
/// has none.
pub proof fn law_panic_keeps_its_text(payload: PanicPayload)
    ensures
        match payload {
            PanicPayload::Literal(text) => crate::error::panic_message(payload) == text@,
            PanicPayload::Text(text) => crate::error::panic_message(payload) == text@,
            PanicPayload::Other => crate::error::panic_message(payload)
                == "panic occurred (non-string payload)"@,
        },
{
}

/// What an error says: what the handler's own error says, the text of the panic,
/// or that the subscription went away.
pub proof fn law_error_says_its_cause<E>(fault: Fault<E>, raised: Seq<char>)
    ensures
        fault is Raised ==> fault.text(raised) == raised,
        fault matches Fault::Panicked(panic) ==> fault.text(raised) == "panic: "@ + panic@,
        fault is Interrupted ==> fault.text(raised)
            == "subscription dropped while processing message"@,
{
}

} // verus!
