use std::any::TypeId;
use vstd::prelude::*;

verus! {

/// `std::any::TypeId`, carried through as an opaque value.
#[verifier::external_type_specification]
#[verifier::external_body]
pub struct ExTypeId(std::any::TypeId);

/// The type of a message, as subscriptions compare it.
///
/// The two kinds of message that the relay itself produces have keys of their
/// own. Every other type is known by its `TypeId`.
#[derive(Clone, Copy, Debug, PartialEq, Eq, Hash)]
pub enum TypeKey {
    /// A type of the program that uses the relay.
    Of(TypeId),
    /// [`Dropped`](crate::Dropped).
    Dropped,
    /// [`RelayError`](crate::RelayError).
    RelayError,
}

impl TypeKey {
    /// Whether two keys stand for the same type.
    pub fn same(self, other: TypeKey) -> (r: bool)
        ensures
            r == (self == other),
    {
        match (self, other) {
            (TypeKey::Of(a), TypeKey::Of(b)) => same_type_id(a, b),
            (TypeKey::Dropped, TypeKey::Dropped) => true,
            (TypeKey::RelayError, TypeKey::RelayError) => true,
            _ => false,
        }
    }
}

/// `TypeId`'s `==`: true exactly when the two identifiers are the same one.
#[verifier::external_body]
fn same_type_id(a: TypeId, b: TypeId) -> (r: bool)
    ensures
        r == (a == b),
{
    a == b
}

} // verus!
