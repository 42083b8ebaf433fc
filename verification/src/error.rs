use vstd::prelude::*;

verus! {

/// The ways an operation on the registry can fail. Every failure is terminal
/// for the enclosing operation and leaves the registry unchanged.
#[derive(Clone, Copy, Debug, PartialEq, Eq, Structural)]
pub enum Error {
    /// The caller did not prove control of the identity it acts as. The
    /// authentication collaborator around this crate reports it; no function
    /// of the registry itself ever returns it.
    Unauthorized,
    /// The referenced event id was never allocated.
    NotFound,
    /// The provided secret does not equal the event's stored secret.
    InvalidSecret,
    /// The event's `minted_count` already equals its `max_supply`.
    SupplyExhausted,
    /// The identity already holds a successful claim for this event.
    AlreadyClaimed,
    /// The id allocator would exceed its representable range.
    Overflow,
}

} // verus!
