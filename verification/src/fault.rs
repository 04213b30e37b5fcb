use vstd::prelude::*;

verus! {

/// A request that the engine refused because it breaks the protocol between
/// the engine and its callers. The state is left as it was.
#[derive(Clone, Copy, Debug, PartialEq, Eq, Structural)]
pub enum EngineFault {
    /// The room, player, tier or card slot that the request names does not exist.
    NotFound,
    /// Carrying the request out would break an invariant of the state: a
    /// counter would fall below zero or leave its range, a room would be
    /// opened a second time, a deck would hand out a card that it does not have.
    InvariantViolation,
    /// The request is not one that the engine takes: it names a kind of
    /// resource that does not exist, asks for the top of an exhausted deck or
    /// for a room without users, or lacks its payload.
    IllegalOperation,
}

/// Why a message was not processed.
#[derive(Clone, Copy, Debug, PartialEq, Eq, Structural)]
pub enum Failure {
    /// The service answered the registration with this error code. The caller
    /// may register again or shut down.
    RegistrationRefused(i32),
    /// The message broke the protocol.
    Fault(EngineFault),
}

} // verus!
