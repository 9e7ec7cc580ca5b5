use vstd::prelude::*;

verus! {

/// Why an operation of a session failed.
#[derive(Clone, Debug)]
pub enum PingError {
    /// The engine reported a failure; the engine's own message.
    LibOpingError(String),
    /// A host name held a NUL byte, so it could not be handed to the engine.
    NulByteError,
}

pub type PingResult<T> = Result<T, PingError>;

} // verus!
