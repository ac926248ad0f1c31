//! What can go wrong in the engine.

use vstd::prelude::*;

verus! {

/// The failures of the engine, by the step that failed.
#[derive(Debug, Clone, Copy, PartialEq, Eq, Structural)]
pub enum HoneypotError {
    /// A listener could not bind its port.
    Bind,
    /// Accepting a connection failed.
    Accept,
    /// The greeting could not be sent.
    Write,
    /// The read from the peer failed.
    Read,
    /// A record could not be put into text.
    Serialization,
    /// The log could not be opened or written.
    Sink,
}

impl HoneypotError {
    /// Whether the failure ends the listener it happened in. Every other
    /// failure ends at most the connection it happened in.
    pub open spec fn is_fatal(self) -> bool {
        self == HoneypotError::Bind
    }

    /// Whether the failure ends the listener it happened in.
    pub fn fatal_to_listener(self) -> (fatal: bool)
        ensures
            fatal == self.is_fatal(),
    {
        match self {
            HoneypotError::Bind => true,
            HoneypotError::Accept => false,
            HoneypotError::Write => false,
            HoneypotError::Read => false,
            HoneypotError::Serialization => false,
            HoneypotError::Sink => false,
        }
    }
}

} // verus!
