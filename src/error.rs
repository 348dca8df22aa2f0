//! Error kinds shared by the library.

use vstd::prelude::*;

verus! {

/// Every failure the agent reports, each with a free-form diagnostic.
#[derive(Debug, Clone, PartialEq, Eq)]
pub enum WgAgentError {
    /// A descriptor or configuration was rejected.
    Config(String),
    /// The OS abstraction reported a failure.
    Platform(String),
    /// A session could not be built or failed.
    WireGuard(String),
    /// The TUN device could not be created, read or written.
    TunDevice(String),
    /// A packet could not be processed.
    PacketProcessing(String),
    /// A handshake failed.
    Handshake(String),
    /// The control protocol failed.
    ControlApi(String),
    /// The service manager integration failed.
    Service(String),
    /// An I/O operation failed.
    Io(String),
    /// JSON encoding or decoding failed.
    Serialization(String),
    /// A file's permissions or the process's privileges are insufficient.
    Permission(String),
    /// A named network is unknown.
    NotFound(String),
    /// A life-cycle transition is not permitted in the current state.
    InvalidState(String),
    /// An operation ran past its deadline.
    Timeout(String),
    /// A security precondition does not hold.
    Security(String),
    /// An input failed validation.
    Validation(String),
}

/// Builds an owned message from a literal.
pub fn msg(s: &str) -> (r: String)
    ensures
        r@ == s@,
{
    String::from_str(s)
}

} // verus!
