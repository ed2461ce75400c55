use vstd::prelude::*;

verus! {

/// Why a status query failed. Every kind ends the query; none is retried.
#[derive(Debug, Clone, Copy, PartialEq, Eq, Structural)]
pub enum QueryError {
    /// The host and port could not be resolved or connected to.
    ResolutionError,
    /// The local UDP endpoint could not be set up.
    SocketError,
    /// The request was not sent before the write timeout.
    SendTimeout,
    /// No reply came before the read timeout.
    ReceiveTimeout,
    /// The reply is too short to hold the server GUID.
    TooShort,
    /// The reply's text payload is not valid UTF-8.
    EncodingError,
    /// The clock reads a time that the request cannot carry.
    ClockError,
}

} // verus!
