use vstd::prelude::*;

verus! {

/// Why a relay step failed.
#[derive(Debug, Clone, PartialEq)]
pub enum ErrorKind {
    /// A configured byte ceiling was crossed; carries the ceiling.
    SizeLimitExceeded(usize),
    /// The transport reported a failure while reading.
    ReadFailed,
    /// The transport reported a failure while writing or connecting.
    WriteFailed,
    /// The byte stream broke the protocol head discipline or was not text.
    InvalidData,
    /// A header carried a value that could not be used; carries the name.
    InvalidHeader(String),
    /// A required header was absent; carries the name.
    MissingHeader(String),
    /// A response operation ran before the upstream connection existed.
    NotConnected,
}

/// Where in the relay sequence a failure occurred, wrapping the reason.
#[derive(Debug, Clone, PartialEq)]
pub enum Error {
    /// While receiving or examining the client request.
    Request(ErrorKind),
    /// While connecting to the destination or forwarding the request.
    Relay(ErrorKind),
    /// While receiving or forwarding the response.
    Response(ErrorKind),
}

} // verus!
