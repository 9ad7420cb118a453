//! What can go wrong in a round trip and in a session.

use vstd::prelude::*;

verus! {

/// Why a round trip gave no sample, or why a session gave no result.
///
/// All but `InsufficientSamples` describe one attempt; a session goes on after
/// them. `InsufficientSamples` ends a session.
#[derive(Debug, PartialEq, Eq)]
pub enum NtpError {
    /// Connecting, sending or receiving failed or timed out; the text is the
    /// transport's own account of it.
    TransportError(String),
    /// The response held fewer than 48 bytes.
    MalformedResponse,
    /// The response's mode is not `Server`; the mode it carries instead.
    UnexpectedMode(u8),
    /// The response's stratum is zero: the server is not synchronized, or
    /// refuses service.
    ServerUnsynchronized,
    /// The response's transmit timestamp is all zero.
    InvalidTimestamp,
    /// The response's origin timestamp is not the transmit timestamp of the
    /// request: the response belongs to another request.
    ResponseMismatch,
    /// The attempts ran out before enough samples were gathered; the number
    /// that were.
    InsufficientSamples(usize),
}

/// Why no request could be made.
#[derive(Clone, Copy, Debug, PartialEq, Eq, Structural)]
pub enum RequestError {
    /// The operating system gave no random bytes for the nonce.
    NoRandomness,
}

impl Clone for NtpError {
    fn clone(&self) -> (copy: NtpError)
        ensures
            copy == *self,
    {
        match self {
            NtpError::TransportError(cause) => NtpError::TransportError(cause.clone()),
            NtpError::MalformedResponse => NtpError::MalformedResponse,
            NtpError::UnexpectedMode(mode) => NtpError::UnexpectedMode(*mode),
            NtpError::ServerUnsynchronized => NtpError::ServerUnsynchronized,
            NtpError::InvalidTimestamp => NtpError::InvalidTimestamp,
            NtpError::ResponseMismatch => NtpError::ResponseMismatch,
            NtpError::InsufficientSamples(gathered) => NtpError::InsufficientSamples(*gathered),
        }
    }
}

} // verus!
