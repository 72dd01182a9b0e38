//! The error taxonomy: setup errors are fatal and abort before any
//! handshake begins; protocol errors signal the poller; payload errors
//! never surface as errors at all but become response text.
use vstd::prelude::*;

verus! {

/// Why setting up an exchange failed. All of these are fatal: they
/// abort before any handshake begins.
#[derive(Clone, Copy, Debug, PartialEq, Eq, Structural)]
pub enum SetupError {
    /// A mapping with this name exists with another length than the one
    /// requested: first the requested, then the found length.
    AlreadyExistsIncompatible(usize, usize),
    /// The OS refused to create or open a shared region.
    RegionUnavailable,
    /// No hardware protection key was free.
    KeyExhausted,
    /// A protected page could not be allocated.
    ProtectionUnavailable,
    /// A transport endpoint could not be created.
    EndpointUnavailable,
}

/// A mid-exchange condition. Polling treats it as a signal to keep or
/// stop polling, never as a reason to crash.
#[derive(Clone, Copy, Debug, PartialEq, Eq, Structural)]
pub enum ProtocolError {
    /// The configured poll budget ran out before the peer signalled.
    Timeout,
}

} // verus!
