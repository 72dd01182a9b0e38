//! The one-byte readiness flag: its byte encoding and the shared
//! region that carries it. Only the producer of the guarded data ever
//! writes a flag; its consumer only reads it.
use vstd::prelude::*;
use crate::errors::SetupError;
use crate::region::SharedRegion;

verus! {

/// Byte value that marks a flag channel as ready (`'D'`).
pub const FLAG_READY_BYTE: u8 = 68;

/// Byte value that marks a flag channel as not ready (`'N'`).
pub const FLAG_NOT_READY_BYTE: u8 = 78;

/// Logical state of a one-byte readiness flag.
#[derive(Clone, Copy, Debug, PartialEq, Eq, Structural)]
pub enum FlagState {
    NotReady,
    Ready,
}

/// What a raw flag byte means: only the ready sentinel counts as ready;
/// every other byte — including zero-initialized, never-written memory —
/// reads as not ready, never as an error.
pub open spec fn flag_of_byte(b: u8) -> FlagState {
    if b == FLAG_READY_BYTE {
        FlagState::Ready
    } else {
        FlagState::NotReady
    }
}

/// The byte that announces a flag state.
pub open spec fn byte_of_flag(s: FlagState) -> u8 {
    match s {
        FlagState::Ready => FLAG_READY_BYTE,
        FlagState::NotReady => FLAG_NOT_READY_BYTE,
    }
}

/// Decode one byte of a flag channel.
pub fn decode_flag(b: u8) -> (s: FlagState)
    ensures
        s == flag_of_byte(b),
{
    if b == FLAG_READY_BYTE {
        FlagState::Ready
    } else {
        FlagState::NotReady
    }
}

/// Encode a flag state as the byte to write.
pub fn encode_flag(s: FlagState) -> (b: u8)
    ensures
        b == byte_of_flag(s),
        flag_of_byte(b) == s,
{
    match s {
        FlagState::Ready => FLAG_READY_BYTE,
        FlagState::NotReady => FLAG_NOT_READY_BYTE,
    }
}

/// Law: a flag state survives its byte encoding, and no byte decodes
/// to ready unless it is the ready sentinel.
pub proof fn lemma_flag_byte_round_trip(s: FlagState, b: u8)
    ensures
        flag_of_byte(byte_of_flag(s)) == s,
        flag_of_byte(b) == FlagState::Ready <==> b == FLAG_READY_BYTE,
{
}

/// A one-byte shared region used as a polled readiness flag.
pub struct FlagChannel {
    region: SharedRegion,
}

impl FlagChannel {
    /// The backing region is well-formed and one byte long.
    pub closed spec fn wf(&self) -> bool {
        self.region.wf() && self.region.spec_len() == 1
    }

    /// Create or join the named one-byte flag region.
    pub fn open_or_create(id: &str) -> (r: Result<FlagChannel, SetupError>)
        ensures
            r matches Ok(ch) ==> ch.wf(),
    {
        match SharedRegion::open_or_create(id, 1) {
            Ok(region) => Ok(FlagChannel { region }),
            Err(e) => Err(e),
        }
    }

    /// The backing one-byte region, for the byte transfers that must
    /// stay outside the verified library.
    pub fn region(&self) -> (r: &SharedRegion)
        requires
            self.wf(),
        ensures
            r.wf(),
            r.spec_len() == 1,
    {
        &self.region
    }
}

} // verus!
