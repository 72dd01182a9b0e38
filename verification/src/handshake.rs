//! The request/response handshake. A producer hands a value to its
//! consumer by clearing the readiness flag, overwriting its protected
//! region, and only then signalling readiness; the consumer spins on
//! the flag and locks the region once it reads ready. The "clear,
//! write, signal" order is the one happens-before edge the protocol
//! rests on: it is enforced here by the sender machine's contracts and
//! stated as a law over the protocol model.
//!
//! Writing the flag byte into its shared mapping takes raw byte access
//! that the verified library cannot hold, so the machines hand the
//! bytes out and take the observed bytes in; the caller's loop around
//! them stores and loads flag bytes and nothing else.
use vstd::prelude::*;
use crate::domain::{ProtectionDomain, TextRegion};
use crate::errors::{ProtocolError, SetupError};
use crate::flag::{decode_flag, flag_of_byte, FlagState, FLAG_NOT_READY_BYTE, FLAG_READY_BYTE};
use crate::flag::FlagChannel;
use crate::region::SharedRegion;

verus! {

/// The producer's position in its clear–write–signal sequence.
#[derive(Clone, Copy, Debug, PartialEq, Eq, Structural)]
pub enum SendPhase {
    /// Nothing sent yet: the next step hands out the clearing byte.
    Clearing,
    /// The flag is cleared: the next step writes the value.
    Writing,
    /// The value is written: the next step hands out the ready byte.
    Signaling,
    /// The ready byte is out: the transmission is over.
    Done,
}

/// The producer side of one transmission, one step at a time. The
/// contracts force the order: the ready byte exists only after the
/// region write completed, so a consumer that trusts the flag never
/// reads a half-written region.
pub struct Sender {
    phase: SendPhase,
}

impl Sender {
    /// Where the machine stands.
    pub closed spec fn phase(&self) -> SendPhase {
        self.phase
    }

    /// A fresh transmission, about to clear the flag.
    pub fn new() -> (s: Sender)
        ensures
            s.phase() == SendPhase::Clearing,
    {
        Sender { phase: SendPhase::Clearing }
    }

    /// The byte to store into the flag channel before anything else:
    /// the not-ready sentinel, which shuts the consumer out while the
    /// write is in progress.
    pub fn clear_byte(&mut self) -> (b: u8)
        requires
            old(self).phase() == SendPhase::Clearing,
        ensures
            final(self).phase() == SendPhase::Writing,
            b == FLAG_NOT_READY_BYTE,
            flag_of_byte(b) == FlagState::NotReady,
    {
        self.phase = SendPhase::Writing;
        FLAG_NOT_READY_BYTE
    }

    /// Write the value into the producer's region. Only reachable
    /// after the flag was cleared; the ready byte only comes after it.
    pub fn send_data(&mut self, region: &mut TextRegion, value: String) -> (r: Result<
        (),
        SetupError,
    >)
        requires
            old(self).phase() == SendPhase::Writing,
        ensures
            r is Ok ==> final(self).phase() == SendPhase::Signaling && final(region).contents()
                == value@,
            r is Err ==> final(self).phase() == SendPhase::Writing && final(region).contents()
                == old(region).contents(),
    {
        match region.modify(value) {
            Ok(()) => {
                self.phase = SendPhase::Signaling;
                Ok(())
            },
            Err(e) => Err(e),
        }
    }

    /// The byte that announces the data: the ready sentinel. It can
    /// only be had once the write has completed.
    pub fn ready_byte(&mut self) -> (b: u8)
        requires
            old(self).phase() == SendPhase::Signaling,
        ensures
            final(self).phase() == SendPhase::Done,
            b == FLAG_READY_BYTE,
            flag_of_byte(b) == FlagState::Ready,
    {
        self.phase = SendPhase::Done;
        FLAG_READY_BYTE
    }
}

/// One consumer-side poll: judge an observed flag byte, and on ready
/// lock the region and take a copy of the value.
pub fn recv_data(region: &TextRegion, flag_byte: u8) -> (r: Option<String>)
    ensures
        r is Some <==> flag_of_byte(flag_byte) == FlagState::Ready,
        r matches Some(s) ==> s@ == region.contents(),
{
    match decode_flag(flag_byte) {
        FlagState::Ready => Some(region.lock()),
        FlagState::NotReady => None,
    }
}

/// How long a consumer keeps spinning: forever, or for a bounded
/// number of polls before giving up with `Timeout`. The spin is a
/// busy-wait by design — no blocking primitive exists across the
/// mapping — so the bound is the only way out of an unresponsive peer.
#[derive(Clone, Copy, Debug, PartialEq, Eq, Structural)]
pub struct PollConfig {
    pub max_polls: Option<u64>,
}

/// What one consumer poll decided.
pub enum WaitOutcome {
    /// The flag read ready: here is the value.
    Delivered(String),
    /// Not ready yet: poll again, with the spent-poll count advanced.
    KeepPolling(u64),
    /// Not ready, and the poll budget is gone.
    TimedOut,
}

/// One step of the consumer's wait loop: judge the observed flag byte
/// against the poll budget. Delivery happens exactly on a ready byte;
/// otherwise the budget decides between polling on and giving up.
pub fn recv_step(cfg: PollConfig, polls_done: u64, region: &TextRegion, flag_byte: u8) -> (r:
    WaitOutcome)
    requires
        polls_done < u64::MAX,
    ensures
        r matches WaitOutcome::Delivered(s) ==> flag_of_byte(flag_byte) == FlagState::Ready && s@
            == region.contents(),
        flag_of_byte(flag_byte) == FlagState::Ready ==> r is Delivered,
        r matches WaitOutcome::KeepPolling(next) ==> flag_of_byte(flag_byte) == FlagState::NotReady
            && next == polls_done + 1 && (cfg.max_polls matches Some(m) ==> polls_done < m),
        r is TimedOut ==> flag_of_byte(flag_byte) == FlagState::NotReady
            && (cfg.max_polls matches Some(m) && polls_done >= m),
{
    match recv_data(region, flag_byte) {
        Some(s) => WaitOutcome::Delivered(s),
        None => {
            match cfg.max_polls {
                Some(m) => {
                    if polls_done >= m {
                        WaitOutcome::TimedOut
                    } else {
                        WaitOutcome::KeepPolling(polls_done + 1)
                    }
                },
                None => WaitOutcome::KeepPolling(polls_done + 1),
            }
        },
    }
}

/// A snapshot of one direction as its consumer could observe it at any
/// preemption point: the flag byte in shared memory, and how far the
/// producer's data write has come.
pub struct DirectionModel {
    pub flag_byte: u8,
    pub write_started: bool,
    pub write_done: bool,
}

/// A write is in progress when it has started and not completed.
pub open spec fn mid_write(m: DirectionModel) -> bool {
    m.write_started && !m.write_done
}

/// The snapshots a producer's transmission passes through from the
/// clearing of the flag on, in program order: cleared, mid-write,
/// written, signalled. A scheduler may preempt between any two.
pub open spec fn producer_trace() -> Seq<DirectionModel> {
    seq![
        DirectionModel { flag_byte: FLAG_NOT_READY_BYTE, write_started: false, write_done: false },
        DirectionModel { flag_byte: FLAG_NOT_READY_BYTE, write_started: true, write_done: false },
        DirectionModel { flag_byte: FLAG_NOT_READY_BYTE, write_started: true, write_done: true },
        DirectionModel { flag_byte: FLAG_READY_BYTE, write_started: true, write_done: true },
    ]
}

/// Law (race-free signaling): from the moment the producer has cleared
/// the flag, no observable point of its transmission shows the flag as
/// ready while the write is in progress; wherever the flag reads
/// ready, the write is complete. A consumer that only acts on a ready
/// flag therefore never locks a half-written region.
pub proof fn lemma_race_free_signaling()
    ensures
        forall|i: int|
            0 <= i < producer_trace().len() && flag_of_byte(
                #[trigger] producer_trace()[i].flag_byte,
            ) == FlagState::Ready ==> producer_trace()[i].write_done && !mid_write(
                producer_trace()[i],
            ),
{
    assert forall|i: int|
        0 <= i < producer_trace().len() && flag_of_byte(
            #[trigger] producer_trace()[i].flag_byte,
        ) == FlagState::Ready implies producer_trace()[i].write_done && !mid_write(
        producer_trace()[i],
    ) by {
        assert(producer_trace()[3].write_done);
        if i < 3 {
            assert(producer_trace()[i].flag_byte == FLAG_NOT_READY_BYTE);
        }
    }
}

/// The explicit configuration both roles must be started with: the
/// names of the four shared objects and the data regions' byte length.
pub struct ExchangeConfig {
    pub request_region_id: String,
    pub response_region_id: String,
    pub request_flag_id: String,
    pub response_flag_id: String,
    pub region_length: usize,
}

/// The transient pairing for one request/response cycle: one protected
/// region and one flag channel per direction, and the two named data
/// buffers. Each region is written by exactly one role; the peer only
/// reads.
pub struct Exchange {
    pub request_region: TextRegion,
    pub response_region: TextRegion,
    pub request_flag: FlagChannel,
    pub response_flag: FlagChannel,
    pub request_buffer: SharedRegion,
    pub response_buffer: SharedRegion,
}

impl Exchange {
    /// Everything is mapped, and the buffers have the configured length.
    pub open spec fn wf(&self, cfg: ExchangeConfig) -> bool {
        &&& self.request_flag.wf()
        &&& self.response_flag.wf()
        &&& self.request_buffer.wf()
        &&& self.response_buffer.wf()
        &&& self.request_buffer.spec_len() == cfg.region_length
        &&& self.response_buffer.spec_len() == cfg.region_length
    }

    /// Create or join everything one exchange needs. The request
    /// region belongs to the manager's domain, the response region to
    /// the calculator's: each direction's writer holds its own key.
    /// Any failure is fatal and aborts the setup.
    pub fn setup(
        cfg: &ExchangeConfig,
        manager_domain: &ProtectionDomain,
        calculator_domain: &ProtectionDomain,
        initial_request: String,
        initial_response: String,
    ) -> (r: Result<Exchange, SetupError>)
        ensures
            r matches Ok(ex) ==> ex.wf(*cfg) && ex.request_region.contents() == initial_request@
                && ex.response_region.contents() == initial_response@,
    {
        let request_region = match TextRegion::new(manager_domain, initial_request) {
            Ok(region) => region,
            Err(e) => {
                return Err(e);
            },
        };
        let response_region = match TextRegion::new(calculator_domain, initial_response) {
            Ok(region) => region,
            Err(e) => {
                return Err(e);
            },
        };
        let request_flag = match FlagChannel::open_or_create(cfg.request_flag_id.as_str()) {
            Ok(ch) => ch,
            Err(e) => {
                return Err(e);
            },
        };
        let response_flag = match FlagChannel::open_or_create(cfg.response_flag_id.as_str()) {
            Ok(ch) => ch,
            Err(e) => {
                return Err(e);
            },
        };
        let request_buffer = match SharedRegion::open_or_create(
            cfg.request_region_id.as_str(),
            cfg.region_length,
        ) {
            Ok(region) => region,
            Err(e) => {
                return Err(e);
            },
        };
        let response_buffer = match SharedRegion::open_or_create(
            cfg.response_region_id.as_str(),
            cfg.region_length,
        ) {
            Ok(region) => region,
            Err(e) => {
                return Err(e);
            },
        };
        Ok(
            Exchange {
                request_region,
                response_region,
                request_flag,
                response_flag,
                request_buffer,
                response_buffer,
            },
        )
    }
}

} // verus!
