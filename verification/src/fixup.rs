//! Device-tree fixup orchestration.
//!
//! The firmware's fixup service negotiates buffer sizes: called with a
//! buffer and an in/out size, it either succeeds or reports that the buffer
//! is too small, leaving the required size behind.  The orchestration is a
//! fixed two-call protocol, not a retry loop: one probe call on the
//! original buffer to learn the required size, one apply call on a freshly
//! allocated buffer of exactly that size.  A service that asks for a third
//! round, or reports a size the original bytes cannot fit in, breaks the
//! protocol and the orchestration fails.
//!
//! The decisions live here as a verified state machine; the surrounding
//! program performs the actual firmware calls and allocations and feeds
//! every outcome back through [`FixupOrchestrator::note_outcome`].

use vstd::prelude::*;

verus! {

/// Flag set handed to the fixup service.
#[derive(Debug, Clone, Copy, PartialEq, Eq, Structural)]
pub struct DtFixupFlags {
    /// Apply fixups to the tree.
    pub apply_fixups: bool,
    /// Reserve the runtime memory regions the fixed-up tree describes.
    pub reserve_memory: bool,
}

impl DtFixupFlags {
    /// The flag word the service takes: bit 0 requests fixups, bit 1
    /// requests memory reservation.
    pub open spec fn spec_bits(self) -> u32 {
        ((if self.apply_fixups {
            1u32
        } else {
            0u32
        }) + (if self.reserve_memory {
            2u32
        } else {
            0u32
        })) as u32
    }

    /// Encodes the flag word.
    pub fn bits(&self) -> (b: u32)
        ensures
            b == self.spec_bits(),
    {
        let apply: u32 = if self.apply_fixups {
            1
        } else {
            0
        };
        let reserve: u32 = if self.reserve_memory {
            2
        } else {
            0
        };
        apply + reserve
    }
}

/// What a fixup service call answered.
#[derive(Debug, Clone, Copy, PartialEq, Eq, Structural)]
pub enum FixupStatus {
    /// The call succeeded.
    Success,
    /// The buffer is too small; the in/out size now holds the required
    /// size.  Recoverable during probe, fatal during apply.
    BufferTooSmall,
    /// Any other status, carried as its raw code.
    Other(usize),
}

/// Fatal orchestration failures.
#[derive(Debug, Clone, Copy, PartialEq, Eq, Structural)]
pub enum FixupError {
    /// The probe call answered something other than success or a size
    /// report; the raw status code is carried.
    Probe(usize),
    /// The apply call answered anything but success.  The probed size was
    /// authoritative, so even a size complaint here is fatal.
    Apply(FixupStatus),
    /// The service broke the two-call protocol: it reported a required
    /// size the original bytes cannot fit in, or an outcome arrived when
    /// no call was outstanding.
    Violation,
}

/// Which buffer the outstanding service call works on.
#[derive(Debug, Clone, Copy, PartialEq, Eq, Structural)]
pub enum FixupTarget {
    /// The original, un-copied tree.
    Original,
    /// The freshly allocated buffer of the negotiated size.
    Allocated,
}

/// One service call the orchestrator asks for.
#[derive(Debug, Clone, Copy, PartialEq, Eq, Structural)]
pub struct FixupRequest {
    pub target: FixupTarget,
    /// The size to hand in as the in/out size parameter.
    pub size: usize,
    pub flags: DtFixupFlags,
}

/// The protocol position: exactly two transitions lead from `Probe`
/// through `Apply` to `Done`.
#[derive(Debug, Clone, Copy, PartialEq, Eq, Structural)]
pub enum FixupState {
    /// The probe call is outstanding: fixups only, on the original buffer.
    Probe,
    /// The apply call is outstanding: fixups and memory reservation, on a
    /// fresh buffer of the negotiated size.
    Apply { size: usize },
    /// The negotiated buffer holds the final, fixed-up tree.
    Done { size: usize },
    /// A fatal error ended the orchestration.
    Failed,
}

/// The two-call size negotiation, as a state machine over service
/// outcomes.
#[derive(Debug, Clone, Copy, PartialEq, Eq, Structural)]
pub struct FixupOrchestrator {
    pub state: FixupState,
    /// Length of the original tree bytes.
    pub original_len: usize,
}

/// The machine's transition function: the state after an outcome, and
/// what the orchestration answers.
///
/// After the probe: success keeps the original size (the buffer was
/// already big enough), a size report moves the negotiated size up to the
/// reported one, any other status is fatal; a reported size the original
/// bytes cannot fit in breaks the protocol.  After the apply: only success
/// is acceptable, the size was authoritative.  An outcome in a terminal
/// state is the guarded third call: a protocol violation, and the state
/// does not move.
pub open spec fn spec_step(
    s: FixupOrchestrator,
    status: FixupStatus,
    reported_size: usize,
) -> (FixupOrchestrator, Result<(), FixupError>) {
    match s.state {
        FixupState::Probe => match status {
            FixupStatus::Success => (
                FixupOrchestrator {
                    state: FixupState::Apply { size: s.original_len },
                    ..s
                },
                Ok(()),
            ),
            FixupStatus::BufferTooSmall => {
                if reported_size >= s.original_len {
                    (
                        FixupOrchestrator { state: FixupState::Apply { size: reported_size }, ..s },
                        Ok(()),
                    )
                } else {
                    (
                        FixupOrchestrator { state: FixupState::Failed, ..s },
                        Err(FixupError::Violation),
                    )
                }
            },
            FixupStatus::Other(code) => (
                FixupOrchestrator { state: FixupState::Failed, ..s },
                Err(FixupError::Probe(code)),
            ),
        },
        FixupState::Apply { size } => match status {
            FixupStatus::Success => (
                FixupOrchestrator { state: FixupState::Done { size }, ..s },
                Ok(()),
            ),
            _ => (
                FixupOrchestrator { state: FixupState::Failed, ..s },
                Err(FixupError::Apply(status)),
            ),
        },
        FixupState::Done { .. } => (s, Err(FixupError::Violation)),
        FixupState::Failed => (s, Err(FixupError::Violation)),
    }
}

impl FixupOrchestrator {
    /// Starts an orchestration for an original tree of `original_len`
    /// bytes: the probe call is outstanding.
    pub fn new(original_len: usize) -> (s: Self)
        ensures
            s.state == FixupState::Probe,
            s.original_len == original_len,
    {
        FixupOrchestrator { state: FixupState::Probe, original_len }
    }

    /// The service call that is due in the current state: the probe on the
    /// original buffer at its own length, or the apply on the allocated
    /// buffer at the negotiated size, with memory reservation requested.
    /// Nothing is due in a terminal state.
    pub fn request(&self) -> (r: Option<FixupRequest>)
        ensures
            self.state == FixupState::Probe ==> r == Some(
                FixupRequest {
                    target: FixupTarget::Original,
                    size: self.original_len,
                    flags: DtFixupFlags { apply_fixups: true, reserve_memory: false },
                },
            ),
            self.state matches FixupState::Apply { size } ==> r == Some(
                FixupRequest {
                    target: FixupTarget::Allocated,
                    size,
                    flags: DtFixupFlags { apply_fixups: true, reserve_memory: true },
                },
            ),
            self.state matches FixupState::Done { .. } ==> r is None,
            self.state == FixupState::Failed ==> r is None,
    {
        match self.state {
            FixupState::Probe => Some(
                FixupRequest {
                    target: FixupTarget::Original,
                    size: self.original_len,
                    flags: DtFixupFlags { apply_fixups: true, reserve_memory: false },
                },
            ),
            FixupState::Apply { size } => Some(
                FixupRequest {
                    target: FixupTarget::Allocated,
                    size,
                    flags: DtFixupFlags { apply_fixups: true, reserve_memory: true },
                },
            ),
            FixupState::Done { .. } => None,
            FixupState::Failed => None,
        }
    }

    /// Feeds back the outcome of the outstanding service call.
    ///
    /// After the probe: success keeps the original size (the buffer was
    /// already big enough), a size report moves the negotiated size up to
    /// the reported one, any other status is fatal.  A reported size the
    /// original bytes cannot fit in breaks the protocol.  After the apply:
    /// only success is acceptable; the size was authoritative.  An outcome
    /// in a terminal state is the guarded third call: a protocol
    /// violation, and the state does not move.
    pub fn note_outcome(&mut self, status: FixupStatus, reported_size: usize) -> (r: Result<
        (),
        FixupError,
    >)
        ensures
            (*final(self), r) == spec_step(*old(self), status, reported_size),
    {
        match self.state {
            FixupState::Probe => match status {
                FixupStatus::Success => {
                    self.state = FixupState::Apply { size: self.original_len };
                    Ok(())
                },
                FixupStatus::BufferTooSmall => {
                    if reported_size >= self.original_len {
                        self.state = FixupState::Apply { size: reported_size };
                        Ok(())
                    } else {
                        self.state = FixupState::Failed;
                        Err(FixupError::Violation)
                    }
                },
                FixupStatus::Other(code) => {
                    self.state = FixupState::Failed;
                    Err(FixupError::Probe(code))
                },
            },
            FixupState::Apply { size } => match status {
                FixupStatus::Success => {
                    self.state = FixupState::Done { size };
                    Ok(())
                },
                _ => {
                    self.state = FixupState::Failed;
                    Err(FixupError::Apply(status))
                },
            },
            FixupState::Done { .. } => Err(FixupError::Violation),
            FixupState::Failed => Err(FixupError::Violation),
        }
    }
}

/// Lays the original tree bytes into the head of a fresh buffer of the
/// negotiated size; the fixup service owns the zeroed remainder.
pub fn prepare_buffer(original: &[u8], size: usize) -> (r: Vec<u8>)
    requires
        original@.len() <= size,
    ensures
        r@.len() == size,
        r@.subrange(0, original@.len() as int) == original@,
        forall|i: int| original@.len() <= i < size ==> r@[i] == 0,
{
    let n = original.len();
    let mut r: Vec<u8> = Vec::new();
    let mut i: usize = 0;
    while i < n
        invariant
            n == original@.len() <= size,
            i <= n,
            r@.len() == i,
            forall|j: int| 0 <= j < i ==> r@[j] == original@[j],
        decreases n - i,
    {
        r.push(original[i]);
        i = i + 1;
    }
    while i < size
        invariant
            n == original@.len() <= size,
            n <= i <= size,
            r@.len() == i,
            forall|j: int| 0 <= j < n ==> r@[j] == original@[j],
            forall|j: int| n <= j < i ==> r@[j] == 0,
        decreases size - i,
    {
        r.push(0);
        i = i + 1;
    }
    proof {
        assert(r@.subrange(0, original@.len() as int) =~= original@);
    }
    r
}

/// The interaction is fixed at exactly two calls, and the negotiated size
/// is monotonic across them: the probe fixes it (to the reported size, or
/// to the original length when the original buffer already sufficed), the
/// apply cannot move it, and a third outcome is refused as a protocol
/// violation without moving the machine.
pub proof fn lemma_two_call_negotiation(
    s0: FixupOrchestrator,
    probe_status: FixupStatus,
    reported_size: usize,
    third_status: FixupStatus,
    third_size: usize,
)
    requires
        s0.state == FixupState::Probe,
        probe_status == FixupStatus::Success || (probe_status == FixupStatus::BufferTooSmall
            && reported_size >= s0.original_len),
    ensures
        ({
            let probed = spec_step(s0, probe_status, reported_size);
            let applied = spec_step(probed.0, FixupStatus::Success, 0);
            let third = spec_step(applied.0, third_status, third_size);
            &&& probed.1 is Ok
            &&& applied.1 is Ok
            &&& applied.0.state matches FixupState::Done { size } && size >= s0.original_len && (
            if probe_status == FixupStatus::Success {
                size == s0.original_len
            } else {
                size == reported_size
            })
            &&& third.0 == applied.0
            &&& third.1 == Err::<(), FixupError>(FixupError::Violation)
        }),
{
}

} // verus!
