//! The boot-services phase machine.
//!
//! Exiting firmware boot services is irreversible: allocation, protocol
//! calls and the firmware console are gone afterwards. The pipeline records
//! every firmware call it makes in an `OpLog`, which only admits a call in
//! the phase where it is legal. The log's invariant then yields the ordering
//! guarantee: in any trace the log can produce, no allocation (nor any other
//! boot-time service) ever follows the exit call, and the exit call happens
//! at most once.

use vstd::prelude::*;

verus! {

/// Whether firmware boot services are still available.
#[derive(Clone, Copy, Debug, PartialEq, Eq, Structural)]
pub enum BootPhase {
    PreExit,
    PostExit,
}

/// One call into the firmware service gateway, as the pipeline sees it.
#[derive(Clone, Copy, Debug, PartialEq, Eq, Structural)]
pub enum FirmwareOp {
    LocateHandles,
    OpenProtocol,
    OpenVolume,
    ReadDirEntry,
    OpenKernelFile,
    QueryFileInfo,
    ReadKernelFile,
    QueryMapSize,
    Allocate,
    ConsoleWrite,
    ExitBootServices,
    TransferControl,
}

/// In which phase a firmware call is legal. Everything but the final jump
/// to the kernel needs boot services; the jump itself must come after they
/// are gone.
pub open spec fn op_legal(phase: BootPhase, op: FirmwareOp) -> bool {
    match op {
        FirmwareOp::TransferControl => phase is PostExit,
        _ => phase is PreExit,
    }
}

/// A trace is well formed when every call made after an exit call is one
/// that is legal post-exit. In particular no allocation, and no second
/// exit, ever follows the exit call.
pub open spec fn trace_wf(t: Seq<FirmwareOp>) -> bool {
    forall|i: int, j: int|
        0 <= i < j < t.len() && t[i] is ExitBootServices ==> op_legal(BootPhase::PostExit, t[j])
}

/// The trace contains an exit call.
pub open spec fn trace_exited(t: Seq<FirmwareOp>) -> bool {
    exists|i: int| 0 <= i < t.len() && t[i] is ExitBootServices
}

/// The pipeline's record of its firmware calls, with the current phase.
pub struct OpLog {
    pub phase: BootPhase,
    pub trace: Ghost<Seq<FirmwareOp>>,
}

impl OpLog {
    /// The phase agrees with the trace, and the trace is well formed.
    pub open spec fn wf(self) -> bool {
        &&& trace_wf(self.trace@)
        &&& (self.phase is PostExit <==> trace_exited(self.trace@))
    }

    /// A fresh log: nothing called yet, boot services available.
    pub fn new() -> (r: OpLog)
        ensures
            r.wf(),
            r.phase is PreExit,
            r.trace@ == Seq::<FirmwareOp>::empty(),
    {
        OpLog { phase: BootPhase::PreExit, trace: Ghost(Seq::empty()) }
    }

    /// Records one firmware call. The call must be legal in the current
    /// phase; recording the exit call moves the log to the post-exit phase.
    pub fn record(&mut self, op: FirmwareOp)
        requires
            old(self).wf(),
            op_legal(old(self).phase, op),
        ensures
            final(self).wf(),
            final(self).trace@ == old(self).trace@.push(op),
            final(self).phase == (if op is ExitBootServices {
                BootPhase::PostExit
            } else {
                old(self).phase
            }),
    {
        proof {
            let t0 = self.trace@;
            let t1 = t0.push(op);
            assert forall|i: int, j: int|
                0 <= i < j < t1.len() && t1[i] is ExitBootServices implies op_legal(
                BootPhase::PostExit,
                t1[j],
            ) by {
                if j < t0.len() {
                    assert(t0[i] is ExitBootServices);
                } else {
                    // j is the new element; an earlier exit means the old
                    // phase was already PostExit, so op is legal there.
                    assert(t1[j] == op);
                    assert(0 <= i < t0.len() && t0[i] is ExitBootServices);
                    assert(trace_exited(t0));
                }
            };
        }
        let new_phase = match op {
            FirmwareOp::ExitBootServices => BootPhase::PostExit,
            _ => self.phase,
        };
        self.phase = new_phase;
        proof {
            self.trace@ = self.trace@.push(op);
            let t0 = old(self).trace@;
            if self.phase is PostExit {
                assert(trace_exited(self.trace@)) by {
                    if trace_exited(t0) {
                        let i = choose|i: int| 0 <= i < t0.len() && t0[i] is ExitBootServices;
                        assert(self.trace@[i] is ExitBootServices);
                    } else {
                        assert(self.trace@[t0.len() as int] is ExitBootServices);
                    }
                };
            } else {
                assert forall|i: int| 0 <= i < self.trace@.len() implies !(
                self.trace@[i] is ExitBootServices) by {
                    if i < t0.len() {
                        assert(!trace_exited(t0));
                    }
                };
            }
        }
    }
}

/// In any well-formed trace, no allocation follows the boot-services exit
/// call: every firmware buffer must already be allocated when the pipeline
/// exits boot services.
pub proof fn lemma_no_alloc_after_exit(t: Seq<FirmwareOp>, i: int, j: int)
    requires
        trace_wf(t),
        0 <= i < j < t.len(),
        t[i] is ExitBootServices,
    ensures
        !(t[j] is Allocate),
{
}

/// In any well-formed trace, the boot-services exit call appears at most
/// once.
pub proof fn lemma_exit_at_most_once(t: Seq<FirmwareOp>, i: int, j: int)
    requires
        trace_wf(t),
        0 <= i < t.len(),
        0 <= j < t.len(),
        t[i] is ExitBootServices,
        t[j] is ExitBootServices,
    ensures
        i == j,
{
    if i < j {
        assert(op_legal(BootPhase::PostExit, t[j]));
    }
    if j < i {
        assert(op_legal(BootPhase::PostExit, t[i]));
    }
}

} // verus!
