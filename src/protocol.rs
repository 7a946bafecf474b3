//! The continue protocol: the "restore, rewind, step, re-arm, resume" dance
//! that lets a stopped tracee cross a breakpoint exactly once while the
//! breakpoint stays in place.
//!
//! The protocol only decides. The caller performs each requested operation
//! on the tracee and reports its outcome back with `advance`.
use vstd::prelude::*;
use crate::registry::BreakpointRegistry;
use crate::word::TRAP_OPCODE;

verus! {

/// One operation on the stopped tracee.
#[derive(Clone, Copy, Debug, PartialEq, Eq, Structural)]
pub enum TraceeOp {
    /// Write `value` at `addr`, reporting the byte it replaced.
    WriteByte { addr: usize, value: u8 },
    /// Set the instruction pointer.
    SetInstructionPointer(usize),
    /// Execute one instruction and wait for the tracee to stop.
    SingleStep,
    /// Let the tracee run and wait for its next stop or exit.
    Resume,
}

/// What came of the last operation.
#[derive(Clone, Copy, Debug, PartialEq, Eq, Structural)]
pub enum OpOutcome {
    /// It succeeded.
    Done,
    /// A byte write succeeded; this was the byte it replaced.
    ByteReplaced(u8),
    /// It failed.
    Failed,
}

/// Where the protocol stands.
#[derive(Clone, Copy, Debug, PartialEq, Eq, Structural)]
pub enum Phase {
    /// Put the original byte back at the breakpoint.
    Restore,
    /// Move the instruction pointer back onto the breakpoint.
    Rewind,
    /// Execute the original instruction once.
    Step,
    /// Write the trap opcode back.
    Rearm,
    /// Let the tracee go.
    Resume,
    /// The tracee was resumed and has stopped or exited again.
    Finished,
    /// An operation failed; the tracee was not resumed.
    Aborted,
}

/// One run of the continue protocol.
#[derive(Clone, Copy, Debug, PartialEq, Eq, Structural)]
pub struct ContinueProtocol {
    pub phase: Phase,
    /// The breakpoint being crossed (meaningful while repairing).
    pub addr: usize,
    /// Its saved original byte.
    pub orig_byte: u8,
}

/// The stop at `ip` is due to the breakpoint at `ip - 1`.
pub open spec fn stopped_at_breakpoint(ip: usize, reg: Map<usize, u8>) -> bool {
    ip > 0 && reg.contains_key((ip - 1) as usize)
}

/// The protocol for a tracee stopped at `ip`.
pub open spec fn initial(ip: usize, reg: Map<usize, u8>) -> ContinueProtocol {
    if stopped_at_breakpoint(ip, reg) {
        ContinueProtocol {
            phase: Phase::Restore,
            addr: (ip - 1) as usize,
            orig_byte: reg[(ip - 1) as usize],
        }
    } else {
        ContinueProtocol { phase: Phase::Resume, addr: 0, orig_byte: 0 }
    }
}

/// The operation that `p` asks for next, if any.
pub open spec fn op_of(p: ContinueProtocol) -> Option<TraceeOp> {
    match p.phase {
        Phase::Restore => Some(TraceeOp::WriteByte { addr: p.addr, value: p.orig_byte }),
        Phase::Rewind => Some(TraceeOp::SetInstructionPointer(p.addr)),
        Phase::Step => Some(TraceeOp::SingleStep),
        Phase::Rearm => Some(TraceeOp::WriteByte { addr: p.addr, value: TRAP_OPCODE }),
        Phase::Resume => Some(TraceeOp::Resume),
        _ => None,
    }
}

/// The phase after the current operation came out as `o`. A failed re-arm
/// is reported and skipped; any other failure aborts.
pub open spec fn next_phase(phase: Phase, o: OpOutcome) -> Phase {
    match phase {
        Phase::Rearm => Phase::Resume,
        Phase::Finished => Phase::Finished,
        Phase::Aborted => Phase::Aborted,
        _ => if o == OpOutcome::Failed {
            Phase::Aborted
        } else {
            match phase {
                Phase::Restore => Phase::Rewind,
                Phase::Rewind => Phase::Step,
                Phase::Step => Phase::Rearm,
                _ => Phase::Finished,
            }
        },
    }
}

/// The registry after the current operation came out as `o`: a successful
/// re-arm records the byte it displaced.
pub open spec fn next_registry(p: ContinueProtocol, o: OpOutcome, reg: Map<usize, u8>) -> Map<
    usize,
    u8,
> {
    match (p.phase, o) {
        (Phase::Rearm, OpOutcome::ByteReplaced(b)) => reg.insert(p.addr, b),
        _ => reg,
    }
}

impl ContinueProtocol {
    /// Starts the protocol for a tracee stopped at instruction pointer `ip`.
    /// If the stop is due to a breakpoint, the protocol first repairs it;
    /// otherwise it resumes at once. An `ip` of zero is never a breakpoint stop.
    pub fn start(ip: usize, registry: &BreakpointRegistry) -> (r: ContinueProtocol)
        requires
            registry.wf(),
        ensures
            r == initial(ip, registry@),
    {
        if ip > 0 {
            match registry.find(ip - 1) {
                Some(b) => ContinueProtocol {
                    phase: Phase::Restore,
                    addr: ip - 1,
                    orig_byte: b.orig_byte,
                },
                None => ContinueProtocol { phase: Phase::Resume, addr: 0, orig_byte: 0 },
            }
        } else {
            ContinueProtocol { phase: Phase::Resume, addr: 0, orig_byte: 0 }
        }
    }

    /// The operation to perform next; `None` once the protocol is over.
    pub fn next_op(&self) -> (r: Option<TraceeOp>)
        ensures
            r == op_of(*self),
    {
        match self.phase {
            Phase::Restore => Some(TraceeOp::WriteByte { addr: self.addr, value: self.orig_byte }),
            Phase::Rewind => Some(TraceeOp::SetInstructionPointer(self.addr)),
            Phase::Step => Some(TraceeOp::SingleStep),
            Phase::Rearm => Some(TraceeOp::WriteByte { addr: self.addr, value: TRAP_OPCODE }),
            Phase::Resume => Some(TraceeOp::Resume),
            Phase::Finished => None,
            Phase::Aborted => None,
        }
    }

    /// Whether the protocol is over.
    pub fn is_over(&self) -> (r: bool)
        ensures
            r == (op_of(*self) is None),
    {
        match self.phase {
            Phase::Finished => true,
            Phase::Aborted => true,
            _ => false,
        }
    }

    /// Takes the outcome of the operation that `next_op` asked for.
    pub fn advance(&mut self, outcome: OpOutcome, registry: &mut BreakpointRegistry)
        requires
            old(registry).wf(),
        ensures
            final(registry).wf(),
            final(self).phase == next_phase(old(self).phase, outcome),
            final(self).addr == old(self).addr,
            final(self).orig_byte == old(self).orig_byte,
            final(registry)@ == next_registry(*old(self), outcome, old(registry)@),
            final(registry).order() == old(registry).order() || !old(registry)@.contains_key(
                old(self).addr,
            ),
    {
        let failed = match outcome {
            OpOutcome::Failed => true,
            _ => false,
        };
        match self.phase {
            Phase::Rearm => {
                if let OpOutcome::ByteReplaced(b) = outcome {
                    registry.insert(self.addr, b);
                }
                self.phase = Phase::Resume;
            },
            Phase::Finished => {},
            Phase::Aborted => {},
            Phase::Restore => {
                self.phase = if failed {
                    Phase::Aborted
                } else {
                    Phase::Rewind
                };
            },
            Phase::Rewind => {
                self.phase = if failed {
                    Phase::Aborted
                } else {
                    Phase::Step
                };
            },
            Phase::Step => {
                self.phase = if failed {
                    Phase::Aborted
                } else {
                    Phase::Rearm
                };
            },
            Phase::Resume => {
                self.phase = if failed {
                    Phase::Aborted
                } else {
                    Phase::Finished
                };
            },
        }
    }
}

/// Arming every registered breakpoint in a freshly stopped tracee.
pub struct ArmingProtocol {
    addrs: Vec<usize>,
    next: usize,
}

impl ArmingProtocol {
    /// The addresses still to be armed, in order.
    pub closed spec fn pending(&self) -> Seq<usize> {
        self.addrs@.subrange(self.next as int, self.addrs@.len() as int)
    }

    /// The position of the next address lies within the list.
    pub closed spec fn wf(&self) -> bool {
        self.next <= self.addrs@.len()
    }

    /// Starts arming every breakpoint of `registry`, in the order they were set.
    pub fn start(registry: &BreakpointRegistry) -> (r: ArmingProtocol)
        requires
            registry.wf(),
        ensures
            r.wf(),
            r.pending() == registry.order(),
            r.pending().to_set() == registry@.dom(),
    {
        let addrs = registry.addresses();
        let r = ArmingProtocol { addrs, next: 0 };
        assert(r.pending() =~= registry.order());
        r
    }

    /// The next write to perform; `None` once every address was handled.
    pub fn next_op(&self) -> (r: Option<TraceeOp>)
        requires
            self.wf(),
        ensures
            self.pending().len() == 0 ==> r is None,
            self.pending().len() > 0 ==> r == Some(
                TraceeOp::WriteByte { addr: self.pending()[0], value: TRAP_OPCODE },
            ),
    {
        if self.next < self.addrs.len() {
            Some(TraceeOp::WriteByte { addr: self.addrs[self.next], value: TRAP_OPCODE })
        } else {
            None
        }
    }

    /// Takes the outcome of the write that `next_op` asked for. A successful
    /// write records the displaced byte; a failed one leaves that breakpoint
    /// unarmed and moves on.
    pub fn advance(&mut self, outcome: OpOutcome, registry: &mut BreakpointRegistry)
        requires
            old(registry).wf(),
            old(self).wf(),
            old(self).pending().len() > 0,
        ensures
            final(registry).wf(),
            final(self).wf(),
            final(self).pending() == old(self).pending().drop_first(),
            final(registry).order() == old(registry).order() || !old(registry)@.contains_key(
                old(self).pending()[0],
            ),
            outcome is ByteReplaced ==> final(registry)@ == old(registry)@.insert(
                old(self).pending()[0],
                outcome->ByteReplaced_0,
            ),
            !(outcome is ByteReplaced) ==> final(registry)@ == old(registry)@,
            old(registry)@.contains_key(old(self).pending()[0]) ==> final(registry)@.dom()
                == old(registry)@.dom(),
    {
        assert(self.pending().len() == self.addrs@.len() - self.next);
        let n = self.addrs.len();
        let addr = self.addrs[self.next];
        if let OpOutcome::ByteReplaced(b) = outcome {
            registry.insert(addr, b);
        }
        if self.next < n {
            self.next = self.next + 1;
        }
        assert(self.pending() =~= old(self).pending().drop_first());
    }
}

/// Every registered breakpoint is armed in `mem`: its trap opcode is in
/// place and its saved byte is the byte of the loaded program `image`; every
/// other byte is the program's own.
pub open spec fn breakpoints_armed(mem: Map<usize, u8>, image: Map<usize, u8>, reg: Map<
    usize,
    u8,
>) -> bool {
    &&& mem.dom() == image.dom()
    &&& forall|a: usize|
        #[trigger] reg.contains_key(a) ==> mem.contains_key(a) && mem[a] == TRAP_OPCODE && reg[a]
            == image[a]
    &&& forall|a: usize|
        #[trigger] mem.contains_key(a) && !reg.contains_key(a) ==> mem[a] == image[a]
}

/// Memory after `op`.
pub open spec fn mem_after(mem: Map<usize, u8>, op: TraceeOp) -> Map<usize, u8> {
    match op {
        TraceeOp::WriteByte { addr, value } => mem.insert(addr, value),
        _ => mem,
    }
}

/// What a tracee with memory `mem` reports for a successful `op`.
pub open spec fn outcome_in(mem: Map<usize, u8>, op: TraceeOp) -> OpOutcome {
    match op {
        TraceeOp::WriteByte { addr, value } => OpOutcome::ByteReplaced(mem[addr]),
        _ => OpOutcome::Done,
    }
}

/// The continue protocol run for `n` operations against a tracee with
/// memory `mem` on which every operation succeeds: the protocol, the memory
/// and the registry afterwards.
pub open spec fn run_in(p: ContinueProtocol, mem: Map<usize, u8>, reg: Map<usize, u8>, n: nat) -> (
    ContinueProtocol,
    Map<usize, u8>,
    Map<usize, u8>,
)
    decreases n,
{
    if n == 0 || op_of(p) is None {
        (p, mem, reg)
    } else {
        let op = op_of(p).unwrap();
        let o = outcome_in(mem, op);
        run_in(
            ContinueProtocol { phase: next_phase(p.phase, o), ..p },
            mem_after(mem, op),
            next_registry(p, o, reg),
            (n - 1) as nat,
        )
    }
}

/// Arming the addresses `addrs` in turn against memory `mem` when every
/// write succeeds: the memory and the registry afterwards.
pub open spec fn arm_in(mem: Map<usize, u8>, reg: Map<usize, u8>, addrs: Seq<usize>) -> (
    Map<usize, u8>,
    Map<usize, u8>,
)
    decreases addrs.len(),
{
    if addrs.len() == 0 {
        (mem, reg)
    } else {
        let a = addrs[0];
        arm_in(mem.insert(a, TRAP_OPCODE), reg.insert(a, mem[a]), addrs.drop_first())
    }
}

/// Crossing a breakpoint: while the tracee single-steps, the original
/// instruction byte is back in place and the instruction pointer was moved
/// back onto it; once the repair is done and before the tracee is resumed,
/// every breakpoint is armed again with its saved byte unchanged.
pub proof fn lemma_repair_keeps_breakpoints_armed(
    ip: usize,
    mem: Map<usize, u8>,
    image: Map<usize, u8>,
    reg: Map<usize, u8>,
)
    requires
        breakpoints_armed(mem, image, reg),
    ensures
        stopped_at_breakpoint(ip, reg) ==> {
            let (at_rewind, _, _) = run_in(initial(ip, reg), mem, reg, 1);
            let (at_step, mem_at_step, _) = run_in(initial(ip, reg), mem, reg, 2);
            &&& op_of(at_rewind) == Some(TraceeOp::SetInstructionPointer((ip - 1) as usize))
            &&& at_step.phase == Phase::Step
            &&& mem_at_step[(ip - 1) as usize] == image[(ip - 1) as usize]
        },
        ({
            let n: nat = if stopped_at_breakpoint(ip, reg) {
                4
            } else {
                0
            };
            let (p, m, r) = run_in(initial(ip, reg), mem, reg, n);
            &&& p.phase == Phase::Resume
            &&& breakpoints_armed(m, image, r)
            &&& r.dom() == reg.dom()
        }),
{
    let at_start = initial(ip, reg);
    if stopped_at_breakpoint(ip, reg) {
        let a = (ip - 1) as usize;
        let restored = mem.insert(a, reg[a]);
        let at_rewind = ContinueProtocol { phase: Phase::Rewind, ..at_start };
        let at_step = ContinueProtocol { phase: Phase::Step, ..at_start };
        let at_rearm = ContinueProtocol { phase: Phase::Rearm, ..at_start };
        let at_resume = ContinueProtocol { phase: Phase::Resume, ..at_start };
        assert(run_in(at_resume, mem.insert(a, reg[a]).insert(a, TRAP_OPCODE), reg.insert(a, restored[a]), 0)
            == (at_resume, restored.insert(a, TRAP_OPCODE), reg.insert(a, restored[a])));
        assert(run_in(at_rearm, restored, reg, 1) == (at_resume, restored.insert(a, TRAP_OPCODE), reg.insert(a, restored[a])));
        assert(run_in(at_step, restored, reg, 2) == run_in(at_rearm, restored, reg, 1));
        assert(run_in(at_rewind, restored, reg, 3) == run_in(at_step, restored, reg, 2));
        assert(run_in(at_start, mem, reg, 4) == run_in(at_rewind, restored, reg, 3));
        assert(run_in(at_step, restored, reg, 0) == (at_step, restored, reg));
        assert(run_in(at_rewind, restored, reg, 1) == run_in(at_step, restored, reg, 0));
        assert(run_in(at_start, mem, reg, 2) == run_in(at_rewind, restored, reg, 1));
        assert(run_in(at_rewind, restored, reg, 0) == (at_rewind, restored, reg));
        assert(run_in(at_start, mem, reg, 1) == run_in(at_rewind, restored, reg, 0));
        let rearmed = restored.insert(a, TRAP_OPCODE);
        assert(rearmed =~= mem);
        assert(reg.insert(a, restored[a]) =~= reg);
    } else {
        assert(run_in(at_start, mem, reg, 0) == (at_start, mem, reg));
    }
}

/// Arming the pending addresses establishes the armed state, given that every
/// byte not yet armed is still the program's own.
proof fn lemma_arm_in(mem: Map<usize, u8>, image: Map<usize, u8>, reg: Map<usize, u8>, addrs: Seq<
    usize,
>)
    requires
        addrs.no_duplicates(),
        mem.dom() == image.dom(),
        forall|i: int| 0 <= i < addrs.len() ==> #[trigger] mem.contains_key(addrs[i]),
        forall|a: usize|
            #[trigger] reg.contains_key(a) && !addrs.contains(a) ==> mem.contains_key(a) && mem[a]
                == TRAP_OPCODE && reg[a] == image[a],
        forall|a: usize|
            #[trigger] mem.contains_key(a) && (!reg.contains_key(a) || addrs.contains(a)) ==> mem[a]
                == image[a],
    ensures
        ({
            let (m, r) = arm_in(mem, reg, addrs);
            &&& breakpoints_armed(m, image, r)
            &&& r.dom() == reg.dom() + addrs.to_set()
        }),
    decreases addrs.len(),
{
    if addrs.len() == 0 {
        assert(reg.dom() + addrs.to_set() =~= reg.dom());
    } else {
        let a = addrs[0];
        let rest = addrs.drop_first();
        let m1 = mem.insert(a, TRAP_OPCODE);
        let r1 = reg.insert(a, mem[a]);
        assert(mem.contains_key(addrs[0]));
        assert forall|i: int| 0 <= i < rest.len() implies #[trigger] m1.contains_key(rest[i]) by {
            assert(rest[i] == addrs[i + 1]);
        }
        assert forall|b: usize| #[trigger] r1.contains_key(b) && !rest.contains(b) implies m1.contains_key(
            b,
        ) && m1[b] == TRAP_OPCODE && r1[b] == image[b] by {
            if b != a {
                if addrs.contains(b) {
                    let i = choose|i: int| 0 <= i < addrs.len() && addrs[i] == b;
                    assert(rest[i - 1] == b);
                }
            }
        }
        assert forall|b: usize| #[trigger]
            m1.contains_key(b) && (!r1.contains_key(b) || rest.contains(b)) implies m1[b]
            == image[b] by {
            if rest.contains(b) {
                let i = choose|i: int| 0 <= i < rest.len() && rest[i] == b;
                assert(addrs[i + 1] == b);
                assert(addrs.contains(b));
                assert(b != a);
            }
        }
        assert(m1.dom() =~= mem.dom());
        lemma_arm_in(m1, image, r1, rest);
        assert(addrs.to_set() =~= rest.to_set().insert(a)) by {
            assert forall|b: usize| addrs.to_set().contains(b) implies rest.to_set().insert(
                a,
            ).contains(b) by {
                let i = choose|i: int| 0 <= i < addrs.len() && addrs[i] == b;
                if i > 0 {
                    assert(rest[i - 1] == b);
                }
            }
            assert forall|b: usize| rest.to_set().contains(b) implies addrs.to_set().contains(b) by {
                let i = choose|i: int| 0 <= i < rest.len() && rest[i] == b;
                assert(addrs[i + 1] == b);
            }
        }
        assert(r1.dom() + rest.to_set() =~= reg.dom() + addrs.to_set());
    }
}

/// Arming on spawn: in a fresh tracee, whose memory is the loaded program
/// itself, arming every registered address in the registry's order leaves
/// every breakpoint armed with the program's own byte saved, whatever the
/// saved bytes held before (a breakpoint set while no tracee existed holds a
/// placeholder, and one from an earlier tracee a stale byte).
pub proof fn lemma_arming_on_spawn(image: Map<usize, u8>, registry: BreakpointRegistry)
    requires
        registry.wf(),
        registry@.dom().subset_of(image.dom()),
    ensures
        ({
            let (m, r) = arm_in(image, registry@, registry.order());
            &&& breakpoints_armed(m, image, r)
            &&& r.dom() == registry@.dom()
        }),
{
    registry.lemma_order();
    let addrs = registry.order();
    assert forall|i: int| 0 <= i < addrs.len() implies #[trigger] image.contains_key(addrs[i]) by {
        assert(addrs.to_set().contains(addrs[i]));
    }
    assert forall|a: usize| #[trigger] registry@.contains_key(a) implies addrs.contains(a) by {
        assert(addrs.to_set().contains(a));
    }
    lemma_arm_in(image, image, registry@, addrs);
    assert(registry@.dom() + addrs.to_set() =~= registry@.dom());
}

} // verus!
