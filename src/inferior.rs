//! What the debugger decides about its tracee: how a stop is reported, where
//! a breakpoint goes, how the call stack is walked and when the tracee must
//! be reaped. The process itself is driven by the caller.
use vstd::prelude::*;
use crate::debugger_command::{BreakTarget, DebuggerCommand};
use crate::debuginfo::{
    contains_addr, first_row_of_line, function_address, innermost_at,
    row_at, target_file, DebugInfo, SourceLine,
};
use crate::protocol::{breakpoints_armed, TraceeOp};
use crate::registry::BreakpointRegistry;
use crate::text::str_eq;
use crate::word::{byte_of, spliced, splice_byte, TRAP_OPCODE, WORD_SIZE};

verus! {

/// State of the tracee as observed after a wait.
#[derive(Clone, Copy, Debug, PartialEq, Eq, Structural)]
pub enum Status {
    /// Stopped by the signal numbered `.0`, at instruction pointer `.1`.
    Stopped(i32, usize),
    /// Exited normally with this code.
    Exited(i32),
    /// Killed by the signal with this number.
    Signaled(i32),
}

/// The word that results from writing `value` at `addr` into `word`, the
/// tracee's word that holds `addr`, and the byte that the write displaces.
pub fn write_byte_in_word(addr: usize, word: u64, value: u8) -> (r: (u64, u8))
    ensures
        r.0 == spliced(word, (addr % 8) as nat, value),
        r.1 == byte_of(word, (addr % 8) as nat),
{
    splice_byte(word, addr % WORD_SIZE, value)
}

/// The address a breakpoint location resolves to.
pub open spec fn resolves_to(info: &DebugInfo, t: BreakTarget, r: Option<usize>) -> bool {
    match t {
        BreakTarget::Address(a) => r == Some(a),
        BreakTarget::Line(n) => {
            &&& r is Some ==> exists|f: usize, i: int| #[trigger] target_file(info.files(), None, f as int)
                && #[trigger] first_row_of_line(info.lines(), f, n, i) && r->Some_0 == info.lines()[i].address
            &&& r is None ==> forall|f: int| #[trigger] target_file(info.files(), None, f) ==> forall|j: int|
                0 <= j < info.lines().len() ==> !(#[trigger] info.lines()[j].file == f && info.lines()[j].number == n)
        },
        BreakTarget::Function(name) => function_address(info, None, name@, r),
    }
}

/// Resolves a breakpoint location to an address: a raw address stands for
/// itself, a line is looked up in the primary source file and a name among
/// all functions.
pub fn resolve_breakpoint(info: &DebugInfo, target: &BreakTarget) -> (r: Option<usize>)
    ensures
        resolves_to(info, *target, r),
{
    match target {
        BreakTarget::Address(a) => Some(*a),
        BreakTarget::Line(n) => {
            info.address_for_line(None, *n)
        },
        BreakTarget::Function(name) => {
            info.address_for_function(None, name.as_str())
        },
    }
}

/// What setting a breakpoint takes.
#[derive(Clone, Copy, Debug, PartialEq, Eq, Structural)]
pub enum BreakPlan {
    /// No tracee: the breakpoint was recorded and will be armed at the next spawn.
    Deferred,
    /// Perform this write on the stopped tracee and record the byte it displaces.
    Arm(TraceeOp),
    /// A breakpoint is already armed there; nothing changes.
    AlreadySet,
}

/// Sets a breakpoint at `addr`. With no tracee it is recorded with a
/// placeholder byte; with a stopped tracee the caller arms it as the plan says
/// and records the displaced byte with `BreakpointRegistry::insert`.
pub fn plan_breakpoint(registry: &mut BreakpointRegistry, addr: usize, tracee_live: bool) -> (r: BreakPlan)
    requires
        old(registry).wf(),
    ensures
        final(registry).wf(),
        !tracee_live ==> r == BreakPlan::Deferred && final(registry)@ == old(registry)@.insert(addr, 0),
        !tracee_live ==> final(registry).order() == old(registry).order() || !old(registry)@.contains_key(addr),
        tracee_live ==> *final(registry) == *old(registry),
        tracee_live && old(registry)@.contains_key(addr) ==> r == BreakPlan::AlreadySet,
        tracee_live && !old(registry)@.contains_key(addr) ==> r == BreakPlan::Arm(
            TraceeOp::WriteByte { addr, value: TRAP_OPCODE },
        ),
{
    if !tracee_live {
        registry.insert(addr, 0);
        BreakPlan::Deferred
    } else if registry.contains(addr) {
        BreakPlan::AlreadySet
    } else {
        BreakPlan::Arm(TraceeOp::WriteByte { addr, value: TRAP_OPCODE })
    }
}

/// Setting a breakpoint in a stopped tracee keeps every breakpoint armed:
/// writing the trap opcode at a new address and recording the byte it
/// displaced, or doing nothing at an address already set.
pub proof fn lemma_set_while_stopped_keeps_armed(
    mem: Map<usize, u8>,
    image: Map<usize, u8>,
    reg: Map<usize, u8>,
    addr: usize,
)
    requires
        breakpoints_armed(mem, image, reg),
        mem.contains_key(addr),
    ensures
        !reg.contains_key(addr) ==> breakpoints_armed(
            mem.insert(addr, TRAP_OPCODE),
            image,
            reg.insert(addr, mem[addr]),
        ),
        reg.contains_key(addr) ==> breakpoints_armed(mem, image, reg),
{
    if !reg.contains_key(addr) {
        assert(mem.insert(addr, TRAP_OPCODE).dom() =~= mem.dom());
    }
}

/// One frame of a backtrace.
pub struct Frame {
    /// The function executing in this frame.
    pub function: String,
    /// The source line in effect, if known.
    pub line: Option<SourceLine>,
    /// Where the caller's return address is saved (the caller's frame pointer
    /// is saved at the frame pointer itself); `None` when the walk ends here.
    pub caller_slot: Option<usize>,
}

/// The frame whose instruction pointer is `ip` and frame pointer `bp`. The
/// walk ends at `main`, at a frame whose source line is unknown, and at a
/// frame whose saved return address lies past the end of the address space;
/// a frame in no known function gives `None` and ends the walk unprinted.
pub fn backtrace_frame(info: &DebugInfo, ip: usize, bp: usize) -> (r: Option<Frame>)
    requires
        info.wf(),
    ensures
        r is None <==> forall|j: int| !#[trigger] contains_addr(info.functions(), j, ip),
        r is Some ==> {
            let f = r->Some_0;
            &&& exists|i: int| #[trigger] innermost_at(info.functions(), ip, i) && f.function@ == info.functions()[i].name@
            &&& f.line is None <==> forall|j: int| 0 <= j < info.lines().len() ==> #[trigger] info.lines()[j].address > ip
            &&& f.line is Some ==> exists|i: int| #[trigger] row_at(info.lines(), ip, i)
                && f.line->Some_0.number == info.lines()[i].number
                && f.line->Some_0.file@ == info.files()[info.lines()[i].file as int]@
            &&& f.caller_slot == if f.function@ == "main"@ || f.line is None || bp > usize::MAX
                - WORD_SIZE {
                None
            } else {
                Some((bp + WORD_SIZE) as usize)
            }
        },
{
    let function = match info.function_for_address(ip) {
        Some(f) => f,
        None => {
            return None;
        },
    };
    let line = info.line_for_address(ip);
    let caller_slot = if str_eq(function.as_str(), "main") || line.is_none() || bp > usize::MAX
        - WORD_SIZE {
        None
    } else {
        Some(bp + WORD_SIZE)
    };
    Some(Frame { function, line, caller_slot })
}

/// The 0-based indices `[start, end)` of the source lines to show around line
/// `line` (numbered from 1) of a file of `total` lines: that line and one on
/// each side, as far as the file goes.
pub fn context_window(line: usize, total: usize) -> (r: (usize, usize))
    ensures
        r.1 == if line < total { line + 1 } else { total as int },
        r.0 == if line < 2 { 0 } else if line - 2 <= r.1 { line - 2 } else { r.1 as int },
        r.0 <= r.1 <= total,
{
    let end = if line < total {
        line + 1
    } else {
        total
    };
    let start = if line >= 2 {
        if line - 2 <= end {
            line - 2
        } else {
            end
        }
    } else {
        0
    };
    (start, end)
}

/// Signal number of SIGTRAP on x86-64 Linux.
pub const SIGTRAP: i32 = 5;

/// Whether a freshly spawned tracee can be debugged: it must have stopped on
/// the trap raised at its first instruction. Otherwise it is killed and the
/// spawn reported as failed.
pub fn spawn_stopped_at_trap(status: Status) -> (r: bool)
    ensures
        r == (status is Stopped && status->Stopped_0 == SIGTRAP),
{
    match status {
        Status::Stopped(sig, _) => sig == SIGTRAP,
        _ => false,
    }
}

/// Whether the tracee is still there after reporting `status`; one that
/// exited or was killed is gone and its handle is dropped.
pub fn tracee_survives(status: Status) -> (r: bool)
    ensures
        r == (status is Stopped),
{
    match status {
        Status::Stopped(_, _) => true,
        _ => false,
    }
}

/// What a command comes to, given whether a tracee is live.
#[derive(Clone, Copy, Debug, PartialEq, Eq, Structural)]
pub enum CommandAction {
    /// Spawn a new tracee, killing and reaping the live one first if told to.
    Run { reap_first: bool },
    /// Leave, killing and reaping the live tracee first if told to.
    Quit { reap_first: bool },
    /// Run the continue protocol on the live tracee.
    Continue,
    /// Walk the live tracee's call stack.
    Backtrace,
    /// Set a breakpoint.
    Break,
    /// The command needs a tracee and there is none.
    NoProcess,
}

/// The step a command takes: `run` and `quit` reap a live tracee first,
/// `continue` and `backtrace` need one, `break` works either way.
pub fn command_action(cmd: &DebuggerCommand, tracee_live: bool) -> (r: CommandAction)
    ensures
        match *cmd {
            DebuggerCommand::Run(_) => r == CommandAction::Run { reap_first: tracee_live },
            DebuggerCommand::Quit => r == CommandAction::Quit { reap_first: tracee_live },
            DebuggerCommand::Continue => r == if tracee_live {
                CommandAction::Continue
            } else {
                CommandAction::NoProcess
            },
            DebuggerCommand::Backtrace => r == if tracee_live {
                CommandAction::Backtrace
            } else {
                CommandAction::NoProcess
            },
            DebuggerCommand::Break(_) => r == CommandAction::Break,
        },
{
    let reap_first = must_reap(cmd, tracee_live);
    match cmd {
        DebuggerCommand::Run(_) => CommandAction::Run { reap_first },
        DebuggerCommand::Quit => CommandAction::Quit { reap_first },
        DebuggerCommand::Continue => if tracee_live {
            CommandAction::Continue
        } else {
            CommandAction::NoProcess
        },
        DebuggerCommand::Backtrace => if tracee_live {
            CommandAction::Backtrace
        } else {
            CommandAction::NoProcess
        },
        DebuggerCommand::Break(_) => CommandAction::Break,
    }
}

/// Whether the tracee must be killed and reaped before `cmd` proceeds: `run`
/// and `quit` never leave a live tracee behind.
pub fn must_reap(cmd: &DebuggerCommand, tracee_live: bool) -> (r: bool)
    ensures
        r == (tracee_live && (*cmd is Run || *cmd is Quit)),
{
    tracee_live && match cmd {
        DebuggerCommand::Run(_) => true,
        DebuggerCommand::Quit => true,
        _ => false,
    }
}

} // verus!
