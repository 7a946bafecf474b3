//! Drives the arming and continue protocols against a simulated tracee whose
//! program is a fixed path of one-byte instructions.
use std::collections::HashMap;

use deet::debugger_command::DebuggerCommand;
use deet::inferior::{
    command_action, must_reap, plan_breakpoint, spawn_stopped_at_trap, tracee_survives, BreakPlan,
    CommandAction, Status, SIGTRAP,
};
use deet::protocol::{ArmingProtocol, ContinueProtocol, OpOutcome, Phase, TraceeOp};
use deet::registry::BreakpointRegistry;
use deet::word::TRAP_OPCODE;

struct FakeTracee {
    mem: HashMap<usize, u8>,
    path: Vec<usize>,
    pos: usize,
    ip: usize,
    executed: Vec<(usize, u8)>,
    fail_writes_at: Option<usize>,
}

impl FakeTracee {
    /// A tracee stopped at its first instruction; byte at `a` is `a as u8 ^ 0x5a`.
    fn spawn(path: Vec<usize>) -> FakeTracee {
        let mut mem = HashMap::new();
        for a in 0x1000..0x1100usize {
            mem.insert(a, (a as u8) ^ 0x5a);
        }
        let ip = path[0];
        FakeTracee { mem, path, pos: 0, ip, executed: vec![], fail_writes_at: None }
    }

    fn original(a: usize) -> u8 {
        (a as u8) ^ 0x5a
    }

    fn run_until_stop(&mut self) -> Status {
        while self.pos < self.path.len() {
            let a = self.path[self.pos];
            let byte = self.mem[&a];
            if byte == TRAP_OPCODE {
                self.ip = a + 1;
                return Status::Stopped(SIGTRAP, self.ip);
            }
            self.executed.push((a, byte));
            self.pos += 1;
        }
        Status::Exited(0)
    }

    fn perform(&mut self, op: TraceeOp) -> (OpOutcome, Option<Status>) {
        match op {
            TraceeOp::WriteByte { addr, value } => {
                if self.fail_writes_at == Some(addr) {
                    return (OpOutcome::Failed, None);
                }
                let old = self.mem.insert(addr, value).unwrap();
                (OpOutcome::ByteReplaced(old), None)
            }
            TraceeOp::SetInstructionPointer(a) => {
                assert_eq!(self.path[self.pos], a);
                self.ip = a;
                (OpOutcome::Done, None)
            }
            TraceeOp::SingleStep => {
                let a = self.path[self.pos];
                assert_eq!(self.ip, a);
                self.executed.push((a, self.mem[&a]));
                self.pos += 1;
                (OpOutcome::Done, None)
            }
            TraceeOp::Resume => (OpOutcome::Done, Some(self.run_until_stop())),
        }
    }

    fn arm(&mut self, registry: &mut BreakpointRegistry) {
        let mut arming = ArmingProtocol::start(registry);
        while let Some(op) = arming.next_op() {
            let (o, _) = self.perform(op);
            arming.advance(o, registry);
        }
    }

    fn cont(&mut self, registry: &mut BreakpointRegistry) -> Option<Status> {
        let mut p = ContinueProtocol::start(self.ip, registry);
        let mut status = None;
        while let Some(op) = p.next_op() {
            let (o, s) = self.perform(op);
            if s.is_some() {
                status = s;
            }
            p.advance(o, registry);
        }
        if p.phase == Phase::Aborted {
            None
        } else {
            status
        }
    }

    fn all_armed(&self, registry: &BreakpointRegistry) -> bool {
        registry.addresses().iter().all(|a| {
            self.mem[a] == TRAP_OPCODE
                && registry.find(*a).unwrap().orig_byte == FakeTracee::original(*a)
        })
    }
}

/// main: 0x1000..0x1003, calls foo at 0x1010..0x1012, returns through 0x1004.
fn main_calls_foo() -> Vec<usize> {
    vec![0x1000, 0x1001, 0x1002, 0x1010, 0x1011, 0x1012, 0x1004]
}

fn set_deferred(registry: &mut BreakpointRegistry, addr: usize) {
    assert_eq!(plan_breakpoint(registry, addr, false), BreakPlan::Deferred);
}

#[test]
fn breakpoint_on_entry() {
    let mut reg = BreakpointRegistry::new();
    set_deferred(&mut reg, 0x1010);
    assert_eq!(reg.find(0x1010).unwrap().orig_byte, 0);
    let mut t = FakeTracee::spawn(main_calls_foo());
    t.arm(&mut reg);
    assert!(t.all_armed(&reg));
    assert_eq!(t.cont(&mut reg), Some(Status::Stopped(SIGTRAP, 0x1011)));
    assert!(t.all_armed(&reg));
}

#[test]
fn continue_after_breakpoint_fires() {
    let mut reg = BreakpointRegistry::new();
    set_deferred(&mut reg, 0x1010);
    let mut t = FakeTracee::spawn(main_calls_foo());
    t.arm(&mut reg);
    t.cont(&mut reg);
    assert_eq!(t.cont(&mut reg), Some(Status::Exited(0)));
    let expected: Vec<(usize, u8)> =
        main_calls_foo().into_iter().map(|a| (a, FakeTracee::original(a))).collect();
    assert_eq!(t.executed, expected);
}

#[test]
fn repeated_hits_in_a_loop() {
    let mut path = vec![0x1000];
    for _ in 0..3 {
        path.extend_from_slice(&[0x1020, 0x1021, 0x1022]);
    }
    path.push(0x1030);
    let mut reg = BreakpointRegistry::new();
    set_deferred(&mut reg, 0x1021);
    let mut t = FakeTracee::spawn(path);
    t.arm(&mut reg);
    for _ in 0..3 {
        assert_eq!(t.cont(&mut reg), Some(Status::Stopped(SIGTRAP, 0x1022)));
        assert!(t.all_armed(&reg));
    }
    assert_eq!(t.cont(&mut reg), Some(Status::Exited(0)));
    assert_eq!(t.executed.iter().filter(|e| e.0 == 0x1021).count(), 3);
    assert!(t.executed.iter().all(|e| e.1 != TRAP_OPCODE));
}

#[test]
fn run_over_run() {
    let mut reg = BreakpointRegistry::new();
    set_deferred(&mut reg, 0x1010);
    let mut first = FakeTracee::spawn(main_calls_foo());
    first.arm(&mut reg);
    assert_eq!(first.cont(&mut reg), Some(Status::Stopped(SIGTRAP, 0x1011)));
    let run = DebuggerCommand::Run(vec![]);
    assert!(must_reap(&run, true));
    let mut second = FakeTracee::spawn(main_calls_foo());
    second.arm(&mut reg);
    assert!(second.all_armed(&reg));
    assert_eq!(second.cont(&mut reg), Some(Status::Stopped(SIGTRAP, 0x1011)));
}

#[test]
fn lifecycle_reaps_on_run_and_quit_only() {
    assert!(must_reap(&DebuggerCommand::Quit, true));
    assert!(!must_reap(&DebuggerCommand::Quit, false));
    assert!(!must_reap(&DebuggerCommand::Run(vec!["x".to_string()]), false));
    assert!(!must_reap(&DebuggerCommand::Continue, true));
    assert!(!must_reap(&DebuggerCommand::Backtrace, true));
    assert!(!must_reap(&DebuggerCommand::Break("f".to_string()), true));
}

#[test]
fn setting_a_breakpoint_while_stopped() {
    let mut reg = BreakpointRegistry::new();
    set_deferred(&mut reg, 0x1010);
    let mut t = FakeTracee::spawn(main_calls_foo());
    t.arm(&mut reg);
    let plan = plan_breakpoint(&mut reg, 0x1012, true);
    assert_eq!(plan, BreakPlan::Arm(TraceeOp::WriteByte { addr: 0x1012, value: TRAP_OPCODE }));
    assert!(!reg.contains(0x1012));
    if let BreakPlan::Arm(op) = plan {
        if let (OpOutcome::ByteReplaced(b), _) = t.perform(op) {
            reg.insert(0x1012, b);
        }
    }
    assert_eq!(plan_breakpoint(&mut reg, 0x1010, true), BreakPlan::AlreadySet);
    assert!(t.all_armed(&reg));
    assert_eq!(t.cont(&mut reg), Some(Status::Stopped(SIGTRAP, 0x1011)));
    assert_eq!(t.cont(&mut reg), Some(Status::Stopped(SIGTRAP, 0x1013)));
    assert_eq!(t.cont(&mut reg), Some(Status::Exited(0)));
}

#[test]
fn stop_not_at_a_breakpoint_resumes_at_once() {
    let reg = BreakpointRegistry::new();
    let p = ContinueProtocol::start(0x1011, &reg);
    assert_eq!(p.next_op(), Some(TraceeOp::Resume));
    let p0 = ContinueProtocol::start(0, &reg);
    assert_eq!(p0.next_op(), Some(TraceeOp::Resume));
}

#[test]
fn repair_sequence_for_a_breakpoint_stop() {
    let mut reg = BreakpointRegistry::new();
    reg.insert(0x1010, 0x4a);
    let mut p = ContinueProtocol::start(0x1011, &reg);
    assert_eq!(p.next_op(), Some(TraceeOp::WriteByte { addr: 0x1010, value: 0x4a }));
    p.advance(OpOutcome::ByteReplaced(TRAP_OPCODE), &mut reg);
    assert_eq!(p.next_op(), Some(TraceeOp::SetInstructionPointer(0x1010)));
    p.advance(OpOutcome::Done, &mut reg);
    assert_eq!(p.next_op(), Some(TraceeOp::SingleStep));
    p.advance(OpOutcome::Done, &mut reg);
    assert_eq!(p.next_op(), Some(TraceeOp::WriteByte { addr: 0x1010, value: TRAP_OPCODE }));
    p.advance(OpOutcome::ByteReplaced(0x4a), &mut reg);
    assert_eq!(p.next_op(), Some(TraceeOp::Resume));
    assert!(!p.is_over());
    p.advance(OpOutcome::Done, &mut reg);
    assert_eq!(p.phase, Phase::Finished);
    assert!(p.is_over());
    assert_eq!(p.next_op(), None);
}

#[test]
fn failed_restore_aborts_and_failed_rearm_resumes() {
    let mut reg = BreakpointRegistry::new();
    reg.insert(0x1010, 0x4a);
    let mut p = ContinueProtocol::start(0x1011, &reg);
    p.advance(OpOutcome::Failed, &mut reg);
    assert_eq!(p.phase, Phase::Aborted);
    assert_eq!(p.next_op(), None);

    let mut q = ContinueProtocol::start(0x1011, &reg);
    q.advance(OpOutcome::ByteReplaced(TRAP_OPCODE), &mut reg);
    q.advance(OpOutcome::Done, &mut reg);
    q.advance(OpOutcome::Done, &mut reg);
    q.advance(OpOutcome::Failed, &mut reg);
    assert_eq!(q.next_op(), Some(TraceeOp::Resume));
    assert_eq!(reg.find(0x1010).unwrap().orig_byte, 0x4a);
}

#[test]
fn arming_skips_a_failed_write() {
    let mut reg = BreakpointRegistry::new();
    set_deferred(&mut reg, 0x1010);
    set_deferred(&mut reg, 0x1020);
    let mut t = FakeTracee::spawn(main_calls_foo());
    t.fail_writes_at = Some(0x1010);
    t.arm(&mut reg);
    assert_eq!(reg.find(0x1010).unwrap().orig_byte, 0);
    assert_eq!(reg.find(0x1020).unwrap().orig_byte, FakeTracee::original(0x1020));
    assert_eq!(t.mem[&0x1020], TRAP_OPCODE);
}

#[test]
fn command_actions_follow_the_tracee() {
    let run = DebuggerCommand::Run(vec![]);
    assert_eq!(command_action(&run, true), CommandAction::Run { reap_first: true });
    assert_eq!(command_action(&run, false), CommandAction::Run { reap_first: false });
    assert_eq!(command_action(&DebuggerCommand::Quit, true), CommandAction::Quit { reap_first: true });
    assert_eq!(command_action(&DebuggerCommand::Continue, false), CommandAction::NoProcess);
    assert_eq!(command_action(&DebuggerCommand::Continue, true), CommandAction::Continue);
    assert_eq!(command_action(&DebuggerCommand::Backtrace, false), CommandAction::NoProcess);
    assert_eq!(command_action(&DebuggerCommand::Backtrace, true), CommandAction::Backtrace);
    let br = DebuggerCommand::Break("foo".to_string());
    assert_eq!(command_action(&br, false), CommandAction::Break);
}

#[test]
fn spawn_and_survival_follow_the_status() {
    assert_eq!(SIGTRAP, 5);
    assert!(spawn_stopped_at_trap(Status::Stopped(5, 0x401000)));
    assert!(!spawn_stopped_at_trap(Status::Stopped(11, 0x401000)));
    assert!(!spawn_stopped_at_trap(Status::Exited(0)));
    assert!(!spawn_stopped_at_trap(Status::Signaled(5)));
    assert!(tracee_survives(Status::Stopped(11, 0)));
    assert!(!tracee_survives(Status::Exited(1)));
    assert!(!tracee_survives(Status::Signaled(9)));
}
