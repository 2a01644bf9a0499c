use vstd::prelude::*;
use vstd::utf8::{decode_utf8, valid_utf8};
use crate::error::{DogCompileError, DogRuntimeError};
use crate::inst::{decode_program, CompileFault, DogInst};
use crate::regs::{valid_reg, DogRegs};

verus! {

/// The machine state that execution reads and changes: the six registers by
/// id, the program counter, and the operand stack (top last).
pub struct VmView {
    pub regs: Seq<u64>,
    pub pc: u64,
    pub stack: Seq<u64>,
}

/// What one step, or a run of steps, ends in.
pub enum Outcome {
    /// Execution may go on.
    Continue,
    /// A print instruction produced this text.
    Printed(Seq<char>),
    /// An exit instruction was reached.
    Exited,
    /// A fault.
    Failed(DogRuntimeError),
}

/// What a step or a run hands back to the caller.
#[derive(Debug, Clone, PartialEq, Eq)]
pub enum DogEvent {
    /// Nothing to do for the caller: execution may go on.
    Continue,
    /// Write this text to standard output, then go on.
    Output(String),
    /// Stop with success.
    Exit,
}

/// The outcome that an executable result stands for.
pub open spec fn outcome_of(r: Result<DogEvent, DogRuntimeError>) -> Outcome {
    match r {
        Ok(DogEvent::Continue) => Outcome::Continue,
        Ok(DogEvent::Output(s)) => Outcome::Printed(s@),
        Ok(DogEvent::Exit) => Outcome::Exited,
        Err(e) => Outcome::Failed(e),
    }
}

/// `x` modulo 2^64.
pub open spec fn wrap(x: int) -> u64 {
    (x % 0x1_0000_0000_0000_0000) as u64
}

/// The state with the program counter moved to the next instruction.
pub open spec fn advance(s: VmView) -> VmView {
    VmView { pc: wrap(s.pc + 1), ..s }
}

/// The state after pushing `v`, moved to the next instruction.
pub open spec fn pushed(s: VmView, v: u64) -> VmView {
    advance(VmView { stack: s.stack.push(v), ..s })
}

/// The state after popping `n` values into the scratch register (which
/// ends with the last value popped), moved to the next instruction.
pub open spec fn popped(s: VmView, n: u64) -> VmView {
    let len = s.stack.len();
    advance(
        VmView {
            regs: if n == 0 {
                s.regs
            } else {
                s.regs.update(0, s.stack[len - n])
            },
            stack: s.stack.take(len - n),
            ..s
        },
    )
}

/// The low bytes of the top `n` stack values, in the order they are popped.
pub open spec fn low_bytes(stack: Seq<u64>, n: nat) -> Seq<u8> {
    Seq::new(n, |i: int| (stack[stack.len() - 1 - i] % 256) as u8)
}

/// The state after executing `inst` in state `s`, and how it ends.
pub open spec fn exec_spec(inst: DogInst, s: VmView) -> (VmView, Outcome) {
    match inst {
        DogInst::Push(n) => (pushed(s, n), Outcome::Continue),
        DogInst::Pop(n) => if s.stack.len() < n {
            (s, Outcome::Failed(DogRuntimeError::EmptyStackError()))
        } else {
            (popped(s, n), Outcome::Continue)
        },
        DogInst::Add(n) => (pushed(s, wrap(s.regs[1] + n)), Outcome::Continue),
        DogInst::Mul(n) => (pushed(s, wrap(s.regs[1] * n)), Outcome::Continue),
        DogInst::Print(n) => if s.stack.len() < n {
            (s, Outcome::Failed(DogRuntimeError::EmptyStackError()))
        } else {
            let bytes = low_bytes(s.stack, n as nat);
            (
                popped(s, n),
                if valid_utf8(bytes) {
                    Outcome::Printed(decode_utf8(bytes))
                } else {
                    Outcome::Failed(DogRuntimeError::InvalidTextError())
                },
            )
        },
        DogInst::Input(_) => (s, Outcome::Failed(DogRuntimeError::UnsupportedInstruction(s.pc))),
        DogInst::Jmp(n) => (VmView { pc: n, ..s }, Outcome::Continue),
        DogInst::Mov(src, dst) => if !valid_reg(src) {
            (s, Outcome::Failed(DogRuntimeError::InvalidRegisterError(src)))
        } else if !valid_reg(dst) {
            (s, Outcome::Failed(DogRuntimeError::InvalidRegisterError(dst)))
        } else {
            (advance(VmView { regs: s.regs.update(dst as int, s.regs[src as int]), ..s }), Outcome::Continue)
        },
        DogInst::Exit() => (s, Outcome::Exited),
        DogInst::Invalid => (s, Outcome::Failed(DogRuntimeError::InvalidInstruction(s.pc))),
    }
}

/// One fetch and execute of program `p` in state `s`.
pub open spec fn step_spec(p: Seq<DogInst>, s: VmView) -> (VmView, Outcome) {
    if s.pc >= p.len() {
        (s, Outcome::Failed(DogRuntimeError::InvalidPcError(s.pc)))
    } else {
        exec_spec(p[s.pc as int], s)
    }
}

/// Up to `fuel` steps of program `p` from state `s`, stopping early at the
/// first step that does not end in `Continue`.
pub open spec fn run_spec(p: Seq<DogInst>, s: VmView, fuel: nat) -> (VmView, Outcome)
    decreases fuel,
{
    if fuel == 0 {
        (s, Outcome::Continue)
    } else {
        let (s2, o) = step_spec(p, s);
        match o {
            Outcome::Continue => run_spec(p, s2, (fuel - 1) as nat),
            _ => (s2, o),
        }
    }
}

/// Relies on `String::from_utf8`: it accepts exactly the valid UTF-8 byte
/// sequences, and the string holds the characters they encode.
#[verifier::external_body]
fn text_from_bytes(bytes: Vec<u8>) -> (r: Option<String>)
    ensures
        r is Some <==> valid_utf8(bytes@),
        r matches Some(s) ==> s@ == decode_utf8(bytes@),
{
    String::from_utf8(bytes).ok()
}

/// The virtual machine: registers, operand stack and loaded program.
#[derive(Debug)]
pub struct DogVm {
    pub regs: DogRegs,
    pub stack: Vec<u64>,
    pub insts: Vec<DogInst>,
}

impl View for DogVm {
    type V = VmView;

    open spec fn view(&self) -> VmView {
        VmView { regs: self.regs@, pc: self.regs.pc, stack: self.stack@ }
    }
}

impl DogVm {
    /// A machine with zeroed registers, an empty stack and no program.
    pub fn new() -> (r: Self)
        ensures
            r@.regs == Seq::new(6, |i: int| 0u64),
            r@.pc == 0,
            r@.stack.len() == 0,
            r.insts@.len() == 0,
    {
        Self { regs: DogRegs::new(), stack: Vec::new(), insts: Vec::new() }
    }

    /// Decodes `prog` and makes it the loaded program. Registers, program
    /// counter and stack are left as they are; on an error nothing changes.
    pub fn load(&mut self, prog: String) -> (r: Result<(), DogCompileError>)
        ensures
            final(self)@ == old(self)@,
            r is Ok ==> decode_program(prog@) == Ok::<Seq<DogInst>, CompileFault>(final(self).insts@),
            r matches Err(e) ==> (decode_program(prog@) == Err::<Seq<DogInst>, CompileFault>(e@)),
            r is Err ==> final(self).insts@ == old(self).insts@,
    {
        match DogInst::parse(prog.as_str()) {
            Ok(insts) => {
                self.insts = insts;
                Ok(())
            },
            Err(e) => Err(e),
        }
    }

    /// Pops `n` values into the scratch register and returns their low
    /// bytes in the order they were popped.
    fn pop_n(&mut self, n: u64) -> (bytes: Vec<u8>)
        requires
            n <= old(self).stack@.len(),
        ensures
            final(self).insts == old(self).insts,
            final(self)@ == (VmView { pc: old(self)@.pc, ..popped(old(self)@, n) }),
            bytes@ == low_bytes(old(self)@.stack, n as nat),
    {
        let ghost s0 = self@;
        let ghost len = s0.stack.len();
        let mut bytes: Vec<u8> = Vec::new();
        let mut i: u64 = 0;
        while i < n
            invariant
                i <= n <= len,
                len == s0.stack.len(),
                self.insts == old(self).insts,
                self.regs.pc == s0.pc,
                self.stack@ == s0.stack.take(len - i),
                self.regs.r1 == old(self).regs.r1,
                self.regs.r2 == old(self).regs.r2,
                self.regs.r3 == old(self).regs.r3,
                self.regs.r4 == old(self).regs.r4,
                self.regs.r5 == old(self).regs.r5,
                self.regs.srg == (if i == 0 {
                    old(self).regs.srg
                } else {
                    s0.stack[len - i]
                }),
                bytes@ == low_bytes(s0.stack, i as nat),
            decreases n - i,
        {
            let v = match self.stack.pop() {
                Some(v) => v,
                None => {
                    assert(false);
                    0
                },
            };
            assert(v == s0.stack[len - i - 1]);
            self.regs.srg = v;
            bytes.push((v % 256) as u8);
            i = i + 1;
            assert(self.stack@ =~= s0.stack.take(len - i));
            assert(bytes@ =~= low_bytes(s0.stack, i as nat));
        }
        assert(self@.regs =~= popped(s0, n).regs);
        assert(self@.stack =~= popped(s0, n).stack);
        bytes
    }

    /// Executes `inst` as the instruction at the current program counter,
    /// which the faults of `Input` and `Invalid` report.
    pub fn run_one(&mut self, inst: DogInst) -> (r: Result<DogEvent, DogRuntimeError>)
        ensures
            final(self).insts == old(self).insts,
            (final(self)@, outcome_of(r)) == exec_spec(inst, old(self)@),
    {
        let ghost s0 = self@;
        let mut event = DogEvent::Continue;
        match inst {
            DogInst::Push(imm) => {
                self.stack.push(imm);
            },
            DogInst::Pop(imm) => {
                if (self.stack.len() as u64) < imm {
                    return Err(DogRuntimeError::EmptyStackError());
                }
                let _ = self.pop_n(imm);
            },
            DogInst::Add(imm) => {
                self.stack.push(self.regs.r1.wrapping_add(imm));
            },
            DogInst::Mul(imm) => {
                self.stack.push(self.regs.r1.wrapping_mul(imm));
            },
            DogInst::Print(imm) => {
                if (self.stack.len() as u64) < imm {
                    return Err(DogRuntimeError::EmptyStackError());
                }
                let bytes = self.pop_n(imm);
                match text_from_bytes(bytes) {
                    Some(text) => {
                        event = DogEvent::Output(text);
                    },
                    None => {
                        self.regs.pc = self.regs.pc.wrapping_add(1);
                        return Err(DogRuntimeError::InvalidTextError());
                    },
                }
            },
            DogInst::Input(_) => {
                return Err(DogRuntimeError::UnsupportedInstruction(self.regs.pc));
            },
            DogInst::Jmp(imm) => {
                self.regs.pc = imm.wrapping_sub(1);
            },
            DogInst::Mov(src, dst) => {
                match self.regs.mov(src, dst) {
                    Ok(()) => {},
                    Err(e) => {
                        return Err(e);
                    },
                }
            },
            DogInst::Exit() => {
                return Ok(DogEvent::Exit);
            },
            DogInst::Invalid => {
                return Err(DogRuntimeError::InvalidInstruction(self.regs.pc));
            },
        }
        self.regs.pc = self.regs.pc.wrapping_add(1);
        proof {
            let (s1, o) = exec_spec(inst, s0);
            assert(self@.regs =~= s1.regs);
            assert(self@.stack =~= s1.stack);
        }
        Ok(event)
    }

    /// Fetches the instruction at the program counter and executes it.
    pub fn step(&mut self) -> (r: Result<DogEvent, DogRuntimeError>)
        ensures
            final(self).insts == old(self).insts,
            (final(self)@, outcome_of(r)) == step_spec(old(self).insts@, old(self)@),
    {
        if self.regs.pc >= self.insts.len() as u64 {
            return Err(DogRuntimeError::InvalidPcError(self.regs.pc));
        }
        let inst = self.insts[self.regs.pc as usize];
        self.run_one(inst)
    }

    /// Runs at most `max_steps` steps, stopping early at output, exit or a
    /// fault. `Ok(DogEvent::Continue)` means every step was taken and
    /// execution may go on with another call.
    pub fn run(&mut self, max_steps: u64) -> (r: Result<DogEvent, DogRuntimeError>)
        ensures
            final(self).insts == old(self).insts,
            (final(self)@, outcome_of(r)) == run_spec(
                old(self).insts@,
                old(self)@,
                max_steps as nat,
            ),
    {
        let mut left: u64 = max_steps;
        while left > 0
            invariant
                self.insts == old(self).insts,
                run_spec(old(self).insts@, old(self)@, max_steps as nat) == run_spec(
                    self.insts@,
                    self@,
                    left as nat,
                ),
            decreases left,
        {
            let r = self.step();
            match r {
                Ok(DogEvent::Continue) => {},
                _ => {
                    return r;
                },
            }
            left = left - 1;
        }
        Ok(DogEvent::Continue)
    }
}

} // verus!
