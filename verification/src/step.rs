//! One interpreter step: the abstract transition `vm_step` says what any
//! single instruction does to the machine, and `Context::step` executes it.

use vstd::prelude::*;
use crate::isa::{decode, decode_s, lemma_decode_wf, Instr};
use crate::mem::{lemma_mask16, mem_read8, mem_read8_s, mem_write8, mem_write8_s};
use crate::state::{Context, Pc, Runner, Slot, State, StepEvent, VmError};

verus! {

/// The truncating quotient of two integers, as Rust's signed division
/// computes it: the magnitude quotient, with the operands' signs.
pub open spec fn idiv_q(x: int, d: int) -> int
    recommends
        d != 0,
{
    if x == 0 {
        0
    } else if x > 0 && d > 0 {
        x / d
    } else if x < 0 && d < 0 {
        (x * -1) / (d * -1)
    } else if x < 0 {
        ((x * -1) / d) * -1
    } else {
        (x / (d * -1)) * -1
    }
}

/// The truncating remainder: what is left after `idiv_q` many divisors,
/// with the dividend's sign.
pub open spec fn irem_r(x: int, d: int) -> int
    recommends
        d != 0,
{
    if x == 0 {
        0
    } else if x > 0 && d > 0 {
        x % d
    } else if x < 0 && d < 0 {
        ((x * -1) % (d * -1)) * -1
    } else if x < 0 {
        ((x * -1) % d) * -1
    } else {
        x % (d * -1)
    }
}

/// The signed quotient of two register values, wrapping on the one
/// overflowing case (the most negative value divided by minus one).
pub open spec fn sdiv64(a: u64, b: u64) -> u64
    recommends
        b as i64 != 0,
{
    let x = a as i64;
    let d = b as i64;
    if x == i64::MIN && d == -1 {
        a
    } else {
        (idiv_q(x as int, d as int) as i64) as u64
    }
}

/// The signed remainder of two register values; zero on the overflowing
/// case, as wrapping leaves no rest.
pub open spec fn srem64(a: u64, b: u64) -> u64
    recommends
        b as i64 != 0,
{
    let x = a as i64;
    let d = b as i64;
    if x == i64::MIN && d == -1 {
        0
    } else {
        (irem_r(x as int, d as int) as i64) as u64
    }
}

/// Whether the program counter points at an instruction of the program.
pub open spec fn fetch_ok(s: State) -> bool {
    s.pc.func < s.funcs.len() && s.pc.idx < s.funcs[s.pc.func as int].code.len()
}

/// The instruction word under the program counter.
pub open spec fn cur_insn(s: State) -> u16
    recommends
        fetch_ok(s),
{
    s.funcs[s.pc.func as int].code[s.pc.idx as int]
}

/// The state with the running flag cleared and nothing else changed: how
/// every failing or halting instruction leaves the machine.
pub open spec fn stopped(s: State) -> State {
    State { running: false, ..s }
}

/// The state with the program counter moved past the current instruction.
pub open spec fn advanced(s: State) -> State {
    State { pc: Pc { func: s.pc.func, idx: (s.pc.idx + 1) as usize }, ..s }
}

/// The address the instruction after the current one would have: what CALL
/// pushes and RETURN later restores.
pub open spec fn next_pc(s: State) -> Pc {
    Pc { func: s.pc.func, idx: (s.pc.idx + 1) as usize }
}

/// A jump of `off` words relative to the current instruction. A target
/// below zero stops the machine at once, since the program counter cannot
/// hold it; one at or past the end of the body is caught at the next
/// fetch.
pub open spec fn jumped(s: State, off: i64) -> (State, StepEvent) {
    let t = s.pc.idx + off;
    if t < 0 || t > usize::MAX {
        (stopped(s), StepEvent::Failed(VmError::PcOutOfRange))
    } else {
        (State { pc: Pc { func: s.pc.func, idx: t as usize }, ..s }, StepEvent::Next)
    }
}

/// The state with one register replaced and the program counter advanced.
pub open spec fn with_reg(s: State, dst: u16, v: u64) -> State {
    advanced(State { regs: s.regs.update(dst as int, v), ..s })
}

/// What one step of the machine does: the next state, and the event the
/// embedding runtime must act on. The instruction under the program
/// counter is decoded and executed as the instruction tables say;
/// a fetch outside the program, an invalid word, a missing callee, a full
/// call stack or a zero divisor stops the machine with its diagnostic.
pub open spec fn vm_step(s: State) -> (State, StepEvent)
    recommends
        s.wf(),
{
    if !fetch_ok(s) {
        (stopped(s), StepEvent::Failed(VmError::PcOutOfRange))
    } else {
        let insn = cur_insn(s);
        match decode_s(insn) {
            Instr::Noop => (advanced(s), StepEvent::Next),
            Instr::Move { dst, src } => (with_reg(s, dst, s.regs[src as int]), StepEvent::Next),
            Instr::MemLoad { dst, src } => {
                let a = (s.regs[src as int] & 0xffff) as int;
                (with_reg(s, dst, mem_read8_s(s.mem, a)), StepEvent::Next)
            },
            Instr::MemStore { dst, src } => {
                let a = (s.regs[dst as int] & 0xffff) as int;
                (
                    advanced(State { mem: mem_write8_s(s.mem, a, s.regs[src as int]), ..s }),
                    StepEvent::Next,
                )
            },
            Instr::Return => {
                if s.stack.len() == 0 {
                    (stopped(s), StepEvent::Finished)
                } else {
                    match s.stack.last() {
                        Slot::Return(p) => (
                            State { pc: p, stack: s.stack.drop_last(), ..s },
                            StepEvent::Next,
                        ),
                        Slot::NativeCaller => (
                            State { stack: s.stack.drop_last(), ..s },
                            StepEvent::ReturnNative,
                        ),
                    }
                }
            },
            Instr::Add { dst, src } => (
                with_reg(
                    s,
                    dst,
                    vstd::wrapping::u64_specs::wrapping_add(s.regs[dst as int], s.regs[src as int]),
                ),
                StepEvent::Next,
            ),
            Instr::Sub { dst, src } => (
                with_reg(
                    s,
                    dst,
                    vstd::wrapping::u64_specs::wrapping_sub(s.regs[dst as int], s.regs[src as int]),
                ),
                StepEvent::Next,
            ),
            Instr::Mul { dst, src } => (
                with_reg(
                    s,
                    dst,
                    vstd::wrapping::u64_specs::wrapping_mul(s.regs[dst as int], s.regs[src as int]),
                ),
                StepEvent::Next,
            ),
            Instr::Imul { dst, src } => (
                with_reg(
                    s,
                    dst,
                    vstd::wrapping::i64_specs::wrapping_mul(
                        s.regs[dst as int] as i64,
                        s.regs[src as int] as i64,
                    ) as u64,
                ),
                StepEvent::Next,
            ),
            Instr::Div { dst, src } => {
                if s.regs[src as int] == 0 {
                    (stopped(s), StepEvent::Failed(VmError::DivideByZero(insn)))
                } else {
                    (
                        with_reg(s, dst, s.regs[dst as int] / s.regs[src as int]),
                        StepEvent::Next,
                    )
                }
            },
            Instr::Idiv { dst, src } => {
                if s.regs[src as int] as i64 == 0 {
                    (stopped(s), StepEvent::Failed(VmError::DivideByZero(insn)))
                } else {
                    (
                        with_reg(s, dst, sdiv64(s.regs[dst as int], s.regs[src as int])),
                        StepEvent::Next,
                    )
                }
            },
            Instr::Rem { dst, src } => {
                if s.regs[src as int] == 0 {
                    (stopped(s), StepEvent::Failed(VmError::DivideByZero(insn)))
                } else {
                    (
                        with_reg(s, dst, s.regs[dst as int] % s.regs[src as int]),
                        StepEvent::Next,
                    )
                }
            },
            Instr::Irem { dst, src } => {
                if s.regs[src as int] as i64 == 0 {
                    (stopped(s), StepEvent::Failed(VmError::DivideByZero(insn)))
                } else {
                    (
                        with_reg(s, dst, srem64(s.regs[dst as int], s.regs[src as int])),
                        StepEvent::Next,
                    )
                }
            },
            Instr::Print { src } => (
                advanced(State { output: s.output.push(s.regs[src as int] as i64), ..s }),
                StepEvent::Next,
            ),
            Instr::Halt => (stopped(s), StepEvent::Halted),
            Instr::Load { dst, val } => (with_reg(s, dst, val as u64), StepEvent::Next),
            Instr::Iload { dst, val } => (with_reg(s, dst, val as u64), StepEvent::Next),
            Instr::Jump { off } => jumped(s, off),
            Instr::Jumpz { cond, off } => {
                if s.regs[cond as int] == 0 {
                    jumped(s, off)
                } else {
                    (advanced(s), StepEvent::Next)
                }
            },
            Instr::Jumpnz { cond, off } => {
                if s.regs[cond as int] != 0 {
                    jumped(s, off)
                } else {
                    (advanced(s), StepEvent::Next)
                }
            },
            Instr::Call { index } => {
                if index as int >= s.funcs.len() {
                    (stopped(s), StepEvent::Failed(VmError::InvalidFunction(insn)))
                } else if s.funcs[index as int].native {
                    if s.stack.len() + 2 > s.cap {
                        (stopped(s), StepEvent::Failed(VmError::CallstackOverflow(insn)))
                    } else {
                        (
                            State {
                                stack: s.stack.push(Slot::Return(next_pc(s))).push(
                                    Slot::NativeCaller,
                                ),
                                ..s
                            },
                            StepEvent::CallNative(index as usize),
                        )
                    }
                } else {
                    if s.stack.len() >= s.cap {
                        (stopped(s), StepEvent::Failed(VmError::CallstackOverflow(insn)))
                    } else {
                        (
                            State {
                                pc: Pc { func: index as usize, idx: 0 },
                                stack: s.stack.push(Slot::Return(next_pc(s))),
                                ..s
                            },
                            StepEvent::Next,
                        )
                    }
                }
            },
            Instr::InvalidSmall => (
                stopped(s),
                StepEvent::Failed(VmError::InvalidSmallInstruction(insn)),
            ),
            Instr::Invalid => (stopped(s), StepEvent::Failed(VmError::InvalidInstruction(insn))),
        }
    }
}

/// A step leaves a well-formed machine well formed.
pub proof fn lemma_vm_step_wf(s: State)
    requires
        s.wf(),
    ensures
        vm_step(s).0.wf(),
{
    if fetch_ok(s) {
        let insn = cur_insn(s);
        lemma_decode_wf(insn);
        match decode_s(insn) {
            Instr::Noop => {},
            Instr::Move { dst, src } => {},
            Instr::MemLoad { dst, src } => {},
            Instr::MemStore { dst, src } => {
                lemma_mask16(s.regs[dst as int]);
            },
            Instr::Return => {},
            Instr::Add { dst, src } => {},
            Instr::Sub { dst, src } => {},
            Instr::Mul { dst, src } => {},
            Instr::Imul { dst, src } => {},
            Instr::Div { dst, src } => {},
            Instr::Idiv { dst, src } => {},
            Instr::Rem { dst, src } => {},
            Instr::Irem { dst, src } => {},
            Instr::Print { src } => {},
            Instr::Halt => {},
            Instr::Load { dst, val } => {},
            Instr::Iload { dst, val } => {},
            Instr::Jump { off } => {},
            Instr::Jumpz { cond, off } => {},
            Instr::Jumpnz { cond, off } => {},
            Instr::Call { index } => {},
            Instr::InvalidSmall => {},
            Instr::Invalid => {},
        }
    }
}

impl Context {
    /// Executes the instruction under the program counter and reports what
    /// it did. The state moves exactly as `vm_step` says; on HALT, on a
    /// RETURN that finds the call stack empty, and on every failure the
    /// runner's `running` flag is cleared.
    #[verifier::rlimit(60)]
    pub fn step(&mut self, runner: &mut Runner) -> (ev: StepEvent)
        requires
            old(self).wf(),
        ensures
            final(self).abs(final(runner).running) == vm_step(
                old(self).abs(old(runner).running),
            ).0,
            ev == vm_step(old(self).abs(old(runner).running)).1,
            final(self).wf(),
            final(runner).snapshot == old(runner).snapshot,
    {
        let ghost s0 = old(self).abs(old(runner).running);
        if self.pc.func >= self.funcs.len() || self.pc.idx >= self.funcs[self.pc.func].code.len() {
            runner.running = false;
            proof {
                assert(self.abs(runner.running) =~~= vm_step(s0).0);
            }
            return StepEvent::Failed(VmError::PcOutOfRange);
        }
        let insn = self.funcs[self.pc.func].code[self.pc.idx];
        proof {
            assert(insn == cur_insn(s0));
            lemma_decode_wf(insn);
        }
        match decode(insn) {
            Instr::Noop => {
                self.pc = Pc { func: self.pc.func, idx: self.pc.idx + 1 };
                proof {
                    assert(self.abs(runner.running) =~~= vm_step(s0).0);
                }
                StepEvent::Next
            },
            Instr::Move { dst, src } => {
                let v = self.regs[src as usize];
                self.regs[dst as usize] = v;
                self.pc = Pc { func: self.pc.func, idx: self.pc.idx + 1 };
                proof {
                    assert(self.abs(runner.running) =~~= vm_step(s0).0);
                }
                StepEvent::Next
            },
            Instr::MemLoad { dst, src } => {
                proof {
                    lemma_mask16(self.regs[src as int]);
                }
                let addr = (self.regs[src as usize] & 0xffff) as usize;
                let v = mem_read8(&self.mem, addr);
                self.regs[dst as usize] = v;
                self.pc = Pc { func: self.pc.func, idx: self.pc.idx + 1 };
                proof {
                    assert(self.abs(runner.running) =~~= vm_step(s0).0);
                }
                StepEvent::Next
            },
            Instr::MemStore { dst, src } => {
                proof {
                    lemma_mask16(self.regs[dst as int]);
                }
                let addr = (self.regs[dst as usize] & 0xffff) as usize;
                let v = self.regs[src as usize];
                mem_write8(&mut self.mem, addr, v);
                self.pc = Pc { func: self.pc.func, idx: self.pc.idx + 1 };
                proof {
                    assert(self.abs(runner.running) =~~= vm_step(s0).0);
                }
                StepEvent::Next
            },
            Instr::Return => {
                if self.callstack.will_underflow() {
                    runner.running = false;
                    proof {
                        assert(self.abs(runner.running) =~~= vm_step(s0).0);
                    }
                    return StepEvent::Finished;
                }
                let slot = self.callstack.pop();
                match slot {
                    Slot::Return(p) => {
                        self.pc = p;
                        proof {
                            assert(self.abs(runner.running) =~~= vm_step(s0).0);
                        }
                        StepEvent::Next
                    },
                    Slot::NativeCaller => {
                        proof {
                            assert(self.abs(runner.running) =~~= vm_step(s0).0);
                        }
                        StepEvent::ReturnNative
                    },
                }
            },
            Instr::Add { dst, src } => {
                let v = self.regs[dst as usize].wrapping_add(self.regs[src as usize]);
                self.regs[dst as usize] = v;
                self.pc = Pc { func: self.pc.func, idx: self.pc.idx + 1 };
                proof {
                    assert(self.abs(runner.running) =~~= vm_step(s0).0);
                }
                StepEvent::Next
            },
            Instr::Sub { dst, src } => {
                let v = self.regs[dst as usize].wrapping_sub(self.regs[src as usize]);
                self.regs[dst as usize] = v;
                self.pc = Pc { func: self.pc.func, idx: self.pc.idx + 1 };
                proof {
                    assert(self.abs(runner.running) =~~= vm_step(s0).0);
                }
                StepEvent::Next
            },
            Instr::Mul { dst, src } => {
                let v = self.regs[dst as usize].wrapping_mul(self.regs[src as usize]);
                self.regs[dst as usize] = v;
                self.pc = Pc { func: self.pc.func, idx: self.pc.idx + 1 };
                proof {
                    assert(self.abs(runner.running) =~~= vm_step(s0).0);
                }
                StepEvent::Next
            },
            Instr::Imul { dst, src } => {
                let a = self.regs[dst as usize] as i64;
                let b = self.regs[src as usize] as i64;
                let v = a.wrapping_mul(b) as u64;
                self.regs[dst as usize] = v;
                self.pc = Pc { func: self.pc.func, idx: self.pc.idx + 1 };
                proof {
                    assert(self.abs(runner.running) =~~= vm_step(s0).0);
                }
                StepEvent::Next
            },
            Instr::Div { dst, src } => {
                let d = self.regs[src as usize];
                if d == 0 {
                    runner.running = false;
                    proof {
                        assert(self.abs(runner.running) =~~= vm_step(s0).0);
                    }
                    return StepEvent::Failed(VmError::DivideByZero(insn));
                }
                let v = self.regs[dst as usize] / d;
                self.regs[dst as usize] = v;
                self.pc = Pc { func: self.pc.func, idx: self.pc.idx + 1 };
                proof {
                    assert(self.abs(runner.running) =~~= vm_step(s0).0);
                }
                StepEvent::Next
            },
            Instr::Idiv { dst, src } => {
                let d = self.regs[src as usize] as i64;
                if d == 0 {
                    runner.running = false;
                    proof {
                        assert(self.abs(runner.running) =~~= vm_step(s0).0);
                    }
                    return StepEvent::Failed(VmError::DivideByZero(insn));
                }
                let x = self.regs[dst as usize] as i64;
                let q: i64 = match x.checked_div(d) {
                    Some(q) => q,
                    None => i64::MIN,
                };
                proof {
                    lemma_cast_u64_round_trip(s0.regs[dst as int]);
                    lemma_cast_u64_round_trip(s0.regs[src as int]);
                    lemma_idiv_matches(x, d);
                }
                self.regs[dst as usize] = q as u64;
                self.pc = Pc { func: self.pc.func, idx: self.pc.idx + 1 };
                proof {
                    assert(self.abs(runner.running) =~~= vm_step(s0).0);
                }
                StepEvent::Next
            },
            Instr::Rem { dst, src } => {
                let d = self.regs[src as usize];
                if d == 0 {
                    runner.running = false;
                    proof {
                        assert(self.abs(runner.running) =~~= vm_step(s0).0);
                    }
                    return StepEvent::Failed(VmError::DivideByZero(insn));
                }
                let v = self.regs[dst as usize] % d;
                self.regs[dst as usize] = v;
                self.pc = Pc { func: self.pc.func, idx: self.pc.idx + 1 };
                proof {
                    assert(self.abs(runner.running) =~~= vm_step(s0).0);
                }
                StepEvent::Next
            },
            Instr::Irem { dst, src } => {
                let d = self.regs[src as usize] as i64;
                if d == 0 {
                    runner.running = false;
                    proof {
                        assert(self.abs(runner.running) =~~= vm_step(s0).0);
                    }
                    return StepEvent::Failed(VmError::DivideByZero(insn));
                }
                let x = self.regs[dst as usize] as i64;
                let r: i64 = match x.checked_rem(d) {
                    Some(r) => r,
                    None => 0,
                };
                proof {
                    lemma_cast_u64_round_trip(s0.regs[dst as int]);
                    lemma_cast_u64_round_trip(s0.regs[src as int]);
                    lemma_irem_matches(x, d);
                }
                self.regs[dst as usize] = r as u64;
                self.pc = Pc { func: self.pc.func, idx: self.pc.idx + 1 };
                proof {
                    assert(self.abs(runner.running) =~~= vm_step(s0).0);
                }
                StepEvent::Next
            },
            Instr::Print { src } => {
                let v = self.regs[src as usize] as i64;
                self.output.push(v);
                self.pc = Pc { func: self.pc.func, idx: self.pc.idx + 1 };
                proof {
                    assert(self.abs(runner.running) =~~= vm_step(s0).0);
                }
                StepEvent::Next
            },
            Instr::Halt => {
                runner.running = false;
                proof {
                    assert(self.abs(runner.running) =~~= vm_step(s0).0);
                }
                StepEvent::Halted
            },
            Instr::Load { dst, val } => {
                self.regs[dst as usize] = val as u64;
                self.pc = Pc { func: self.pc.func, idx: self.pc.idx + 1 };
                proof {
                    assert(self.abs(runner.running) =~~= vm_step(s0).0);
                }
                StepEvent::Next
            },
            Instr::Iload { dst, val } => {
                self.regs[dst as usize] = val as u64;
                self.pc = Pc { func: self.pc.func, idx: self.pc.idx + 1 };
                proof {
                    assert(self.abs(runner.running) =~~= vm_step(s0).0);
                }
                StepEvent::Next
            },
            Instr::Jump { off } => self.do_jump(runner, off, Ghost(s0)),
            Instr::Jumpz { cond, off } => {
                if self.regs[cond as usize] == 0 {
                    self.do_jump(runner, off, Ghost(s0))
                } else {
                    self.pc = Pc { func: self.pc.func, idx: self.pc.idx + 1 };
                    proof {
                        assert(self.abs(runner.running) =~~= vm_step(s0).0);
                    }
                    StepEvent::Next
                }
            },
            Instr::Jumpnz { cond, off } => {
                if self.regs[cond as usize] != 0 {
                    self.do_jump(runner, off, Ghost(s0))
                } else {
                    self.pc = Pc { func: self.pc.func, idx: self.pc.idx + 1 };
                    proof {
                        assert(self.abs(runner.running) =~~= vm_step(s0).0);
                    }
                    StepEvent::Next
                }
            },
            Instr::Call { index } => {
                if index as usize >= self.funcs.len() {
                    runner.running = false;
                    proof {
                        assert(self.abs(runner.running) =~~= vm_step(s0).0);
                    }
                    return StepEvent::Failed(VmError::InvalidFunction(insn));
                }
                let native = self.funcs[index as usize].addr.native;
                if native {
                    if self.callstack.remaining_capacity() < 2 {
                        runner.running = false;
                        proof {
                            assert(self.abs(runner.running) =~~= vm_step(s0).0);
                        }
                        return StepEvent::Failed(VmError::CallstackOverflow(insn));
                    }
                    let ret = Pc { func: self.pc.func, idx: self.pc.idx + 1 };
                    self.callstack.push(Slot::Return(ret));
                    self.callstack.push(Slot::NativeCaller);
                    proof {
                        assert(self.abs(runner.running) =~~= vm_step(s0).0);
                    }
                    StepEvent::CallNative(index as usize)
                } else {
                    if self.callstack.will_overflow() {
                        runner.running = false;
                        proof {
                            assert(self.abs(runner.running) =~~= vm_step(s0).0);
                        }
                        return StepEvent::Failed(VmError::CallstackOverflow(insn));
                    }
                    let ret = Pc { func: self.pc.func, idx: self.pc.idx + 1 };
                    self.callstack.push(Slot::Return(ret));
                    self.pc = Pc { func: index as usize, idx: 0 };
                    proof {
                        assert(self.abs(runner.running) =~~= vm_step(s0).0);
                    }
                    StepEvent::Next
                }
            },
            Instr::InvalidSmall => {
                runner.running = false;
                proof {
                    assert(self.abs(runner.running) =~~= vm_step(s0).0);
                }
                StepEvent::Failed(VmError::InvalidSmallInstruction(insn))
            },
            Instr::Invalid => {
                runner.running = false;
                proof {
                    assert(self.abs(runner.running) =~~= vm_step(s0).0);
                }
                StepEvent::Failed(VmError::InvalidInstruction(insn))
            },
        }
    }

    /// Moves the program counter by `off` words relative to the current
    /// instruction, stopping the machine if the target lies below zero or
    /// past what an offset can address.
    fn do_jump(&mut self, runner: &mut Runner, off: i64, Ghost(s0): Ghost<State>) -> (ev: StepEvent)
        requires
            -0x800 <= off < 0x800,
            old(self).abs(old(runner).running) == s0,
            fetch_ok(s0),
        ensures
            final(self).abs(final(runner).running) == jumped(s0, off).0,
            ev == jumped(s0, off).1,
            final(runner).snapshot == old(runner).snapshot,
    {
        if off >= 0 {
            let k = off as usize;
            if self.pc.idx <= usize::MAX - k {
                self.pc = Pc { func: self.pc.func, idx: self.pc.idx + k };
                proof {
                    assert(self.abs(runner.running) =~~= jumped(s0, off).0);
                }
                StepEvent::Next
            } else {
                runner.running = false;
                proof {
                    assert(self.abs(runner.running) =~~= jumped(s0, off).0);
                }
                StepEvent::Failed(VmError::PcOutOfRange)
            }
        } else {
            let k = (-off) as usize;
            if self.pc.idx >= k {
                self.pc = Pc { func: self.pc.func, idx: self.pc.idx - k };
                proof {
                    assert(self.abs(runner.running) =~~= jumped(s0, off).0);
                }
                StepEvent::Next
            } else {
                runner.running = false;
                proof {
                    assert(self.abs(runner.running) =~~= jumped(s0, off).0);
                }
                StepEvent::Failed(VmError::PcOutOfRange)
            }
        }
    }
}

/// `checked_div`'s only undefined inputs are a zero divisor and the
/// overflowing pair: with those out, its result is the truncating
/// quotient, and the overflowing pair wraps to the dividend.
proof fn lemma_idiv_matches(x: i64, d: i64)
    requires
        d != 0,
    ensures
        (x == i64::MIN && d == -1) ==> sdiv64(x as u64, d as u64) == (i64::MIN as u64),
        (x == i64::MIN && d == -1) ==> idiv_q(x as int, d as int) == 0x8000_0000_0000_0000,
        !(x == i64::MIN && d == -1) ==> i64::MIN <= idiv_q(x as int, d as int) <= i64::MAX,
        !(x == i64::MIN && d == -1) ==> sdiv64(x as u64, d as u64) == ((idiv_q(
            x as int,
            d as int,
        ) as i64) as u64),
{
    lemma_cast_i64_round_trip(x);
    lemma_cast_i64_round_trip(d);
    if x == i64::MIN && d == -1 {
        vstd::arithmetic::div_mod::lemma_div_basics(x as int * -1);
    } else {
        lemma_idiv_q_in_range(x, d);
    }
}

/// Same for `checked_rem`: the remainder is always in range, and the
/// overflowing pair leaves no rest.
proof fn lemma_irem_matches(x: i64, d: i64)
    requires
        d != 0,
    ensures
        (x == i64::MIN && d == -1) ==> srem64(x as u64, d as u64) == 0,
        !(x == i64::MIN && d == -1) ==> i64::MIN <= irem_r(x as int, d as int) <= i64::MAX,
        !(x == i64::MIN && d == -1) ==> srem64(x as u64, d as u64) == ((irem_r(
            x as int,
            d as int,
        ) as i64) as u64),
{
    lemma_cast_i64_round_trip(x);
    lemma_cast_i64_round_trip(d);
    if !(x == i64::MIN && d == -1) {
        lemma_irem_r_in_range(x, d);
    }
}

/// Casting a signed 64-bit value to unsigned and back gives it back.
proof fn lemma_cast_i64_round_trip(x: i64)
    by (bit_vector)
    ensures
        (x as u64) as i64 == x,
{
}

/// Casting an unsigned 64-bit value to signed and back gives it back.
proof fn lemma_cast_u64_round_trip(x: u64)
    by (bit_vector)
    ensures
        (x as i64) as u64 == x,
{
}

/// The truncating quotient of 64-bit values stays in range, except for the
/// most negative value divided by minus one.
proof fn lemma_idiv_q_in_range(x: i64, d: i64)
    requires
        d != 0,
        !(x == i64::MIN && d == -1),
    ensures
        i64::MIN <= idiv_q(x as int, d as int) <= i64::MAX,
{
    let xi = x as int;
    let di = d as int;
    if xi == 0 {
    } else if xi > 0 && di > 0 {
        lemma_magnitude_quotient(xi, di);
    } else if xi < 0 && di < 0 {
        let p = xi * -1;
        let q = di * -1;
        lemma_magnitude_quotient(p, q);
        if q == 1 {
        } else {
            vstd::arithmetic::div_mod::lemma_div_is_ordered_by_denominator(p, 2, q);
            vstd::arithmetic::div_mod::lemma_div_is_ordered(p, 0x8000_0000_0000_0000, 2);
        }
    } else if xi < 0 {
        let p = xi * -1;
        lemma_magnitude_quotient(p, di);
    } else {
        let q = di * -1;
        lemma_magnitude_quotient(xi, q);
    }
}

/// The quotient of non-negative `p` by positive `q` lies between zero and
/// `p`.
proof fn lemma_magnitude_quotient(p: int, q: int)
    requires
        0 <= p,
        1 <= q,
    ensures
        0 <= p / q <= p,
{
    vstd::arithmetic::div_mod::lemma_div_pos_is_pos(p, q);
    vstd::arithmetic::div_mod::lemma_div_is_ordered_by_denominator(p, 1, q);
    vstd::arithmetic::div_mod::lemma_div_basics(p);
}

/// The truncating remainder of 64-bit values is always in range: its
/// magnitude stays under the divisor's.
proof fn lemma_irem_r_in_range(x: i64, d: i64)
    requires
        d != 0,
        !(x == i64::MIN && d == -1),
    ensures
        i64::MIN <= irem_r(x as int, d as int) <= i64::MAX,
{
    let xi = x as int;
    let di = d as int;
    if xi == 0 {
    } else if xi > 0 && di > 0 {
        vstd::arithmetic::div_mod::lemma_mod_bound(xi, di);
    } else if xi < 0 && di < 0 {
        vstd::arithmetic::div_mod::lemma_mod_bound(xi * -1, di * -1);
    } else if xi < 0 {
        vstd::arithmetic::div_mod::lemma_mod_bound(xi * -1, di);
    } else {
        vstd::arithmetic::div_mod::lemma_mod_bound(xi, di * -1);
    }
}

} // verus!
