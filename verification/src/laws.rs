//! The machine's laws: what holds of every program. Each public proof
//! function here states one of them over the abstract semantics that the
//! interpreter is proved to implement.

use vstd::prelude::*;
use vstd::arithmetic::power2::pow2;
use crate::isa::{decode_s, sign_ext_spec, Instr, lemma_pow2_small_values};
use crate::mem::{mem_read8_s, mem_write8_s};
use crate::state::{Slot, State, StepEvent};
use crate::step::{cur_insn, fetch_ok, lemma_vm_step_wf, next_pc, vm_step};

verus! {

/// The machine after `n` steps from `s`, bridge events and stops ignored:
/// the raw iteration of the step relation.
pub open spec fn trace(s: State, n: nat) -> State
    decreases n,
{
    if n == 0 {
        s
    } else {
        vm_step(trace(s, (n - 1) as nat)).0
    }
}

/// Whether the first `n` steps from `s` all retire normally: no halt, no
/// finish, no failure, no crossing into or out of native code.
pub open spec fn steps_normal(s: State, n: nat) -> bool {
    forall|k: nat| k < n ==> vm_step(#[trigger] trace(s, k)).1 is Next
}

/// What one normally retiring step can do to the call stack: leave it,
/// push the return address of a virtual call, or pop a virtual return
/// address and continue there. Entries below the top are never touched.
proof fn lemma_step_frames(s: State)
    requires
        s.wf(),
    ensures
        ({
            let (s2, ev) = vm_step(s);
            ev is Next ==> {
                &&& s2.running == s.running
                &&& s2.cap == s.cap
                &&& (s2.stack.len() == s.stack.len() || s2.stack.len() == s.stack.len() + 1
                    || s2.stack.len() + 1 == s.stack.len())
                &&& (s2.stack.len() == s.stack.len() ==> s2.stack == s.stack)
                &&& (s2.stack.len() == s.stack.len() + 1 ==> s2.stack == s.stack.push(
                    Slot::Return(next_pc(s)),
                ))
                &&& (s2.stack.len() + 1 == s.stack.len() ==> s.stack.last() == Slot::Return(s2.pc)
                    && s2.stack == s.stack.drop_last())
            }
        }),
{
    if fetch_ok(s) {
        let insn = cur_insn(s);
        match decode_s(insn) {
            Instr::Return => {
                if s.stack.len() > 0 {
                    assert(s.stack.drop_last().len() + 1 == s.stack.len());
                }
            },
            _ => {},
        }
    }
}

/// Entries below the new and old top survive a normally retiring step.
proof fn lemma_step_prefix(s: State, m: int)
    requires
        s.wf(),
        vm_step(s).1 is Next,
        0 <= m <= s.stack.len(),
        m <= vm_step(s).0.stack.len(),
    ensures
        vm_step(s).0.stack.take(m) =~= s.stack.take(m),
{
    lemma_step_frames(s);
    let s2 = vm_step(s).0;
    if s2.stack.len() == s.stack.len() + 1 {
        assert(s2.stack == s.stack.push(Slot::Return(next_pc(s))));
    } else if s2.stack.len() + 1 == s.stack.len() {
        assert(s2.stack == s.stack.drop_last());
    }
}

/// While an activation stays above its base depth, the return slot the
/// CALL pushed, and everything below it, stay in place.
proof fn lemma_activation_invariant(s: State, n: nat, k: nat)
    requires
        s.wf(),
        fetch_ok(s),
        decode_s(cur_insn(s)) is Call,
        steps_normal(s, n),
        forall|j: nat| 1 <= j < n ==> (#[trigger] trace(s, j)).depth() > s.depth(),
        1 <= k < n,
    ensures
        trace(s, k).wf(),
        trace(s, k).running == s.running,
        trace(s, k).depth() >= s.depth() + 1,
        trace(s, k).stack.take((s.depth() + 1) as int) =~= s.stack.push(
            Slot::Return(next_pc(s)),
        ),
    decreases k,
{
    let d = s.depth() as int;
    if k == 1 {
        assert(trace(s, 0) == s);
        assert(vm_step(trace(s, 0)).1 is Next);
        lemma_step_frames(s);
        lemma_vm_step_wf(s);
        lemma_call_pushes(s);
        let s1 = vm_step(s).0;
        assert(trace(s, 1) == s1);
        assert(s1.stack.take(d + 1) =~= s.stack.push(Slot::Return(next_pc(s))));
    } else {
        lemma_activation_invariant(s, n, (k - 1) as nat);
        let sp = trace(s, (k - 1) as nat);
        assert(vm_step(trace(s, (k - 1) as nat)).1 is Next);
        lemma_step_frames(sp);
        lemma_vm_step_wf(sp);
        let sk = vm_step(sp).0;
        assert(trace(s, k) == sk);
        assert(sk.depth() > s.depth());
        lemma_step_prefix(sp, d + 1);
        assert(sk.stack.take(d + 1) =~= sp.stack.take(d + 1));
    }
}

/// A virtual CALL that retires normally pushes exactly one slot.
proof fn lemma_call_pushes(s: State)
    requires
        s.wf(),
        fetch_ok(s),
        decode_s(cur_insn(s)) is Call,
        vm_step(s).1 is Next,
    ensures
        vm_step(s).0.stack == s.stack.push(Slot::Return(next_pc(s))),
        vm_step(s).0.stack.len() == s.stack.len() + 1,
{
}

/// RETURN/CALL balance: an activation entered by a CALL that neither
/// halts nor errors, and stays virtual throughout, hands control back to
/// the instruction after the CALL with the call stack exactly as deep as
/// it was before — indeed, with the very same entries.
///
/// `n` is the number of steps from the CALL up to and including the
/// matching RETURN: the depth stays above the caller's until that RETURN
/// brings it back.
pub proof fn lemma_call_return_balance(s: State, n: nat)
    requires
        s.wf(),
        fetch_ok(s),
        decode_s(cur_insn(s)) is Call,
        steps_normal(s, n),
        1 <= n,
        forall|j: nat| 1 <= j < n ==> (#[trigger] trace(s, j)).depth() > s.depth(),
        trace(s, n).depth() == s.depth(),
    ensures
        trace(s, n).stack =~= s.stack,
        trace(s, n).pc == next_pc(s),
        trace(s, n).running == s.running,
    decreases n,
{
    let d = s.depth() as int;
    if n == 1 {
        lemma_call_pushes(s);
        assert(trace(s, 1) == vm_step(s).0);
        assert(false);
    } else {
        lemma_activation_invariant(s, n, (n - 1) as nat);
        let sp = trace(s, (n - 1) as nat);
        assert(vm_step(trace(s, (n - 1) as nat)).1 is Next);
        lemma_step_frames(sp);
        let sn = vm_step(sp).0;
        assert(trace(s, n) == sn);
        assert(sn.stack.len() + 1 == sp.stack.len());
        assert(sp.stack.len() == d + 1);
        assert(sp.stack.take(d + 1) =~= sp.stack);
        assert(sp.stack =~= s.stack.push(Slot::Return(next_pc(s))));
        assert(sp.stack.last() == Slot::Return(next_pc(s)));
        assert(sn.stack == sp.stack.drop_last());
        assert(sn.stack =~= s.stack);
    }
}

/// Whether the next instruction is a memory access whose address comes
/// from register `r`, with the other operand register distinct (were they
/// the same, MEMSTORE would store the address itself, and the two runs
/// the wrap law compares would store different values).
pub open spec fn mem_op_addressed_by(i: Instr, r: u16) -> bool {
    match i {
        Instr::MemLoad { dst, src } => src == r && dst != r,
        Instr::MemStore { dst, src } => dst == r && src != r,
        _ => false,
    }
}

/// Memory wrap at the machine: a MEMLOAD or MEMSTORE whose address
/// register holds `A` steps exactly as one whose address register holds
/// `A mod 65536` — same memory, same loaded value, same program counter,
/// same event; the two machines go on differing only in the address
/// register itself, which the operation does not write.
pub proof fn lemma_step_mem_wrap(s: State, r: u16)
    requires
        s.wf(),
        fetch_ok(s),
        r < 8,
        mem_op_addressed_by(decode_s(cur_insn(s)), r),
    ensures
        ({
            let sm = State { regs: s.regs.update(r as int, s.regs[r as int] % 0x10000), ..s };
            let (t1, e1) = vm_step(s);
            let (t2, e2) = vm_step(sm);
            &&& e1 == e2
            &&& t1.mem == t2.mem
            &&& t1.pc == t2.pc
            &&& t1.stack == t2.stack
            &&& t1.output == t2.output
            &&& t1.running == t2.running
            &&& forall|k: int| 0 <= k < 8 && k != r ==> t1.regs[k] == t2.regs[k]
        }),
{
    let a = s.regs[r as int];
    let sm = State { regs: s.regs.update(r as int, a % 0x10000), ..s };
    assert(a & 0xffff == (a % 0x10000) & 0xffff) by (bit_vector);
    assert(fetch_ok(sm) && cur_insn(sm) == cur_insn(s));
    crate::isa::lemma_decode_wf(cur_insn(s));
    match decode_s(cur_insn(s)) {
        Instr::MemLoad { dst, src } => {
            assert(sm.regs[src as int] == a % 0x10000);
            assert(vm_step(s).0.regs[dst as int] == vm_step(sm).0.regs[dst as int]);
        },
        Instr::MemStore { dst, src } => {
            assert(sm.regs[src as int] == s.regs[src as int]);
            assert(sm.regs[dst as int] == a % 0x10000);
        },
        _ => {},
    }
}

/// Memory wrap: a load or store whose address register holds `a` touches
/// the same bytes as one whose register holds `a` reduced modulo 65536 —
/// the operation only ever sees the masked address.
pub proof fn lemma_mem_ops_wrap(m: Seq<u8>, a: u64, v: u64)
    ensures
        mem_read8_s(m, (a & 0xffff) as int) == mem_read8_s(m, ((a % 0x10000) & 0xffff) as int),
        mem_write8_s(m, (a & 0xffff) as int, v) == mem_write8_s(
            m,
            ((a % 0x10000) & 0xffff) as int,
            v,
        ),
{
    assert(a & 0xffff == (a % 0x10000) & 0xffff) by (bit_vector);
}

/// Sign extension: a 9-bit or 12-bit value with the top bit set extends
/// to a negative integer whose low bits give the value back; one with the
/// top bit clear extends to itself, at most `2^(bits-1) - 1`.
pub proof fn lemma_sign_extension(bits: nat, v: u16)
    requires
        bits == 9 || bits == 12,
        v < pow2(bits),
    ensures
        v >= pow2((bits - 1) as nat) ==> sign_ext_spec(bits, v) < 0,
        v >= pow2((bits - 1) as nat) ==> sign_ext_spec(bits, v) % (pow2(bits) as int) == v,
        v < pow2((bits - 1) as nat) ==> sign_ext_spec(bits, v) == v,
        v < pow2((bits - 1) as nat) ==> 0 <= sign_ext_spec(bits, v) <= pow2((bits - 1) as nat)
            - 1,
{
    lemma_pow2_small_values();
    if v >= pow2((bits - 1) as nat) {
        let p = pow2(bits) as int;
        assert((v - p) % p == (v as int) % p) by {
            vstd::arithmetic::div_mod::lemma_mod_sub_multiples_vanish(v as int, p);
        }
        assert((v as int) % p == v as int) by {
            vstd::arithmetic::div_mod::lemma_small_mod(v as nat, p as nat);
        }
    }
}

/// Halting: HALT clears the running flag wherever it executes, whatever
/// the call-stack depth; the interpreter loop then stops and control
/// returns to the Runner's caller.
pub proof fn lemma_halt_stops(s: State)
    requires
        fetch_ok(s),
        decode_s(cur_insn(s)) is Halt,
    ensures
        !vm_step(s).0.running,
        vm_step(s).1 == StepEvent::Halted,
        vm_step(s).0 == (State { running: false, ..s }),
{
}

} // verus!
