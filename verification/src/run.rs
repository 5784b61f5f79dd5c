//! The interpreter loop: step until the running flag clears, the bridge is
//! needed, or the step budget runs out.

use vstd::prelude::*;
use crate::isa::{decode_s, Instr};
use crate::state::{Context, Runner, RunOutcome, Slot, State, StepEvent};
use crate::step::{cur_insn, fetch_ok, lemma_vm_step_wf, vm_step};

verus! {

/// What running the machine for at most `fuel` steps does. Stepping
/// continues while the machine is running and each instruction retires
/// normally; halting, finishing, failing, either bridge event, or an
/// exhausted budget ends the run with the matching outcome.
pub open spec fn vm_run(s: State, fuel: nat) -> (State, RunOutcome)
    recommends
        s.wf(),
    decreases fuel,
{
    if !s.running {
        (s, RunOutcome::Halted)
    } else if fuel == 0 {
        (s, RunOutcome::OutOfFuel)
    } else {
        let (s2, ev) = vm_step(s);
        match ev {
            StepEvent::Next => vm_run(s2, (fuel - 1) as nat),
            StepEvent::Halted => (s2, RunOutcome::Halted),
            StepEvent::Finished => (s2, RunOutcome::Finished),
            StepEvent::CallNative(i) => (s2, RunOutcome::NativeCall(i)),
            StepEvent::ReturnNative => (s2, RunOutcome::NativeReturn),
            StepEvent::Failed(e) => (s2, RunOutcome::Failed(e)),
        }
    }
}

/// A run leaves a well-formed machine well formed.
pub proof fn lemma_vm_run_wf(s: State, fuel: nat)
    requires
        s.wf(),
    ensures
        vm_run(s, fuel).0.wf(),
    decreases fuel,
{
    if s.running && fuel > 0 {
        lemma_vm_step_wf(s);
        if vm_step(s).1 is Next {
            lemma_vm_run_wf(vm_step(s).0, (fuel - 1) as nat);
        }
    }
}

/// A run can only finish by a RETURN that finds the call stack empty: a
/// `Finished` outcome leaves the machine with no frame outstanding.
pub proof fn lemma_finished_empty_stack(s: State, fuel: nat)
    requires
        s.wf(),
    ensures
        vm_run(s, fuel).1 == RunOutcome::Finished ==> vm_run(s, fuel).0.depth() == 0,
    decreases fuel,
{
    if s.running && fuel > 0 {
        let (s2, ev) = vm_step(s);
        if ev is Next {
            lemma_vm_step_wf(s);
            lemma_finished_empty_stack(s2, (fuel - 1) as nat);
        } else if ev is Finished {
            if fetch_ok(s) {
                match decode_s(cur_insn(s)) {
                    Instr::Return => {},
                    _ => {},
                }
            }
        }
    }
}

/// What re-entering the interpreter after a native callee's return does:
/// when the top of the call stack is the native-caller sentinel over a
/// virtual return address — the pair a CALL to a native function pushed —
/// both are popped and the machine continues at that address; any other
/// shape leaves the machine untouched.
pub open spec fn resumed(s: State) -> (State, bool) {
    if s.stack.len() >= 2 && s.stack.last() == Slot::NativeCaller {
        match s.stack[s.stack.len() - 2] {
            Slot::Return(p) => (
                State { pc: p, stack: s.stack.drop_last().drop_last(), ..s },
                true,
            ),
            Slot::NativeCaller => (s, false),
        }
    } else {
        (s, false)
    }
}

impl Context {
    /// Re-enters the interpreter after a native callee invoked by CALL has
    /// returned and the bridge has unwound its frame: pops the sentinel
    /// and the return address beneath it and resumes there, exactly as
    /// `resumed` says. Reports whether the stack had that shape; if not,
    /// nothing changes.
    pub fn resume_after_native(&mut self, running: bool) -> (ok: bool)
        requires
            old(self).wf(),
        ensures
            final(self).abs(running) == resumed(old(self).abs(running)).0,
            ok == resumed(old(self).abs(running)).1,
            final(self).wf(),
    {
        let ghost s0 = self.abs(running);
        if self.callstack.will_underflow() {
            return false;
        }
        let top = self.callstack.pop();
        match top {
            Slot::NativeCaller => {
                if self.callstack.will_underflow() {
                    self.callstack.push(top);
                    proof {
                        assert(self.abs(running) =~~= s0);
                    }
                    return false;
                }
                let second = self.callstack.pop();
                match second {
                    Slot::Return(p) => {
                        self.pc = p;
                        proof {
                            assert(self.abs(running) =~~= resumed(s0).0);
                        }
                        true
                    },
                    Slot::NativeCaller => {
                        self.callstack.push(second);
                        self.callstack.push(top);
                        proof {
                            assert(self.abs(running) =~~= s0);
                        }
                        false
                    },
                }
            },
            Slot::Return(_) => {
                self.callstack.push(top);
                proof {
                    assert(self.abs(running) =~~= s0);
                }
                false
            },
        }
    }
}

impl Runner {
    /// Runs the interpreter on `ctx` until the machine stops, the bridge
    /// is needed, or `fuel` instructions have retired: exactly what
    /// `vm_run` says. When the outcome is `Halted`, `Finished` or
    /// `Failed`, the running flag is down (HALT from any depth hands
    /// control back to this function's caller); on a bridge outcome it is
    /// still up and the embedding runtime takes over.
    #[verifier::loop_isolation(false)]
    pub fn run(&mut self, ctx: &mut Context, fuel: u64) -> (outcome: RunOutcome)
        requires
            old(ctx).wf(),
        ensures
            final(ctx).abs(final(self).running) == vm_run(
                old(ctx).abs(old(self).running),
                fuel as nat,
            ).0,
            outcome == vm_run(old(ctx).abs(old(self).running), fuel as nat).1,
            final(ctx).wf(),
            matches!(outcome, RunOutcome::Halted | RunOutcome::Finished | RunOutcome::Failed(_))
                ==> !final(self).running,
    {
        let ghost s_init = old(ctx).abs(old(self).running);
        let ghost fuel_init = fuel as nat;
        let mut left: u64 = fuel;
        loop
            invariant
                ctx.wf(),
                vm_run(ctx.abs(self.running), left as nat) == vm_run(s_init, fuel_init),
            decreases left,
        {
            if !self.running {
                return RunOutcome::Halted;
            }
            if left == 0 {
                return RunOutcome::OutOfFuel;
            }
            let ghost s_here = ctx.abs(self.running);
            proof {
                lemma_vm_step_wf(s_here);
            }
            let ev = ctx.step(self);
            left = left - 1;
            match ev {
                StepEvent::Next => {},
                StepEvent::Halted => {
                    return RunOutcome::Halted;
                },
                StepEvent::Finished => {
                    return RunOutcome::Finished;
                },
                StepEvent::CallNative(i) => {
                    return RunOutcome::NativeCall(i);
                },
                StepEvent::ReturnNative => {
                    return RunOutcome::NativeReturn;
                },
                StepEvent::Failed(e) => {
                    return RunOutcome::Failed(e);
                },
            }
        }
    }
}

} // verus!
