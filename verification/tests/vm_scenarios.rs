//! End-to-end runs of the interpreter on small programs.

use regvm::opcodes::{
    __add, __call, __div, __halt, __idiv, __iload, __imul, __jumpnz, __load, __mul, __print,
    __return, __sub,
};
use regvm::state::{Context, Func, Pc, Runner, RunOutcome, VmError};

/// A program whose function 0 is `[CALL 1; RETURN]` and whose function 1
/// is the given body, ready to run from function 0.
fn harness(code: &[u16]) -> (Context, Runner) {
    let mut ctx = Context::default();
    let runner = Runner::default();
    let main = Func::new([__call(1), __return()].to_vec());
    let func = Func::new(code.to_vec());
    ctx.funcs.push(main);
    ctx.funcs.push(func);
    ctx.pc = Pc { func: 0, idx: 0 };
    (ctx, runner)
}

fn run(code: &[u16]) -> Context {
    let (mut ctx, mut runner) = harness(code);
    let outcome = runner.run(&mut ctx, 1_000_000);
    assert_eq!(outcome, RunOutcome::Finished);
    ctx
}

#[test]
fn test_addition() {
    let code = [__load(0, 3), __load(1, 5), __add(0, 1), __return()];
    let ctx = run(&code);
    assert_eq!(ctx.regs[0] as i64, 8);
}

#[test]
fn test_subtraction() {
    let code = [__load(0, 3), __load(1, 5), __sub(0, 1), __return()];
    let ctx = run(&code);
    assert_eq!(ctx.regs[0] as i64, -2);
}

#[test]
fn test_multiplication() {
    let code = [__load(0, 3), __load(1, 5), __mul(0, 1), __return()];
    let ctx = run(&code);
    assert_eq!(ctx.regs[0] as i64, 15);
}

#[test]
fn test_division() {
    let code = [__load(0, 15), __load(1, 5), __div(0, 1), __return()];
    let ctx = run(&code);
    assert_eq!(ctx.regs[0] as i64, 3);
}

#[test]
fn test_signed_division() {
    let code = [__iload(0, 15), __iload(1, -5), __idiv(0, 1), __return()];
    let ctx = run(&code);
    assert_eq!(ctx.regs[0] as i64, -3);
}

#[test]
fn test_print_through_call() {
    // [CALL 1; RETURN]  [ILOAD r0,-21; ILOAD r1,2; IMUL r0,r1; PRINT r0; RETURN]
    let code = [__iload(0, -21), __iload(1, 2), __imul(0, 1), __print(0), __return()];
    let ctx = run(&code);
    assert_eq!(ctx.output, vec![-42i64]);
    assert_eq!(ctx.regs[0] as i64, -42);
}

#[test]
fn test_countdown_loop() {
    // r0 = 100 * 100 * 100 - 1, then print and decrement until zero:
    // 999999, 999998, ..., 1, each printed once, in order.
    let code = [
        __load(0, 100),
        __mul(0, 0),
        __load(1, 100),
        __mul(0, 1),
        __load(1, 1),
        __sub(0, 1),
        __print(0),
        __jumpnz(0, -2),
        __return(),
    ];
    let (mut ctx, mut runner) = harness(&code);
    let outcome = runner.run(&mut ctx, 10_000_000);
    assert_eq!(outcome, RunOutcome::Finished);
    // The loop prints once per decrement, 999 999 down to 1 and the
    // final 0 on which JUMPNZ falls through: one million lines.
    assert_eq!(ctx.output.len(), 1_000_000);
    assert_eq!(ctx.output[0], 999_999);
    assert_eq!(ctx.output[1], 999_998);
    assert_eq!(ctx.output[999_998], 1);
    assert_eq!(ctx.output[999_999], 0);
    for (i, v) in ctx.output.iter().enumerate().take(100) {
        assert_eq!(*v, 999_999 - i as i64);
    }
}

#[test]
fn test_call_return_balance() {
    // The callee returns to the instruction after the CALL, and the call
    // stack comes back to its starting depth: empty once main returns.
    let code = [__load(1, 7), __return()];
    let (mut ctx, mut runner) = harness(&code);
    let outcome = runner.run(&mut ctx, 1_000);
    assert_eq!(outcome, RunOutcome::Finished);
    assert!(ctx.callstack.will_underflow());
    assert_eq!(ctx.regs[1], 7);
}

#[test]
fn test_nested_calls() {
    // Three activations deep: each callee's work lands, and each RETURN
    // resumes its caller right after the CALL.
    let mut ctx = Context::default();
    let mut runner = Runner::default();
    ctx.funcs.push(Func::new(vec![__call(1), __add(0, 2), __return()]));
    ctx.funcs.push(Func::new(vec![__call(2), __add(0, 1), __return()]));
    ctx.funcs.push(Func::new(vec![__load(0, 100), __return()]));
    ctx.regs[1] = 10;
    ctx.regs[2] = 1;
    ctx.pc = Pc { func: 0, idx: 0 };
    let outcome = runner.run(&mut ctx, 1_000);
    assert_eq!(outcome, RunOutcome::Finished);
    assert_eq!(ctx.regs[0], 111);
    assert!(ctx.callstack.will_underflow());
}

#[test]
fn test_halt_returns_to_caller() {
    // HALT inside a callee: the run ends with the running flag down even
    // though the call stack still holds the caller's frame.
    let code = [__halt()];
    let (mut ctx, mut runner) = harness(&code);
    let outcome = runner.run(&mut ctx, 1_000);
    assert_eq!(outcome, RunOutcome::Halted);
    assert!(!runner.running);
    assert!(!ctx.callstack.will_underflow());
}

#[test]
fn test_halt_at_top_level() {
    let mut ctx = Context::default();
    let mut runner = Runner::default();
    ctx.funcs.push(Func::new([__halt()].to_vec()));
    ctx.pc = Pc { func: 0, idx: 0 };
    let outcome = runner.run(&mut ctx, 1_000);
    assert_eq!(outcome, RunOutcome::Halted);
    assert!(!runner.running);
}

#[test]
fn test_invalid_small_instruction_stops() {
    let code = [0x0f00, __return()];
    let (mut ctx, mut runner) = harness(&code);
    let outcome = runner.run(&mut ctx, 1_000);
    assert_eq!(outcome, RunOutcome::Failed(VmError::InvalidSmallInstruction(0x0f00)));
    assert!(!runner.running);
}

#[test]
fn test_invalid_instruction_stops() {
    let code = [0xf001, __return()];
    let (mut ctx, mut runner) = harness(&code);
    let outcome = runner.run(&mut ctx, 1_000);
    assert_eq!(outcome, RunOutcome::Failed(VmError::InvalidInstruction(0xf001)));
}

#[test]
fn test_invalid_function_stops() {
    let code = [__call(7), __return()];
    let (mut ctx, mut runner) = harness(&code);
    let outcome = runner.run(&mut ctx, 1_000);
    assert_eq!(outcome, RunOutcome::Failed(VmError::InvalidFunction(__call(7))));
}

#[test]
fn test_callstack_overflow_stops() {
    // Function 0 calls itself without returning: the 4096-entry call
    // stack fills, and the CALL that finds no room fails.
    let mut ctx = Context::default();
    let mut runner = Runner::default();
    ctx.funcs.push(Func::new([__call(0), __return()].to_vec()));
    ctx.pc = Pc { func: 0, idx: 0 };
    let outcome = runner.run(&mut ctx, 100_000);
    assert_eq!(outcome, RunOutcome::Failed(VmError::CallstackOverflow(__call(0))));
}

#[test]
fn test_divide_by_zero_stops() {
    let code = [__load(0, 1), __load(1, 0), __div(0, 1), __return()];
    let (mut ctx, mut runner) = harness(&code);
    let outcome = runner.run(&mut ctx, 1_000);
    assert_eq!(outcome, RunOutcome::Failed(VmError::DivideByZero(__div(0, 1))));
}

#[test]
fn test_running_off_the_end_stops() {
    let mut ctx = Context::default();
    let mut runner = Runner::default();
    ctx.funcs.push(Func::new([__load(0, 1)].to_vec()));
    ctx.pc = Pc { func: 0, idx: 0 };
    let outcome = runner.run(&mut ctx, 1_000);
    assert_eq!(outcome, RunOutcome::Failed(VmError::PcOutOfRange));
}

#[test]
fn test_out_of_fuel_leaves_machine_running() {
    let code = [__load(0, 3), __load(1, 5), __add(0, 1), __return()];
    let (mut ctx, mut runner) = harness(&code);
    let outcome = runner.run(&mut ctx, 2);
    assert_eq!(outcome, RunOutcome::OutOfFuel);
    assert!(runner.running);
    let outcome = runner.run(&mut ctx, 1_000);
    assert_eq!(outcome, RunOutcome::Finished);
    assert_eq!(ctx.regs[0], 8);
}

#[test]
fn test_resume_after_native_return() {
    // After the bridge would have run the native callee, resuming pops
    // the sentinel and the return address and the interpreter finishes
    // the caller from the instruction after the CALL.
    let mut ctx = Context::default();
    let mut runner = Runner::default();
    ctx.funcs.push(Func::new(vec![__call(1), __load(3, 9), __return()]));
    ctx.funcs.push(Func::new(vec![__load(0, 3), __return()]));
    ctx.pc = Pc { func: 0, idx: 0 };
    Func::compile(&mut ctx.funcs, 1).unwrap();
    assert_eq!(runner.run(&mut ctx, 1_000), RunOutcome::NativeCall(1));
    assert!(ctx.resume_after_native(runner.running));
    assert_eq!(runner.run(&mut ctx, 1_000), RunOutcome::Finished);
    assert_eq!(ctx.regs[3], 9);
    assert!(ctx.callstack.will_underflow());
}

#[test]
fn test_resume_needs_the_sentinel() {
    let mut ctx = Context::default();
    assert!(!ctx.resume_after_native(true));
    ctx.funcs.push(Func::new(vec![__call(0), __return()]));
    ctx.pc = Pc { func: 0, idx: 0 };
    let mut runner = Runner::default();
    // One virtual CALL leaves a lone return address: no sentinel on top.
    assert_eq!(runner.run(&mut ctx, 1), RunOutcome::OutOfFuel);
    assert!(!ctx.resume_after_native(runner.running));
    assert!(!ctx.callstack.will_underflow());
}

#[test]
fn test_call_to_native_hands_over() {
    // Once function 1 is compiled, the interpreter pushes the return
    // address and the sentinel and asks the embedding runtime to bridge.
    let code = [__load(0, 3), __return()];
    let (mut ctx, mut runner) = harness(&code);
    Func::compile(&mut ctx.funcs, 1).unwrap();
    let outcome = runner.run(&mut ctx, 1_000);
    assert_eq!(outcome, RunOutcome::NativeCall(1));
    assert!(runner.running);
    assert!(!ctx.callstack.will_underflow());
}
