//! The machine's parts: the bounded stack, the linear memory, the
//! defaults, compile-time validation, and arithmetic edge cases.

use regvm::mem::{mem_read8, mem_write8};
use regvm::opcodes::{
    __add, __call, __idiv, __irem, __jump, __jumpz, __load, __memload, __memstore, __move, __mul,
    __rem, __return, __sub,
};
use regvm::stack::Stack;
use regvm::state::{Address, Context, Func, Pc, Runner, RunOutcome, Snapshot, VmError};

#[test]
fn test_stack_push_pop() {
    let mut s: Stack<u64> = Stack::new(3);
    assert!(s.will_underflow());
    assert!(!s.will_overflow());
    assert_eq!(s.remaining_capacity(), 3);
    s.push(10);
    s.push(20);
    assert!(!s.will_underflow());
    assert_eq!(s.remaining_capacity(), 1);
    s.push(30);
    assert!(s.will_overflow());
    assert_eq!(s.pop(), 30);
    assert_eq!(s.pop(), 20);
    assert_eq!(s.pop(), 10);
    assert!(s.will_underflow());
}

#[test]
fn test_stack_never_under_or_overflown() {
    let mut s: Stack<u64> = Stack::new(2);
    assert!(!s.is_underflown());
    assert!(!s.is_overflown());
    s.push(1);
    s.push(2);
    assert!(!s.is_underflown());
    assert!(!s.is_overflown());
}

#[test]
fn test_memory_little_endian() {
    let mut m: Vec<u8> = vec![0; 65544];
    mem_write8(&mut m, 5, 0x0102_0304_0506_0708);
    assert_eq!(m[5], 0x08);
    assert_eq!(m[6], 0x07);
    assert_eq!(m[12], 0x01);
    assert_eq!(mem_read8(&m, 5), 0x0102_0304_0506_0708);
    assert_eq!(mem_read8(&m, 6), 0x0001_0203_0405_0607);
}

#[test]
fn test_memory_wrap_scenario() {
    // A store through address 65536 + 40 and a load through address 40
    // touch the same bytes: addresses are masked to 16 bits.
    let code = [
        __load(0, 256),
        __load(1, 256),
        __mul(0, 1),    // r0 = 65536
        __load(1, 40),
        __add(0, 1),    // r0 = 65576
        __load(2, 123),
        __memstore(0, 2),
        __load(3, 40),
        __memload(4, 3),
        __return(),
    ];
    let mut ctx = Context::default();
    let mut runner = Runner::default();
    ctx.funcs.push(Func::new(code.to_vec()));
    ctx.pc = Pc { func: 0, idx: 0 };
    let outcome = runner.run(&mut ctx, 1_000);
    assert_eq!(outcome, RunOutcome::Finished);
    assert_eq!(ctx.regs[4], 123);
    assert_eq!(ctx.mem[40], 123);
}

#[test]
fn test_context_default() {
    let ctx = Context::default();
    assert_eq!(ctx.regs, [0u64; 8]);
    assert_eq!(ctx.pc, Pc { func: 0, idx: 0 });
    assert_eq!(ctx.mem.len(), 65544);
    assert!(ctx.mem.iter().all(|b| *b == 0));
    assert!(ctx.funcs.is_empty());
    assert!(ctx.output.is_empty());
    assert!(ctx.callstack.will_underflow());
}

#[test]
fn test_runner_default_is_armed() {
    let runner = Runner::default();
    assert!(runner.running);
    assert_eq!(runner.snapshot.regs, [0usize; 7]);
    assert_eq!(runner.snapshot.stack_top, [0usize; 4]);
    let _ = Snapshot::default();
}

#[test]
fn test_func_new_is_virtual() {
    let f = Func::new(vec![__return()]);
    assert_eq!(f.addr, Address { native: false, address: 0 });
    assert_eq!(f.code, vec![__return()]);
}

#[test]
fn test_compile_marks_native() {
    let mut funcs = vec![
        Func::new(vec![__call(1), __return()]),
        Func::new(vec![__load(0, 1), __return()]),
    ];
    assert_eq!(Func::compile(&mut funcs, 1), Ok(()));
    assert!(funcs[1].addr.native);
    assert!(!funcs[0].addr.native);
    assert_eq!(Func::compile(&mut funcs, 0), Ok(()));
    assert!(funcs[0].addr.native);
}

#[test]
fn test_compile_rejects_bad_jump() {
    let word = __jump(5);
    let mut funcs = vec![Func::new(vec![word, __return()])];
    assert_eq!(Func::compile(&mut funcs, 0), Err(VmError::InvalidJump(word)));
    assert!(!funcs[0].addr.native);
    let back = __jumpz(0, -3);
    let mut funcs = vec![Func::new(vec![__load(0, 1), back, __return()])];
    assert_eq!(Func::compile(&mut funcs, 0), Err(VmError::InvalidJump(back)));
}

#[test]
fn test_compile_accepts_jump_in_range() {
    let mut funcs = vec![Func::new(vec![__load(0, 1), __jumpz(0, 1), __return()])];
    assert_eq!(Func::compile(&mut funcs, 0), Ok(()));
}

#[test]
fn test_compile_rejects_trailing_call() {
    let word = __call(0);
    let mut funcs = vec![Func::new(vec![__return(), word])];
    assert_eq!(Func::compile(&mut funcs, 0), Err(VmError::InvalidCall(word)));
}

#[test]
fn test_compile_rejects_missing_callee() {
    let word = __call(3);
    let mut funcs = vec![Func::new(vec![word, __return()])];
    assert_eq!(Func::compile(&mut funcs, 0), Err(VmError::InvalidFunction(word)));
}

#[test]
fn test_compile_rejects_invalid_word() {
    let mut funcs = vec![Func::new(vec![0x0f00, __return()])];
    assert_eq!(
        Func::compile(&mut funcs, 0),
        Err(VmError::InvalidSmallInstruction(0x0f00))
    );
    let mut funcs = vec![Func::new(vec![0x4000, __return()])];
    assert_eq!(Func::compile(&mut funcs, 0), Err(VmError::InvalidInstruction(0x4000)));
}

#[test]
fn test_compile_reports_first_error() {
    // Pass one reports its first finding even when pass two would also
    // have one: the bad jump at position 0 wins over the missing callee.
    let bad_jump = __jump(-1);
    let bad_call = __call(9);
    let mut funcs = vec![Func::new(vec![bad_jump, bad_call, __return()])];
    assert_eq!(Func::compile(&mut funcs, 0), Err(VmError::InvalidJump(bad_jump)));
}

#[test]
fn test_wrapping_subtraction() {
    // 0 - 1 wraps to the all-ones word.
    let code = [__load(0, 0), __load(1, 1), __sub(0, 1), __return()];
    let mut ctx = Context::default();
    let mut runner = Runner::default();
    ctx.funcs.push(Func::new(code.to_vec()));
    ctx.pc = Pc { func: 0, idx: 0 };
    assert_eq!(runner.run(&mut ctx, 100), RunOutcome::Finished);
    assert_eq!(ctx.regs[0], u64::MAX);
}

#[test]
fn test_wrapping_multiplication() {
    // (2^64 - 1) * (2^64 - 1) wraps to 1.
    let code = [
        __load(0, 0),
        __load(1, 1),
        __sub(0, 1),     // r0 = u64::MAX
        __move(1, 0),
        __mul(0, 1),
        __return(),
    ];
    let mut ctx = Context::default();
    let mut runner = Runner::default();
    ctx.funcs.push(Func::new(code.to_vec()));
    ctx.pc = Pc { func: 0, idx: 0 };
    assert_eq!(runner.run(&mut ctx, 100), RunOutcome::Finished);
    assert_eq!(ctx.regs[0], 1);
}

#[test]
fn test_signed_division_wraps_on_min() {
    let code = [__idiv(0, 1), __return()];
    let mut ctx = Context::default();
    let mut runner = Runner::default();
    ctx.funcs.push(Func::new(code.to_vec()));
    ctx.pc = Pc { func: 0, idx: 0 };
    ctx.regs[0] = i64::MIN as u64;
    ctx.regs[1] = -1i64 as u64;
    assert_eq!(runner.run(&mut ctx, 100), RunOutcome::Finished);
    assert_eq!(ctx.regs[0] as i64, i64::MIN);
}

#[test]
fn test_signed_remainder_signs() {
    // Truncating remainder: the rest takes the dividend's sign.
    let code = [__irem(0, 1), __return()];
    let mut ctx = Context::default();
    let mut runner = Runner::default();
    ctx.funcs.push(Func::new(code.to_vec()));
    ctx.pc = Pc { func: 0, idx: 0 };
    ctx.regs[0] = (-7i64) as u64;
    ctx.regs[1] = 2u64;
    assert_eq!(runner.run(&mut ctx, 100), RunOutcome::Finished);
    assert_eq!(ctx.regs[0] as i64, -1);
}

#[test]
fn test_unsigned_remainder() {
    let code = [__load(0, 17), __load(1, 5), __rem(0, 1), __return()];
    let mut ctx = Context::default();
    let mut runner = Runner::default();
    ctx.funcs.push(Func::new(code.to_vec()));
    ctx.pc = Pc { func: 0, idx: 0 };
    assert_eq!(runner.run(&mut ctx, 100), RunOutcome::Finished);
    assert_eq!(ctx.regs[0], 2);
}

#[test]
fn test_jump_skips_forward() {
    // JUMP +2 skips one word; the skipped LOAD never runs.
    let code = [__jump(2), __load(0, 99), __load(1, 7), __return()];
    let mut ctx = Context::default();
    let mut runner = Runner::default();
    ctx.funcs.push(Func::new(code.to_vec()));
    ctx.pc = Pc { func: 0, idx: 0 };
    assert_eq!(runner.run(&mut ctx, 100), RunOutcome::Finished);
    assert_eq!(ctx.regs[0], 0);
    assert_eq!(ctx.regs[1], 7);
}

#[test]
fn test_jump_below_zero_stops() {
    let code = [__jump(-5), __return()];
    let mut ctx = Context::default();
    let mut runner = Runner::default();
    ctx.funcs.push(Func::new(code.to_vec()));
    ctx.pc = Pc { func: 0, idx: 0 };
    assert_eq!(runner.run(&mut ctx, 100), RunOutcome::Failed(VmError::PcOutOfRange));
}
