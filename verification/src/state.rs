//! The machine's data: registers, program counter, call-stack slots,
//! linear memory, functions, and the abstract state that the contracts of
//! the interpreter speak of.

use vstd::prelude::*;
use crate::stack::Stack;

verus! {

/// Bytes the programs can address: addresses wrap by masking to 16 bits.
pub const MEM_SIZE: usize = 65536;

/// Bytes the memory actually holds: an 8-byte guard tail lets an unaligned
/// 8-byte access succeed at any 16-bit offset.
pub const MEM_BYTES: usize = 65544;

/// Entries the virtual call stack can hold.
pub const STACK_CAPACITY: usize = 4096;

/// A position in some function's bytecode: the function's index in the
/// program and the instruction offset within its body, in 16-bit words.
#[derive(Clone, Copy, PartialEq, Eq, Structural, Debug)]
pub struct Pc {
    pub func: usize,
    pub idx: usize,
}

/// One call-stack slot: either a virtual return address, or the sentinel
/// that marks a native caller, to be returned to through the bridge.
#[derive(Clone, Copy, PartialEq, Eq, Structural, Debug)]
pub enum Slot {
    Return(Pc),
    NativeCaller,
}

/// Where a function's entry lives: still in bytecode, or (after
/// compilation) in native code. `address` is meaningful to the embedding
/// runtime only; the interpreter reaches a virtual function by its index.
#[derive(Clone, Copy, PartialEq, Eq, Structural, Debug)]
pub struct Address {
    pub native: bool,
    pub address: usize,
}

/// The host's callee-saved register set and the top of its stack, recorded
/// when a run starts; the bridge's halt path restores it to unwind every
/// native frame at once. The interpreter itself never reads it.
#[derive(Clone, Copy, Debug)]
pub struct Snapshot {
    pub regs: [usize; 7],
    pub stack_top: [usize; 4],
}

impl Default for Snapshot {
    /// An empty record: all slots zero.
    fn default() -> (s: Self)
        ensures
            s.regs@ =~= Seq::new(7, |i: int| 0usize),
            s.stack_top@ =~= Seq::new(4, |i: int| 0usize),
    {
        Snapshot { regs: [0, 0, 0, 0, 0, 0, 0], stack_top: [0, 0, 0, 0] }
    }
}

/// What a failing instruction reports before the machine stops.
#[derive(Clone, Copy, PartialEq, Eq, Structural, Debug)]
pub enum VmError {
    /// A small-class word whose subcode names no instruction.
    InvalidSmallInstruction(u16),
    /// A word whose major class names no instruction.
    InvalidInstruction(u16),
    /// A CALL whose index names no function of the program.
    InvalidFunction(u16),
    /// A CALL for which the call stack has no room.
    CallstackOverflow(u16),
    /// A DIV, IDIV, REM or IREM whose divisor register holds zero.
    DivideByZero(u16),
    /// The program counter left the bytecode: a jump went below the start,
    /// or execution ran off the end of a function's body.
    PcOutOfRange,
    /// A jump whose target lies outside the function, found at compile
    /// time.
    InvalidJump(u16),
    /// A CALL with no following instruction to return to, found at compile
    /// time.
    InvalidCall(u16),
}

/// What one interpreter step did, beyond updating the state.
#[derive(Clone, Copy, PartialEq, Eq, Structural, Debug)]
pub enum StepEvent {
    /// An ordinary instruction retired; stepping can continue.
    Next,
    /// HALT ran: `running` is cleared.
    Halted,
    /// RETURN found the call stack empty: the program is done.
    Finished,
    /// CALL reached a native function: the callee's index is given, the
    /// return address and the sentinel are already pushed, and the bridge
    /// must now transfer control to the callee's native entry.
    CallNative(usize),
    /// RETURN popped the sentinel: the caller is native, and the bridge
    /// must unwind one native frame.
    ReturnNative,
    /// The instruction failed; `running` is cleared.
    Failed(VmError),
}

/// Why a run of the interpreter loop ended.
#[derive(Clone, Copy, PartialEq, Eq, Structural, Debug)]
pub enum RunOutcome {
    /// RETURN underflowed the call stack: the program completed.
    Finished,
    /// HALT ran, or the machine was not running to begin with.
    Halted,
    /// An instruction failed with this diagnostic.
    Failed(VmError),
    /// The interpreter handed control to the native entry of this function;
    /// the embedding runtime must bridge before stepping on.
    NativeCall(usize),
    /// The interpreter popped the native-caller sentinel; the embedding
    /// runtime must unwind one native frame before stepping on.
    NativeReturn,
    /// The step budget ran out with the machine still running.
    OutOfFuel,
}

/// A function of the program: its bytecode, and where its entry lives.
pub struct Func {
    pub code: Vec<u16>,
    pub addr: Address,
}

/// A function, abstractly: its code and whether it has gone native.
#[verifier::ext_equal]
pub struct FuncV {
    pub code: Seq<u16>,
    pub native: bool,
}

impl View for Func {
    type V = FuncV;

    open spec fn view(&self) -> FuncV {
        FuncV { code: self.code@, native: self.addr.native }
    }
}

/// The machine: eight registers, the program counter, the bounded call
/// stack, the linear memory, the program's functions, and the values PRINT
/// has emitted, oldest first.
pub struct Context {
    pub regs: [u64; 8],
    pub pc: Pc,
    pub callstack: Stack<Slot>,
    pub mem: Vec<u8>,
    pub funcs: Vec<Func>,
    pub output: Vec<i64>,
}

/// The whole machine at one instant, abstractly: what the interpreter's
/// contracts are stated over. `running` belongs to the Runner; everything
/// else is the Context's.
#[verifier::ext_equal]
pub struct State {
    pub regs: Seq<u64>,
    pub pc: Pc,
    pub stack: Seq<Slot>,
    pub cap: nat,
    pub mem: Seq<u8>,
    pub funcs: Seq<FuncV>,
    pub output: Seq<i64>,
    pub running: bool,
}

impl State {
    /// A state the interpreter can work on: the register file has its eight
    /// cells, the memory its guarded 64 KiB, the call stack is within its
    /// capacity.
    pub open spec fn wf(self) -> bool {
        &&& self.regs.len() == 8
        &&& self.mem.len() == MEM_BYTES
        &&& self.stack.len() <= self.cap
    }

    /// The call-stack depth.
    pub open spec fn depth(self) -> nat {
        self.stack.len()
    }
}

impl Context {
    /// The machine state this context and the given running flag make up.
    pub open spec fn abs(&self, running: bool) -> State {
        State {
            regs: self.regs@,
            pc: self.pc,
            stack: self.callstack@,
            cap: self.callstack.cap(),
            mem: self.mem@,
            funcs: self.funcs@.map_values(|f: Func| f@),
            output: self.output@,
            running,
        }
    }

    /// A context the interpreter can work on.
    pub open spec fn wf(&self) -> bool {
        &&& self.mem@.len() == MEM_BYTES
        &&& self.callstack@.len() <= self.callstack.cap()
    }
}

impl Default for Context {
    /// A fresh machine: registers and memory zeroed, the call stack empty
    /// with its fixed capacity, no functions, nothing printed, the program
    /// counter at the start of function 0.
    fn default() -> (c: Self)
        ensures
            c.wf(),
            c.regs@ =~= Seq::new(8, |i: int| 0u64),
            c.pc == (Pc { func: 0, idx: 0 }),
            c.callstack@ == Seq::<Slot>::empty(),
            c.callstack.cap() == STACK_CAPACITY,
            c.mem@ =~= Seq::new(MEM_BYTES as nat, |i: int| 0u8),
            c.funcs@ == Seq::<Func>::empty(),
            c.output@ == Seq::<i64>::empty(),
    {
        let mut mem: Vec<u8> = Vec::new();
        let mut i: usize = 0;
        while i < MEM_BYTES
            invariant
                i <= MEM_BYTES,
                mem@ =~= Seq::new(i as nat, |j: int| 0u8),
            decreases MEM_BYTES - i,
        {
            mem.push(0);
            i = i + 1;
        }
        Context {
            regs: [0, 0, 0, 0, 0, 0, 0, 0],
            pc: Pc { func: 0, idx: 0 },
            callstack: Stack::new(STACK_CAPACITY),
            mem,
            funcs: Vec::new(),
            output: Vec::new(),
        }
    }
}

/// Owns the snapshot record and the running flag; drives the interpreter.
pub struct Runner {
    pub snapshot: Snapshot,
    pub running: bool,
}

impl Default for Runner {
    /// A runner armed to run: `running` starts true, the snapshot empty
    /// with every slot zero.
    fn default() -> (r: Self)
        ensures
            r.running,
            r.snapshot.regs@ =~= Seq::new(7, |i: int| 0usize),
            r.snapshot.stack_top@ =~= Seq::new(4, |i: int| 0usize),
    {
        Runner { snapshot: Snapshot::default(), running: true }
    }
}

} // verus!
