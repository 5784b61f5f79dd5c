//! Compile-time validation of a function's bytecode: the same two passes
//! the code emitter makes, with the errors each reports. The first pass
//! checks every encoding and every branch target; the second checks that
//! every callee exists. Only a function that passes both may be handed to
//! the native code emitter and marked native.

use vstd::prelude::*;
use crate::isa::{decode, decode_s, lemma_decode_wf, Instr};
use crate::state::{Address, Func, VmError};

verus! {

/// What the first pass finds at one position: an undecodable word, a
/// branch target outside the body, or a CALL with no following
/// instruction to bind the return label to.
pub open spec fn pass1_at(code: Seq<u16>, i: int) -> Option<VmError>
    recommends
        0 <= i < code.len(),
{
    let insn = code[i];
    match decode_s(insn) {
        Instr::InvalidSmall => Some(VmError::InvalidSmallInstruction(insn)),
        Instr::Invalid => Some(VmError::InvalidInstruction(insn)),
        Instr::Jump { off } => if 0 <= i + off < code.len() {
            None
        } else {
            Some(VmError::InvalidJump(insn))
        },
        Instr::Jumpz { cond, off } => if 0 <= i + off < code.len() {
            None
        } else {
            Some(VmError::InvalidJump(insn))
        },
        Instr::Jumpnz { cond, off } => if 0 <= i + off < code.len() {
            None
        } else {
            Some(VmError::InvalidJump(insn))
        },
        Instr::Call { index } => if i + 1 < code.len() {
            None
        } else {
            Some(VmError::InvalidCall(insn))
        },
        _ => None,
    }
}

/// The first error the first pass reports from position `i` on.
pub open spec fn first_pass1(code: Seq<u16>, i: nat) -> Option<VmError>
    decreases code.len() - i,
{
    if i >= code.len() {
        None
    } else if pass1_at(code, i as int) is Some {
        pass1_at(code, i as int)
    } else {
        first_pass1(code, i + 1)
    }
}

/// What the second pass finds at one position: a CALL whose index names no
/// function of a program with `n_funcs` functions.
pub open spec fn pass2_at(code: Seq<u16>, i: int, n_funcs: int) -> Option<VmError>
    recommends
        0 <= i < code.len(),
{
    let insn = code[i];
    match decode_s(insn) {
        Instr::Call { index } => if (index as int) < n_funcs {
            None
        } else {
            Some(VmError::InvalidFunction(insn))
        },
        _ => None,
    }
}

/// The first error the second pass reports from position `i` on.
pub open spec fn first_pass2(code: Seq<u16>, n_funcs: int, i: nat) -> Option<VmError>
    decreases code.len() - i,
{
    if i >= code.len() {
        None
    } else if pass2_at(code, i as int, n_funcs) is Some {
        pass2_at(code, i as int, n_funcs)
    } else {
        first_pass2(code, n_funcs, i + 1)
    }
}

/// What compiling a body against a program of `n_funcs` functions
/// reports: the first pass's first error, else the second pass's first
/// error, else nothing.
pub open spec fn compile_result(code: Seq<u16>, n_funcs: int) -> Option<VmError> {
    if first_pass1(code, 0) is Some {
        first_pass1(code, 0)
    } else {
        first_pass2(code, n_funcs, 0)
    }
}

/// A body both passes accept whole: every word decodes, every branch
/// lands inside the body, every CALL has a following instruction and an
/// existing callee.
pub open spec fn code_valid(code: Seq<u16>, n_funcs: int) -> bool {
    forall|i: int|
        0 <= i < code.len() ==> #[trigger] pass1_at(code, i) is None && pass2_at(
            code,
            i,
            n_funcs,
        ) is None
}

/// The first pass reports nothing from `i` on exactly when every later
/// position is clean.
proof fn lemma_first_pass1_none(code: Seq<u16>, i: nat)
    ensures
        first_pass1(code, i) is None <==> (forall|j: int|
            i <= j < code.len() ==> #[trigger] pass1_at(code, j) is None),
    decreases code.len() - i,
{
    if i < code.len() {
        lemma_first_pass1_none(code, i + 1);
    }
}

/// The second pass reports nothing from `i` on exactly when every later
/// position is clean.
proof fn lemma_first_pass2_none(code: Seq<u16>, n_funcs: int, i: nat)
    ensures
        first_pass2(code, n_funcs, i) is None <==> (forall|j: int|
            i <= j < code.len() ==> #[trigger] pass2_at(code, j, n_funcs) is None),
    decreases code.len() - i,
{
    if i < code.len() {
        lemma_first_pass2_none(code, n_funcs, i + 1);
    }
}

/// Compilation reports no error exactly on the valid bodies.
pub proof fn lemma_compile_result_none(code: Seq<u16>, n_funcs: int)
    ensures
        compile_result(code, n_funcs) is None <==> code_valid(code, n_funcs),
{
    lemma_first_pass1_none(code, 0);
    lemma_first_pass2_none(code, n_funcs, 0);
    assert(compile_result(code, n_funcs) is None <==> (first_pass1(code, 0) is None
        && first_pass2(code, n_funcs, 0) is None));
    if first_pass1(code, 0) is None && first_pass2(code, n_funcs, 0) is None {
        assert forall|i: int| 0 <= i < code.len() implies #[trigger] pass1_at(code, i) is None
            && pass2_at(code, i, n_funcs) is None by {
            assert(pass1_at(code, i) is None);
            assert(pass2_at(code, i, n_funcs) is None);
        }
    }
    if code_valid(code, n_funcs) {
        assert forall|j: int| 0 <= j < code.len() implies #[trigger] pass1_at(code, j) is None by {
            assert(pass1_at(code, j) is None && pass2_at(code, j, n_funcs) is None);
        }
        assert forall|j: int|
            0 <= j < code.len() implies #[trigger] pass2_at(code, j, n_funcs) is None by {
            assert(pass1_at(code, j) is None && pass2_at(code, j, n_funcs) is None);
        }
    }
}

impl Func {
    /// Creates a function over the given bytecode, in the virtual state:
    /// the interpreter runs its body; no native entry exists yet.
    pub fn new(code: Vec<u16>) -> (f: Func)
        ensures
            f.code@ == code@,
            f.addr == (Address { native: false, address: 0 }),
    {
        Func { code, addr: Address { native: false, address: 0 } }
    }

    /// Validates the bytecode of `funcs[index]` against the whole program,
    /// exactly as the native code emitter's two passes do, and marks the
    /// function native when both pass. `Ok` comes back precisely on a
    /// valid body; otherwise the error is the first one the passes meet,
    /// and nothing changes.
    #[verifier::loop_isolation(false)]
    pub fn compile(funcs: &mut Vec<Func>, index: usize) -> (r: Result<(), VmError>)
        requires
            index < old(funcs)@.len(),
        ensures
            final(funcs)@.len() == old(funcs)@.len(),
            forall|j: int|
                0 <= j < old(funcs)@.len() && j != index ==> final(funcs)@[j] == old(funcs)@[j],
            final(funcs)@[index as int].code == old(funcs)@[index as int].code,
            r is Ok <==> code_valid(
                old(funcs)@[index as int].code@,
                old(funcs)@.len() as int,
            ),
            r is Ok ==> final(funcs)@[index as int].addr == (Address {
                native: true,
                address: old(funcs)@[index as int].addr.address,
            }),
            r matches Err(e) ==> {
                &&& Some(e) == compile_result(
                    old(funcs)@[index as int].code@,
                    old(funcs)@.len() as int,
                )
                &&& final(funcs)@[index as int] == old(funcs)@[index as int]
            },
    {
        proof {
            lemma_compile_result_none(
                old(funcs)@[index as int].code@,
                old(funcs)@.len() as int,
            );
        }
        let n_funcs = funcs.len();
        let code = &funcs[index].code;
        let n = code.len();
        let mut i: usize = 0;
        while i < n
            invariant
                i <= n,
                first_pass1(code@, 0) == first_pass1(code@, i as nat),
            decreases n - i,
        {
            let insn = code[i];
            proof {
                lemma_decode_wf(insn);
            }
            match decode(insn) {
                Instr::InvalidSmall => {
                    return Err(VmError::InvalidSmallInstruction(insn));
                },
                Instr::Invalid => {
                    return Err(VmError::InvalidInstruction(insn));
                },
                Instr::Jump { off } => {
                    if !Self::target_in_range(i, off, n) {
                        return Err(VmError::InvalidJump(insn));
                    }
                },
                Instr::Jumpz { cond, off } => {
                    if !Self::target_in_range(i, off, n) {
                        return Err(VmError::InvalidJump(insn));
                    }
                },
                Instr::Jumpnz { cond, off } => {
                    if !Self::target_in_range(i, off, n) {
                        return Err(VmError::InvalidJump(insn));
                    }
                },
                Instr::Call { index: _ } => {
                    if !(i + 1 < n) {
                        return Err(VmError::InvalidCall(insn));
                    }
                },
                _ => {},
            }
            i = i + 1;
        }
        let mut i: usize = 0;
        while i < n
            invariant
                i <= n,
                first_pass1(code@, 0) is None,
                first_pass2(code@, n_funcs as int, 0) == first_pass2(
                    code@,
                    n_funcs as int,
                    i as nat,
                ),
            decreases n - i,
        {
            let insn = code[i];
            match decode(insn) {
                Instr::Call { index: callee } => {
                    if !((callee as usize) < n_funcs) {
                        return Err(VmError::InvalidFunction(insn));
                    }
                },
                _ => {},
            }
            i = i + 1;
        }
        let address = funcs[index].addr.address;
        funcs[index].addr = Address { native: true, address };
        Ok(())
    }

    /// Whether a branch at position `i` with offset `off` lands inside a
    /// body of `n` words.
    fn target_in_range(i: usize, off: i64, n: usize) -> (r: bool)
        requires
            -0x800 <= off < 0x800,
            i < n,
        ensures
            r == (0 <= i + off < n),
    {
        if off >= 0 {
            let k = off as usize;
            i <= usize::MAX - k && i + k < n
        } else {
            let k = (-off) as usize;
            i >= k
        }
    }
}

} // verus!
