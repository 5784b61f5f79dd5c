//! The instruction set: decoded form of the 16-bit instruction word,
//! sign extension of immediates, and the decoder itself.

use vstd::prelude::*;
use vstd::arithmetic::power2::pow2;
use crate::opcodes::{
    ADD, CALL, DIV, HALT, IDIV, ILOAD, IMUL, IREM, JUMP, JUMPNZ, JUMPZ, LOAD, MEMLOAD, MEMSTORE,
    MOVE, MUL, NOOP, PRINT, REM, RETURN, SMALLOP, SUB,
};

verus! {

/// A 16-bit instruction word, decoded. Register fields are the low three
/// bits of their operand nibbles; immediates are already sign- or
/// zero-extended. The two invalid variants keep the small-opcode and the
/// major-opcode failure apart, as the diagnostics do.
#[allow(inconsistent_fields)]
#[derive(Clone, Copy, PartialEq, Eq, Structural, Debug)]
pub enum Instr {
    Noop,
    Move { dst: u16, src: u16 },
    MemLoad { dst: u16, src: u16 },
    MemStore { dst: u16, src: u16 },
    Return,
    Add { dst: u16, src: u16 },
    Sub { dst: u16, src: u16 },
    Mul { dst: u16, src: u16 },
    Imul { dst: u16, src: u16 },
    Div { dst: u16, src: u16 },
    Idiv { dst: u16, src: u16 },
    Rem { dst: u16, src: u16 },
    Irem { dst: u16, src: u16 },
    Print { src: u16 },
    Halt,
    Load { dst: u16, val: u16 },
    Iload { dst: u16, val: i64 },
    Jump { off: i64 },
    Jumpz { cond: u16, off: i64 },
    Jumpnz { cond: u16, off: i64 },
    Call { index: u16 },
    InvalidSmall,
    Invalid,
}

/// Sign extension of a `bits`-wide value, as an unbounded integer: a value
/// with the top bit clear is itself; one with the top bit set stands for
/// `v - 2^bits`.
pub open spec fn sign_ext_spec(bits: nat, v: u16) -> int
    recommends
        1 <= bits <= 16,
        v < pow2(bits),
{
    if v < pow2((bits - 1) as nat) {
        v as int
    } else {
        v - pow2(bits)
    }
}

/// Bounds of the sign-extended value: it fits in `bits` signed bits.
pub proof fn lemma_sign_ext_bounds(bits: nat, v: u16)
    requires
        1 <= bits <= 16,
        v < pow2(bits),
    ensures
        -pow2((bits - 1) as nat) <= sign_ext_spec(bits, v) < pow2((bits - 1) as nat),
{
    vstd::arithmetic::power2::lemma_pow2_unfold(bits);
}

/// The powers of two that the 9-bit and 12-bit immediates turn on.
pub proof fn lemma_pow2_small_values()
    ensures
        pow2(8) == 0x100,
        pow2(9) == 0x200,
        pow2(11) == 0x800,
        pow2(12) == 0x1000,
    {
    vstd::arithmetic::power2::lemma2_to64();
}

/// Extends a `BITS`-bit value to a signed 64-bit integer: the top bit of the
/// value decides whether the high bits are filled with ones or zeros. The
/// interpreter and the bytecode validator use it for the 9-bit and 12-bit
/// immediate fields.
pub fn sign_extend<const BITS: usize>(value: u16) -> (r: i64)
    requires
        (BITS == 9 && value < 0x200) || (BITS == 12 && value < 0x1000),
    ensures
        r as int == sign_ext_spec(BITS as nat, value),
        -2048 <= r <= 2047,
{
    proof {
        lemma_pow2_small_values();
    }
    let v: u64 = value as u64;
    if BITS == 9 {
        if (v >> 8) & 1 != 0 {
            let r: i64 = (v | 0xffff_ffff_ffff_fe00) as i64;
            proof {
                assert(v >= 0x100 && r == v as i64 - 0x200) by (bit_vector)
                    requires
                        v < 0x200,
                        (v >> 8) & 1 != 0,
                        r == (v | 0xffff_ffff_ffff_fe00u64) as i64,
                ;
            }
            r
        } else {
            proof {
                assert(v < 0x100) by (bit_vector)
                    requires
                        v < 0x200,
                        (v >> 8) & 1 == 0,
                ;
            }
            v as i64
        }
    } else {
        if (v >> 11) & 1 != 0 {
            let r: i64 = (v | 0xffff_ffff_ffff_f000) as i64;
            proof {
                assert(v >= 0x800 && r == v as i64 - 0x1000) by (bit_vector)
                    requires
                        v < 0x1000,
                        (v >> 11) & 1 != 0,
                        r == (v | 0xffff_ffff_ffff_f000u64) as i64,
                ;
            }
            r
        } else {
            proof {
                assert(v < 0x800) by (bit_vector)
                    requires
                        v < 0x1000,
                        (v >> 11) & 1 == 0,
                ;
            }
            v as i64
        }
    }
}

/// Bounds of the fields a word can carry: register fields fit in three
/// bits, the 9-bit immediate in nine, the 12-bit immediate in twelve.
pub proof fn lemma_field_bounds(insn: u16)
    by (bit_vector)
    ensures
        insn & 7 < 8,
        (insn & 0x38) >> 3 < 8,
        (insn & 0xff8) >> 3 < 0x200,
        insn & 0xfff < 0x1000,
{
}

/// What one instruction word means.
pub open spec fn decode_s(insn: u16) -> Instr {
    let opc = insn & 0xf000;
    let dst = insn & 7;
    let src = (insn & 0x38) >> 3;
    let imm9 = (insn & 0xff8) >> 3;
    let imm12 = insn & 0xfff;
    if opc == SMALLOP {
        let op = insn & 0x0f00;
        if op == NOOP {
            Instr::Noop
        } else if op == MOVE {
            Instr::Move { dst, src }
        } else if op == MEMLOAD {
            Instr::MemLoad { dst, src }
        } else if op == MEMSTORE {
            Instr::MemStore { dst, src }
        } else if op == RETURN {
            Instr::Return
        } else if op == ADD {
            Instr::Add { dst, src }
        } else if op == SUB {
            Instr::Sub { dst, src }
        } else if op == MUL {
            Instr::Mul { dst, src }
        } else if op == IMUL {
            Instr::Imul { dst, src }
        } else if op == DIV {
            Instr::Div { dst, src }
        } else if op == IDIV {
            Instr::Idiv { dst, src }
        } else if op == REM {
            Instr::Rem { dst, src }
        } else if op == IREM {
            Instr::Irem { dst, src }
        } else if op == PRINT {
            Instr::Print { src: dst }
        } else if op == HALT {
            Instr::Halt
        } else {
            Instr::InvalidSmall
        }
    } else if opc == LOAD {
        Instr::Load { dst, val: imm9 }
    } else if opc == ILOAD {
        Instr::Iload { dst, val: sign_ext_spec(9, imm9) as i64 }
    } else if opc == JUMP {
        Instr::Jump { off: sign_ext_spec(12, imm12) as i64 }
    } else if opc == JUMPZ {
        Instr::Jumpz { cond: dst, off: sign_ext_spec(9, imm9) as i64 }
    } else if opc == JUMPNZ {
        Instr::Jumpnz { cond: dst, off: sign_ext_spec(9, imm9) as i64 }
    } else if opc == CALL {
        Instr::Call { index: imm12 }
    } else {
        Instr::Invalid
    }
}

/// Decodes one instruction word.
pub fn decode(insn: u16) -> (r: Instr)
    ensures
        r == decode_s(insn),
{
    proof {
        lemma_field_bounds(insn);
        lemma_pow2_small_values();
    }
    let opc = insn & 0xf000;
    let dst = insn & 7;
    let src = (insn & 0x38) >> 3;
    if opc == SMALLOP {
        let op = insn & 0x0f00;
        if op == NOOP {
            Instr::Noop
        } else if op == MOVE {
            Instr::Move { dst, src }
        } else if op == MEMLOAD {
            Instr::MemLoad { dst, src }
        } else if op == MEMSTORE {
            Instr::MemStore { dst, src }
        } else if op == RETURN {
            Instr::Return
        } else if op == ADD {
            Instr::Add { dst, src }
        } else if op == SUB {
            Instr::Sub { dst, src }
        } else if op == MUL {
            Instr::Mul { dst, src }
        } else if op == IMUL {
            Instr::Imul { dst, src }
        } else if op == DIV {
            Instr::Div { dst, src }
        } else if op == IDIV {
            Instr::Idiv { dst, src }
        } else if op == REM {
            Instr::Rem { dst, src }
        } else if op == IREM {
            Instr::Irem { dst, src }
        } else if op == PRINT {
            Instr::Print { src: dst }
        } else if op == HALT {
            Instr::Halt
        } else {
            Instr::InvalidSmall
        }
    } else if opc == LOAD {
        Instr::Load { dst, val: (insn & 0xff8) >> 3 }
    } else if opc == ILOAD {
        Instr::Iload { dst, val: sign_extend::<9>((insn & 0xff8) >> 3) }
    } else if opc == JUMP {
        Instr::Jump { off: sign_extend::<12>(insn & 0xfff) }
    } else if opc == JUMPZ {
        Instr::Jumpz { cond: dst, off: sign_extend::<9>((insn & 0xff8) >> 3) }
    } else if opc == JUMPNZ {
        Instr::Jumpnz { cond: dst, off: sign_extend::<9>((insn & 0xff8) >> 3) }
    } else if opc == CALL {
        Instr::Call { index: insn & 0xfff }
    } else {
        Instr::Invalid
    }
}

/// Every decoded instruction is well formed: register fields address one of
/// the eight registers, immediates lie in the range their width allows.
pub open spec fn instr_wf(i: Instr) -> bool {
    match i {
        Instr::Noop => true,
        Instr::Move { dst, src } => dst < 8 && src < 8,
        Instr::MemLoad { dst, src } => dst < 8 && src < 8,
        Instr::MemStore { dst, src } => dst < 8 && src < 8,
        Instr::Return => true,
        Instr::Add { dst, src } => dst < 8 && src < 8,
        Instr::Sub { dst, src } => dst < 8 && src < 8,
        Instr::Mul { dst, src } => dst < 8 && src < 8,
        Instr::Imul { dst, src } => dst < 8 && src < 8,
        Instr::Div { dst, src } => dst < 8 && src < 8,
        Instr::Idiv { dst, src } => dst < 8 && src < 8,
        Instr::Rem { dst, src } => dst < 8 && src < 8,
        Instr::Irem { dst, src } => dst < 8 && src < 8,
        Instr::Print { src } => src < 8,
        Instr::Halt => true,
        Instr::Load { dst, val } => dst < 8 && val < 0x200,
        Instr::Iload { dst, val } => dst < 8 && -0x100 <= val < 0x100,
        Instr::Jump { off } => -0x800 <= off < 0x800,
        Instr::Jumpz { cond, off } => cond < 8 && -0x100 <= off < 0x100,
        Instr::Jumpnz { cond, off } => cond < 8 && -0x100 <= off < 0x100,
        Instr::Call { index } => index < 0x1000,
        Instr::InvalidSmall => true,
        Instr::Invalid => true,
    }
}

/// Decoding yields a well-formed instruction for every word.
pub proof fn lemma_decode_wf(insn: u16)
    ensures
        instr_wf(decode_s(insn)),
{
    lemma_field_bounds(insn);
    lemma_pow2_small_values();
    if insn & 0xf000 == ILOAD || insn & 0xf000 == JUMPZ || insn & 0xf000 == JUMPNZ {
        lemma_sign_ext_bounds(9, (insn & 0xff8) >> 3);
    }
    if insn & 0xf000 == JUMP {
        lemma_sign_ext_bounds(12, insn & 0xfff);
    }
}

} // verus!
