//! The instruction word codec: one constant per opcode and one encoder per
//! instruction. Each encoder's contract says which instruction its word
//! decodes to, so a program built from them is well formed by construction.

use vstd::prelude::*;
use crate::isa::{decode_s, lemma_pow2_small_values, sign_ext_spec, Instr};

verus! {

pub const SMALLOP: u16 = 0x0000;

pub const NOOP: u16 = 0x0000;

pub const MOVE: u16 = 0x0100;

pub const MEMLOAD: u16 = 0x0200;

pub const MEMSTORE: u16 = 0x0300;

pub const RETURN: u16 = 0x0400;

pub const ADD: u16 = 0x0500;

pub const SUB: u16 = 0x0600;

pub const MUL: u16 = 0x0700;

pub const IMUL: u16 = 0x0800;

pub const DIV: u16 = 0x0900;

pub const IDIV: u16 = 0x0a00;

pub const REM: u16 = 0x0b00;

pub const IREM: u16 = 0x0c00;

pub const PRINT: u16 = 0x0d00;

pub const HALT: u16 = 0x0e00;

pub const LOAD: u16 = 0x1000;

pub const ILOAD: u16 = 0x2000;

pub const JUMP: u16 = 0xb000;

pub const JUMPZ: u16 = 0xc000;

pub const JUMPNZ: u16 = 0xd000;

pub const CALL: u16 = 0xe000;

/// A small-class word built from an opcode and two register fields carries
/// exactly those fields.
proof fn lemma_encode_rr(op: u16, dst: u16, src: u16)
    by (bit_vector)
    requires
        op & 0x0f00 == op,
    ensures
        (op | (dst & 7) | ((src & 7) << 3)) & 0xf000 == 0,
        (op | (dst & 7) | ((src & 7) << 3)) & 0x0f00 == op,
        (op | (dst & 7) | ((src & 7) << 3)) & 7 == dst & 7,
        ((op | (dst & 7) | ((src & 7) << 3)) & 0x38) >> 3 == src & 7,
{
}

/// A small-class word built from an opcode and one register field carries
/// exactly that field.
proof fn lemma_encode_r(op: u16, src: u16)
    by (bit_vector)
    requires
        op & 0x0f00 == op,
    ensures
        (op | (src & 7)) & 0xf000 == 0,
        (op | (src & 7)) & 0x0f00 == op,
        (op | (src & 7)) & 7 == src & 7,
{
}

/// Each small opcode constant sits in the subcode nibble alone, and each
/// wide opcode constant in the class nibble alone.
proof fn lemma_opcode_bits()
    by (bit_vector)
    ensures
        NOOP & 0xf000 == 0 && NOOP & 0x0f00 == NOOP,
        MOVE & 0x0f00 == MOVE,
        MEMLOAD & 0x0f00 == MEMLOAD,
        MEMSTORE & 0x0f00 == MEMSTORE,
        RETURN & 0xf000 == 0 && RETURN & 0x0f00 == RETURN,
        ADD & 0x0f00 == ADD,
        SUB & 0x0f00 == SUB,
        MUL & 0x0f00 == MUL,
        IMUL & 0x0f00 == IMUL,
        DIV & 0x0f00 == DIV,
        IDIV & 0x0f00 == IDIV,
        REM & 0x0f00 == REM,
        IREM & 0x0f00 == IREM,
        PRINT & 0x0f00 == PRINT,
        HALT & 0xf000 == 0 && HALT & 0x0f00 == HALT,
        LOAD & 0xf000 == LOAD,
        ILOAD & 0xf000 == ILOAD,
        JUMP & 0xf000 == JUMP,
        JUMPZ & 0xf000 == JUMPZ,
        JUMPNZ & 0xf000 == JUMPNZ,
        CALL & 0xf000 == CALL,
{
}

/// A wide-class word built from a class, a register field and a 9-bit
/// immediate carries exactly those fields.
proof fn lemma_encode_ri9(opc: u16, dst: u16, val: u16)
    by (bit_vector)
    requires
        opc & 0xf000 == opc,
    ensures
        (opc | (dst & 7) | ((val & 0x1ff) << 3)) & 0xf000 == opc,
        (opc | (dst & 7) | ((val & 0x1ff) << 3)) & 7 == dst & 7,
        ((opc | (dst & 7) | ((val & 0x1ff) << 3)) & 0xff8) >> 3 == val & 0x1ff,
{
}

/// A wide-class word built from a class and a 12-bit immediate carries
/// exactly that immediate.
proof fn lemma_encode_i12(opc: u16, val: u16)
    by (bit_vector)
    requires
        opc & 0xf000 == opc,
    ensures
        (opc | (val & 0xfff)) & 0xf000 == opc,
        (opc | (val & 0xfff)) & 0xfff == val & 0xfff,
{
}

/// A 9-bit immediate cut from a small signed value sign-extends back to it.
proof fn lemma_imm9_round_trip(value: i16)
    requires
        -0x100 <= value < 0x100,
    ensures
        sign_ext_spec(9, (value as u16) & 0x1ff) == value as int,
{
    lemma_pow2_small_values();
    let f = (value as u16) & 0x1ff;
    assert(f < 0x200 && (value >= 0 ==> f as int == value as int) && (value < 0 ==> f >= 0x100
        && f as int == value as int + 0x200)) by (bit_vector)
        requires
            -0x100 <= value < 0x100,
            f == (value as u16) & 0x1ff,
    ;
}

/// A 12-bit immediate cut from a small signed value sign-extends back to it.
proof fn lemma_imm12_round_trip(value: i16)
    requires
        -0x800 <= value < 0x800,
    ensures
        sign_ext_spec(12, (value as u16) & 0xfff) == value as int,
{
    lemma_pow2_small_values();
    let f = (value as u16) & 0xfff;
    assert(f < 0x1000 && (value >= 0 ==> f as int == value as int) && (value < 0 ==> f >= 0x800
        && f as int == value as int + 0x1000)) by (bit_vector)
        requires
            -0x800 <= value < 0x800,
            f == (value as u16) & 0xfff,
    ;
}

pub fn __noop() -> (r: u16)
    ensures
        r == (NOOP),
        decode_s(r) == Instr::Noop,
{
    proof {
        lemma_opcode_bits();
    }
    NOOP
}

pub fn __move(dst: u16, src: u16) -> (r: u16)
    ensures
        r == (MOVE | dst & 7 | (src & 7) << 3),
        decode_s(r) == (Instr::Move { dst: dst & 7, src: src & 7 }),
{
    proof {
        lemma_opcode_bits();
        lemma_encode_rr(MOVE, dst, src);
    }
    MOVE | dst & 7 | (src & 7) << 3
}

pub fn __memload(dst: u16, src: u16) -> (r: u16)
    ensures
        r == (MEMLOAD | dst & 7 | (src & 7) << 3),
        decode_s(r) == (Instr::MemLoad { dst: dst & 7, src: src & 7 }),
{
    proof {
        lemma_opcode_bits();
        lemma_encode_rr(MEMLOAD, dst, src);
    }
    MEMLOAD | dst & 7 | (src & 7) << 3
}

pub fn __memstore(dst: u16, src: u16) -> (r: u16)
    ensures
        r == (MEMSTORE | dst & 7 | (src & 7) << 3),
        decode_s(r) == (Instr::MemStore { dst: dst & 7, src: src & 7 }),
{
    proof {
        lemma_opcode_bits();
        lemma_encode_rr(MEMSTORE, dst, src);
    }
    MEMSTORE | dst & 7 | (src & 7) << 3
}

pub fn __return() -> (r: u16)
    ensures
        r == (RETURN),
        decode_s(r) == Instr::Return,
{
    proof {
        lemma_opcode_bits();
    }
    RETURN
}

pub fn __add(dst: u16, src: u16) -> (r: u16)
    ensures
        r == (ADD | dst & 7 | (src & 7) << 3),
        decode_s(r) == (Instr::Add { dst: dst & 7, src: src & 7 }),
{
    proof {
        lemma_opcode_bits();
        lemma_encode_rr(ADD, dst, src);
    }
    ADD | dst & 7 | (src & 7) << 3
}

pub fn __sub(dst: u16, src: u16) -> (r: u16)
    ensures
        r == (SUB | dst & 7 | (src & 7) << 3),
        decode_s(r) == (Instr::Sub { dst: dst & 7, src: src & 7 }),
{
    proof {
        lemma_opcode_bits();
        lemma_encode_rr(SUB, dst, src);
    }
    SUB | dst & 7 | (src & 7) << 3
}

pub fn __mul(dst: u16, src: u16) -> (r: u16)
    ensures
        r == (MUL | dst & 7 | (src & 7) << 3),
        decode_s(r) == (Instr::Mul { dst: dst & 7, src: src & 7 }),
{
    proof {
        lemma_opcode_bits();
        lemma_encode_rr(MUL, dst, src);
    }
    MUL | dst & 7 | (src & 7) << 3
}

pub fn __imul(dst: u16, src: u16) -> (r: u16)
    ensures
        r == (IMUL | dst & 7 | (src & 7) << 3),
        decode_s(r) == (Instr::Imul { dst: dst & 7, src: src & 7 }),
{
    proof {
        lemma_opcode_bits();
        lemma_encode_rr(IMUL, dst, src);
    }
    IMUL | dst & 7 | (src & 7) << 3
}

pub fn __div(dst: u16, src: u16) -> (r: u16)
    ensures
        r == (DIV | dst & 7 | (src & 7) << 3),
        decode_s(r) == (Instr::Div { dst: dst & 7, src: src & 7 }),
{
    proof {
        lemma_opcode_bits();
        lemma_encode_rr(DIV, dst, src);
    }
    DIV | dst & 7 | (src & 7) << 3
}

pub fn __idiv(dst: u16, src: u16) -> (r: u16)
    ensures
        r == (IDIV | dst & 7 | (src & 7) << 3),
        decode_s(r) == (Instr::Idiv { dst: dst & 7, src: src & 7 }),
{
    proof {
        lemma_opcode_bits();
        lemma_encode_rr(IDIV, dst, src);
    }
    IDIV | dst & 7 | (src & 7) << 3
}

pub fn __rem(dst: u16, src: u16) -> (r: u16)
    ensures
        r == (REM | dst & 7 | (src & 7) << 3),
        decode_s(r) == (Instr::Rem { dst: dst & 7, src: src & 7 }),
{
    proof {
        lemma_opcode_bits();
        lemma_encode_rr(REM, dst, src);
    }
    REM | dst & 7 | (src & 7) << 3
}

pub fn __irem(dst: u16, src: u16) -> (r: u16)
    ensures
        r == (IREM | dst & 7 | (src & 7) << 3),
        decode_s(r) == (Instr::Irem { dst: dst & 7, src: src & 7 }),
{
    proof {
        lemma_opcode_bits();
        lemma_encode_rr(IREM, dst, src);
    }
    IREM | dst & 7 | (src & 7) << 3
}

pub fn __print(src: u16) -> (r: u16)
    ensures
        r == (PRINT | src & 7),
        decode_s(r) == (Instr::Print { src: src & 7 }),
{
    proof {
        lemma_opcode_bits();
        lemma_encode_r(PRINT, src);
    }
    PRINT | src & 7
}

pub fn __halt() -> (r: u16)
    ensures
        r == (HALT),
        decode_s(r) == Instr::Halt,
{
    proof {
        lemma_opcode_bits();
    }
    HALT
}

pub fn __load(dst: u16, value: u16) -> (r: u16)
    ensures
        r == (LOAD | dst & 7 | (value & 0x1ff) << 3),
        decode_s(r) == (Instr::Load { dst: dst & 7, val: value & 0x1ff }),
{
    proof {
        lemma_opcode_bits();
        lemma_encode_ri9(LOAD, dst, value);
    }
    LOAD | dst & 7 | (value & 0x1ff) << 3
}

pub fn __iload(dst: u16, value: i16) -> (r: u16)
    requires
        -0x100 <= value < 0x100,
    ensures
        r == (ILOAD | dst & 7 | (value as u16 & 0x1ff) << 3),
        decode_s(r) == (Instr::Iload { dst: dst & 7, val: value as i64 }),
{
    proof {
        lemma_opcode_bits();
        lemma_encode_ri9(ILOAD, dst, value as u16);
        lemma_imm9_round_trip(value);
    }
    ILOAD | dst & 7 | (value as u16 & 0x1ff) << 3
}

pub fn __jump(offset: i16) -> (r: u16)
    requires
        -0x800 <= offset < 0x800,
    ensures
        r == (JUMP | offset as u16 & 0xfff),
        decode_s(r) == (Instr::Jump { off: offset as i64 }),
{
    proof {
        lemma_opcode_bits();
        lemma_encode_i12(JUMP, offset as u16);
        lemma_imm12_round_trip(offset);
    }
    JUMP | offset as u16 & 0xfff
}

pub fn __jumpz(dst: u16, value: i16) -> (r: u16)
    requires
        -0x100 <= value < 0x100,
    ensures
        r == (JUMPZ | dst & 7 | (value as u16 & 0x1ff) << 3),
        decode_s(r) == (Instr::Jumpz { cond: dst & 7, off: value as i64 }),
{
    proof {
        lemma_opcode_bits();
        lemma_encode_ri9(JUMPZ, dst, value as u16);
        lemma_imm9_round_trip(value);
    }
    JUMPZ | dst & 7 | (value as u16 & 0x1ff) << 3
}

pub fn __jumpnz(dst: u16, value: i16) -> (r: u16)
    requires
        -0x100 <= value < 0x100,
    ensures
        r == (JUMPNZ | dst & 7 | (value as u16 & 0x1ff) << 3),
        decode_s(r) == (Instr::Jumpnz { cond: dst & 7, off: value as i64 }),
{
    proof {
        lemma_opcode_bits();
        lemma_encode_ri9(JUMPNZ, dst, value as u16);
        lemma_imm9_round_trip(value);
    }
    JUMPNZ | dst & 7 | (value as u16 & 0x1ff) << 3
}

pub fn __call(index: u16) -> (r: u16)
    ensures
        r == (CALL | index & 0xfff),
        decode_s(r) == (Instr::Call { index: index & 0xfff }),
{
    proof {
        lemma_opcode_bits();
        lemma_encode_i12(CALL, index);
    }
    CALL | index & 0xfff
}

} // verus!
