//! The instruction codec: encoders, the decoder, and sign extension.

use regvm::isa::{decode, sign_extend, Instr};
use regvm::opcodes::{
    __add, __call, __div, __halt, __idiv, __iload, __imul, __irem, __jump, __jumpnz, __jumpz,
    __load, __memload, __memstore, __move, __mul, __noop, __print, __rem, __return, __sub,
};

#[test]
fn test_encoded_words() {
    assert_eq!(__noop(), 0x0000);
    assert_eq!(__move(1, 2), 0x0111);
    assert_eq!(__memload(3, 4), 0x0223);
    assert_eq!(__memstore(5, 6), 0x0335);
    assert_eq!(__return(), 0x0400);
    assert_eq!(__add(0, 1), 0x0508);
    assert_eq!(__sub(7, 7), 0x063f);
    assert_eq!(__print(2), 0x0d02);
    assert_eq!(__halt(), 0x0e00);
    assert_eq!(__load(1, 300), 0x1961);
    assert_eq!(__call(0xfff), 0xefff);
}

#[test]
fn test_register_fields_masked() {
    // Only the low three bits of a register operand reach the word.
    assert_eq!(__add(8, 9), __add(0, 1));
    assert_eq!(__move(15, 10), __move(7, 2));
}

#[test]
fn test_decode_round_trip() {
    assert_eq!(decode(__noop()), Instr::Noop);
    assert_eq!(decode(__move(1, 2)), Instr::Move { dst: 1, src: 2 });
    assert_eq!(decode(__memload(3, 4)), Instr::MemLoad { dst: 3, src: 4 });
    assert_eq!(decode(__memstore(5, 6)), Instr::MemStore { dst: 5, src: 6 });
    assert_eq!(decode(__return()), Instr::Return);
    assert_eq!(decode(__add(0, 1)), Instr::Add { dst: 0, src: 1 });
    assert_eq!(decode(__sub(1, 0)), Instr::Sub { dst: 1, src: 0 });
    assert_eq!(decode(__mul(2, 3)), Instr::Mul { dst: 2, src: 3 });
    assert_eq!(decode(__imul(4, 5)), Instr::Imul { dst: 4, src: 5 });
    assert_eq!(decode(__div(6, 7)), Instr::Div { dst: 6, src: 7 });
    assert_eq!(decode(__idiv(7, 6)), Instr::Idiv { dst: 7, src: 6 });
    assert_eq!(decode(__rem(5, 4)), Instr::Rem { dst: 5, src: 4 });
    assert_eq!(decode(__irem(3, 2)), Instr::Irem { dst: 3, src: 2 });
    assert_eq!(decode(__print(1)), Instr::Print { src: 1 });
    assert_eq!(decode(__halt()), Instr::Halt);
    assert_eq!(decode(__load(1, 300)), Instr::Load { dst: 1, val: 300 });
    assert_eq!(decode(__iload(2, -21)), Instr::Iload { dst: 2, val: -21 });
    assert_eq!(decode(__iload(2, 255)), Instr::Iload { dst: 2, val: 255 });
    assert_eq!(decode(__jump(-2)), Instr::Jump { off: -2 });
    assert_eq!(decode(__jump(2047)), Instr::Jump { off: 2047 });
    assert_eq!(decode(__jumpz(3, -100)), Instr::Jumpz { cond: 3, off: -100 });
    assert_eq!(decode(__jumpnz(4, 90)), Instr::Jumpnz { cond: 4, off: 90 });
    assert_eq!(decode(__call(17)), Instr::Call { index: 17 });
}

#[test]
fn test_decode_reserved_words() {
    assert_eq!(decode(0x0f00), Instr::InvalidSmall);
    assert_eq!(decode(0x0fff), Instr::InvalidSmall);
    assert_eq!(decode(0x3000), Instr::Invalid);
    assert_eq!(decode(0xa123), Instr::Invalid);
    assert_eq!(decode(0xf000), Instr::Invalid);
}

#[test]
fn test_sign_extend_nine_bits() {
    assert_eq!(sign_extend::<9>(0), 0);
    assert_eq!(sign_extend::<9>(255), 255);
    assert_eq!(sign_extend::<9>(256), -256);
    assert_eq!(sign_extend::<9>(0x1ff), -1);
    assert_eq!(sign_extend::<9>(491), -21);
}

#[test]
fn test_sign_extend_twelve_bits() {
    assert_eq!(sign_extend::<12>(0), 0);
    assert_eq!(sign_extend::<12>(2047), 2047);
    assert_eq!(sign_extend::<12>(2048), -2048);
    assert_eq!(sign_extend::<12>(0xfff), -1);
    assert_eq!(sign_extend::<12>(0xffe), -2);
}
