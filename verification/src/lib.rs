//! A small register-based virtual machine with a verified interpreter.
//!
//! A program is a collection of functions whose bodies are arrays of 16-bit
//! instructions. Each function starts in a virtual state, in which the
//! interpreter executes its bytecode; `Func::compile` may upgrade it to a
//! native state, in which an embedding runtime executes machine code emitted
//! for it. The library holds everything the virtual side decides or computes:
//! the instruction codec, the interpreter with its fixed register file,
//! 64 KiB linear memory and bounded call stack, and the compile-time
//! validation of bytecode. Crossings into native code are reported to the
//! caller as explicit bridge events; running the native code itself is the
//! embedder's business.

pub mod compile;
pub mod isa;
pub mod laws;
pub mod mem;
pub mod opcodes;
pub mod run;
pub mod stack;
pub mod step;
pub mod state;
