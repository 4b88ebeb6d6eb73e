//! A small 16-bit stack machine and the assembler that produces its program
//! images.
//!
//! * [`register`] names the eight slots of the register file.
//! * [`op`] fixes the instruction set: mnemonics, opcode bytes and the packing
//!   of an instruction into a 16-bit word.
//! * [`memory`] is the byte-addressed storage the machine runs on.
//! * [`vm`] is the execution engine: decoding, push and pop, and the
//!   fetch-decode-execute step with its signal dispatch.
//! * [`stack`] states what runs of pushes and pops do.
//! * [`assembler`] turns mnemonic source lines into the packed words.
//! * [`text`] compares strings and writes numbers out for the machine's state
//!   report.

pub mod assembler;
pub mod memory;
pub mod op;
pub mod register;
pub mod stack;
pub mod text;
pub mod vm;
