//! Decoder, printer and simulator for a subset of the Intel 8086
//! instruction set: register/memory `mov`, the `add`/`sub`/`cmp` family
//! and the short conditional-jump/loop family.
//!
//! The library decodes a raw byte stream into instruction records, renders
//! them as a NASM-compatible listing whose re-assembly is byte-identical
//! to the input, and can simulate their execution against a model of the
//! 8086 programmer-visible state.

pub mod byte_operations;
pub mod common_assembly;
pub mod decode;
pub mod disassemble;
pub mod instruction;
pub mod simulate;
pub mod simulator_state;
pub mod text;

