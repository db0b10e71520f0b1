//! A miniature assembly-language interpreter over eight named 8-bit registers.
//!
//! A textual program is tokenized and parsed one instruction at a time by a
//! pull-based scanner ([`parser::Parser`]), and each parsed instruction is
//! applied to a register bank ([`cpu::Cpu`]) with saturating 8-bit arithmetic
//! and bitwise operations. The bank renders to a canonical multi-line dump.

pub mod cpu;
pub mod parser;
pub mod register;
pub mod token;
