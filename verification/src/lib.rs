//! A small register-based virtual machine with an assembler, a 128-bit
//! fixed-width bytecode format, and a plugin-dispatch protocol.
//!
//! The crate covers the whole core pipeline: lexing assembly source into
//! tokens, parsing tokens into a logical program, encoding the program into a
//! linear memory image of 16-byte instruction slots, and running the image in
//! a machine context of sixteen general registers, a data stack and a call
//! stack.  Plugin loading and invocation is outside work; the decisions the
//! dispatch loop takes on a plugin's answer are functions of this crate.

pub mod compile;
pub mod instruction;
pub mod lexer;
pub mod machine_context;
pub mod memory;
pub mod numbers;
pub mod opcode;
pub mod operand;
pub mod parser;
pub mod register;
pub mod stack;
pub mod table;
pub mod text;
pub mod vm;
