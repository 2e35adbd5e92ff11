//! A compact binary encoding for the instructions of a register machine, and
//! the container format that bundles a string pool with an instruction stream.
//!
//! * [`operation`]: the operation code tables.
//! * [`instruction`]: the instruction model and its fixed-width record.
//! * [`text`]: appending to a string, and hexadecimal digits.
//! * [`wire`]: big-endian words on a byte buffer.
//! * [`program`]: the whole-program container format.
//! * [`program_lemmas`]: what holds between serializing and parsing.

pub mod operation;
pub mod instruction;
pub mod text;
pub mod wire;
pub mod program;
pub mod program_lemmas;

pub use crate::instruction::{
    decode_instruction, encode_instruction, Address, ByteCode, ByteCodeError, Bytes, Locator,
    Register,
};
pub use crate::operation::{
    BinaryOperation, BinaryOperationError, UnaryOperation, UnaryOperationError,
};
pub use crate::program::{parse_program, serialize_program, Program, ProgramParseError};
