//! The instruction model and its fixed-width record: one opcode byte and three
//! 32-bit words.

use vstd::prelude::*;
use crate::operation::{BinaryOperation, UnaryOperation};
use crate::text::{hex_pair, push_hex_pair};

verus! {

/// An index into the register file.
pub type Register = u32;

/// An offset into the instruction stream.
pub type Address = u32;

/// The record of one instruction: the opcode and three operand words.
pub type Bytes = (u8, u32, u32, u32);

/// The target of a jump or a call: a literal address, or a register that
/// holds the address at run time.
#[derive(Debug, Clone, Copy, PartialEq, Eq, Structural)]
pub enum Locator {
    Address(Address),
    FromRegister(Register),
}

/// One instruction of the machine.
///
/// `Float` carries its number as the 64 bits of the IEEE-754 pattern, so that
/// the codec moves it bit for bit.
#[allow(inconsistent_fields)]
#[derive(Debug, Clone, Copy, PartialEq, Eq, Structural)]
pub enum ByteCode {
    Nop,
    Halt,
    Jump { addr: Locator },
    JumpIf { cond: Register, addr: Locator },
    String { dst: Register, addr: u32 },
    Int { dst: Register, value: u64 },
    Float { dst: Register, value: u64 },
    Bool { dst: Register, value: bool },
    Move { dst: Register, src: Register },
    Field { dst: Register, src: Register, field: u32 },
    Call { addr: Locator, args: u32, dst: Register },
    Binary { op: BinaryOperation, dst: Register, left: Register, right: Register },
    Unary { op: UnaryOperation, dst: Register, right: Register },
}

/// Why a record names no instruction.
#[derive(Debug, Clone, PartialEq, Eq, Structural)]
pub enum ByteCodeError {
    /// The opcode is neither a listed one nor in an operation range.
    InvalidOperation,
    /// The opcode is in `0x30..=0x3f`; the payload is the opcode less `0x20`.
    InvalidBinaryOperation(u8),
    /// The opcode is in `0x40..=0x4f`; the payload is the opcode less `0x30`.
    InvalidUnaryOperation(u8),
}

impl ByteCodeError {
    /// The message of an error. The payload of a range's error stands in
    /// hexadecimal behind the base that the message names.
    pub open spec fn spec_message(self) -> Seq<char> {
        match self {
            ByteCodeError::InvalidOperation => "invalid operation"@,
            ByteCodeError::InvalidBinaryOperation(op) => "invalid binary operation 0x20 + 0x"@
                + hex_pair(op),
            ByteCodeError::InvalidUnaryOperation(op) => "invalid unary operation 0x30 + 0x"@
                + hex_pair(op),
        }
    }

    /// The message of this error.
    pub fn message(&self) -> (text: String)
        ensures
            text@ == self.spec_message(),
    {
        match self {
            ByteCodeError::InvalidOperation => "invalid operation".to_owned(),
            ByteCodeError::InvalidBinaryOperation(op) => {
                let mut text = "invalid binary operation 0x20 + 0x".to_owned();
                push_hex_pair(&mut text, *op);
                text
            },
            ByteCodeError::InvalidUnaryOperation(op) => {
                let mut text = "invalid unary operation 0x30 + 0x".to_owned();
                push_hex_pair(&mut text, *op);
                text
            },
        }
    }
}

impl Locator {
    /// The 32-bit value inside, whichever the variant.
    pub open spec fn spec_value(self) -> u32 {
        match self {
            Locator::Address(addr) => addr,
            Locator::FromRegister(addr) => addr,
        }
    }

    /// The 32-bit value inside; the tag is dropped.
    pub fn value(self) -> (value: u32)
        ensures
            value == self.spec_value(),
    {
        match self {
            Locator::Address(addr) => addr,
            Locator::FromRegister(addr) => addr,
        }
    }
}

/// The low-order 32 bits of a 64-bit value.
pub open spec fn low_word(value: u64) -> u32 {
    (value % 0x1_0000_0000) as u32
}

/// The high-order 32 bits of a 64-bit value.
pub open spec fn high_word(value: u64) -> u32 {
    (value / 0x1_0000_0000) as u32
}

/// The 64-bit value with the given low-order and high-order words.
pub open spec fn join_words(low: u32, high: u32) -> u64 {
    (low + high * 0x1_0000_0000) as u64
}

/// The word that stands for a truth value: 1 for true, 0 for false.
pub open spec fn bool_word(value: bool) -> u32 {
    if value {
        1
    } else {
        0
    }
}

/// The record of an instruction.
pub open spec fn encode_spec(instr: ByteCode) -> Bytes {
    match instr {
        ByteCode::Nop => (0x00u8, 0u32, 0u32, 0u32),
        ByteCode::Halt => (0x01u8, 0u32, 0u32, 0u32),
        ByteCode::Jump { addr: Locator::Address(addr) } => (0x02u8, 0u32, addr, 0u32),
        ByteCode::Jump { addr: Locator::FromRegister(addr) } => (0x03u8, 0u32, addr, 0u32),
        ByteCode::JumpIf { cond, addr: Locator::Address(addr) } => (0x04u8, cond, addr, 0u32),
        ByteCode::JumpIf { cond, addr: Locator::FromRegister(addr) } => (0x05u8, cond, addr, 0u32),
        ByteCode::String { dst, addr } => (0x10u8, dst, addr, 0u32),
        ByteCode::Int { dst, value } => (0x11u8, dst, low_word(value), high_word(value)),
        ByteCode::Float { dst, value } => (0x12u8, dst, low_word(value), high_word(value)),
        ByteCode::Bool { dst, value } => (0x13u8, dst, bool_word(value), 0u32),
        ByteCode::Move { dst, src } => (0x20u8, dst, src, 0u32),
        ByteCode::Field { dst, src, field } => (0x21u8, dst, src, field),
        ByteCode::Call { addr: Locator::Address(addr), args, dst } => (0x22u8, addr, args, dst),
        ByteCode::Call { addr: Locator::FromRegister(addr), args, dst } => (
            0x23u8,
            addr,
            args,
            dst,
        ),
        ByteCode::Binary { op, dst, left, right } => (
            (0x30 + op.spec_code()) as u8,
            dst,
            left,
            right,
        ),
        ByteCode::Unary { op, dst, right } => ((0x40 + op.spec_code()) as u8, dst, right, 0u32),
    }
}

/// What a record decodes to.
///
/// In the two operation ranges the operation code is the opcode less `0x20`,
/// looked up in the range's table.
pub open spec fn decode_spec(record: Bytes) -> Result<ByteCode, ByteCodeError> {
    let (opcode, w1, w2, w3) = record;
    if opcode == 0x00 {
        Ok(ByteCode::Nop)
    } else if opcode == 0x01 {
        Ok(ByteCode::Halt)
    } else if opcode == 0x02 {
        Ok(ByteCode::Jump { addr: Locator::Address(w2) })
    } else if opcode == 0x03 {
        Ok(ByteCode::Jump { addr: Locator::FromRegister(w2) })
    } else if opcode == 0x04 {
        Ok(ByteCode::JumpIf { cond: w1, addr: Locator::Address(w2) })
    } else if opcode == 0x05 {
        Ok(ByteCode::JumpIf { cond: w1, addr: Locator::FromRegister(w2) })
    } else if opcode == 0x10 {
        Ok(ByteCode::String { dst: w1, addr: w2 })
    } else if opcode == 0x11 {
        Ok(ByteCode::Int { dst: w1, value: join_words(w2, w3) })
    } else if opcode == 0x12 {
        Ok(ByteCode::Float { dst: w1, value: join_words(w2, w3) })
    } else if opcode == 0x13 {
        Ok(ByteCode::Bool { dst: w1, value: w2 != 0 })
    } else if opcode == 0x20 {
        Ok(ByteCode::Move { dst: w1, src: w2 })
    } else if opcode == 0x21 {
        Ok(ByteCode::Field { dst: w1, src: w2, field: w3 })
    } else if opcode == 0x22 {
        Ok(ByteCode::Call { addr: Locator::Address(w1), args: w2, dst: w3 })
    } else if opcode == 0x23 {
        Ok(ByteCode::Call { addr: Locator::FromRegister(w1), args: w2, dst: w3 })
    } else if 0x30 <= opcode <= 0x3f {
        match BinaryOperation::spec_from_code((opcode - 0x20) as u8) {
            Some(op) => Ok(ByteCode::Binary { op, dst: w1, left: w2, right: w3 }),
            None => Err(ByteCodeError::InvalidBinaryOperation((opcode - 0x20) as u8)),
        }
    } else if 0x40 <= opcode <= 0x4f {
        match UnaryOperation::spec_from_code((opcode - 0x20) as u8) {
            Some(op) => Ok(ByteCode::Unary { op, dst: w1, right: w2 }),
            None => Err(ByteCodeError::InvalidUnaryOperation((opcode - 0x30) as u8)),
        }
    } else {
        Err(ByteCodeError::InvalidOperation)
    }
}

/// Encodes an instruction as its record. Every instruction has one.
pub fn encode_instruction(instr: ByteCode) -> (record: Bytes)
    ensures
        record == encode_spec(instr),
{
    match instr {
        ByteCode::Nop => (0x00, 0, 0, 0),
        ByteCode::Halt => (0x01, 0, 0, 0),
        ByteCode::Jump { addr } => match addr {
            Locator::Address(addr) => (0x02, 0, addr, 0),
            Locator::FromRegister(addr) => (0x03, 0, addr, 0),
        },
        ByteCode::JumpIf { cond, addr } => match addr {
            Locator::Address(addr) => (0x04, cond, addr, 0),
            Locator::FromRegister(addr) => (0x05, cond, addr, 0),
        },
        ByteCode::String { dst, addr } => (0x10, dst, addr, 0),
        ByteCode::Int { dst, value } => (
            0x11,
            dst,
            (value % 0x1_0000_0000) as u32,
            (value / 0x1_0000_0000) as u32,
        ),
        ByteCode::Float { dst, value } => (
            0x12,
            dst,
            (value % 0x1_0000_0000) as u32,
            (value / 0x1_0000_0000) as u32,
        ),
        ByteCode::Bool { dst, value } => (0x13, dst, if value { 1 } else { 0 }, 0),
        ByteCode::Move { dst, src } => (0x20, dst, src, 0),
        ByteCode::Field { dst, src, field } => (0x21, dst, src, field),
        ByteCode::Call { addr, args, dst } => match addr {
            Locator::Address(addr) => (0x22, addr, args, dst),
            Locator::FromRegister(addr) => (0x23, addr, args, dst),
        },
        ByteCode::Binary { op, dst, left, right } => (0x30 + op.code(), dst, left, right),
        ByteCode::Unary { op, dst, right } => (0x40 + op.code(), dst, right, 0),
    }
}

/// Decodes a record. It fails on an opcode that is not listed, and on one of
/// an operation range whose operation code names no operation.
pub fn decode_instruction(record: Bytes) -> (res: Result<ByteCode, ByteCodeError>)
    ensures
        res == decode_spec(record),
{
    let (opcode, w1, w2, w3) = record;
    if opcode == 0x00 {
        Ok(ByteCode::Nop)
    } else if opcode == 0x01 {
        Ok(ByteCode::Halt)
    } else if opcode == 0x02 {
        Ok(ByteCode::Jump { addr: Locator::Address(w2) })
    } else if opcode == 0x03 {
        Ok(ByteCode::Jump { addr: Locator::FromRegister(w2) })
    } else if opcode == 0x04 {
        Ok(ByteCode::JumpIf { cond: w1, addr: Locator::Address(w2) })
    } else if opcode == 0x05 {
        Ok(ByteCode::JumpIf { cond: w1, addr: Locator::FromRegister(w2) })
    } else if opcode == 0x10 {
        Ok(ByteCode::String { dst: w1, addr: w2 })
    } else if opcode == 0x11 {
        Ok(ByteCode::Int { dst: w1, value: w2 as u64 + w3 as u64 * 0x1_0000_0000 })
    } else if opcode == 0x12 {
        Ok(ByteCode::Float { dst: w1, value: w2 as u64 + w3 as u64 * 0x1_0000_0000 })
    } else if opcode == 0x13 {
        Ok(ByteCode::Bool { dst: w1, value: w2 != 0 })
    } else if opcode == 0x20 {
        Ok(ByteCode::Move { dst: w1, src: w2 })
    } else if opcode == 0x21 {
        Ok(ByteCode::Field { dst: w1, src: w2, field: w3 })
    } else if opcode == 0x22 {
        Ok(ByteCode::Call { addr: Locator::Address(w1), args: w2, dst: w3 })
    } else if opcode == 0x23 {
        Ok(ByteCode::Call { addr: Locator::FromRegister(w1), args: w2, dst: w3 })
    } else if 0x30 <= opcode && opcode <= 0x3f {
        let code: u8 = opcode - 0x20;
        match BinaryOperation::try_from_code(code) {
            Ok(op) => Ok(ByteCode::Binary { op, dst: w1, left: w2, right: w3 }),
            Err(_) => Err(ByteCodeError::InvalidBinaryOperation(code)),
        }
    } else if 0x40 <= opcode && opcode <= 0x4f {
        match UnaryOperation::try_from_code(opcode - 0x20) {
            Ok(op) => Ok(ByteCode::Unary { op, dst: w1, right: w2 }),
            Err(_) => Err(ByteCodeError::InvalidUnaryOperation(opcode - 0x30)),
        }
    } else {
        Err(ByteCodeError::InvalidOperation)
    }
}

impl From<Locator> for u32 {
    fn from(locator: Locator) -> (value: u32) {
        locator.value()
    }
}

impl vstd::std_specs::convert::FromSpecImpl<Locator> for u32 {
    open spec fn obeys_from_spec() -> bool {
        true
    }

    open spec fn from_spec(locator: Locator) -> u32 {
        locator.spec_value()
    }
}

impl From<ByteCode> for Bytes {
    fn from(instr: ByteCode) -> (record: Bytes) {
        encode_instruction(instr)
    }
}

impl vstd::std_specs::convert::FromSpecImpl<ByteCode> for Bytes {
    open spec fn obeys_from_spec() -> bool {
        true
    }

    open spec fn from_spec(instr: ByteCode) -> Bytes {
        encode_spec(instr)
    }
}

impl TryFrom<Bytes> for ByteCode {
    type Error = ByteCodeError;

    fn try_from(record: Bytes) -> (res: Result<Self, Self::Error>) {
        decode_instruction(record)
    }
}

impl vstd::std_specs::convert::TryFromSpecImpl<Bytes> for ByteCode {
    open spec fn obeys_try_from_spec() -> bool {
        true
    }

    open spec fn try_from_spec(record: Bytes) -> Result<Self, Self::Error> {
        decode_spec(record)
    }
}

/// Whether an instruction is an operation on registers, `Binary` or `Unary`.
pub open spec fn is_operation(instr: ByteCode) -> bool {
    instr is Binary || instr is Unary
}

/// Splitting a 64-bit value into two words and joining them gives it back.
pub proof fn lemma_join_split(value: u64)
    ensures
        join_words(low_word(value), high_word(value)) == value,
{
}

/// Decoding the record of an instruction gives the instruction back, unless
/// it is an operation on registers: its opcode lies in an operation range,
/// where the code looked up is the opcode less `0x20` and names no operation,
/// so that decoding reports the range's error.
pub proof fn lemma_decode_encode(instr: ByteCode)
    ensures
        decode_spec(encode_spec(instr)) == match instr {
            ByteCode::Binary { op, dst, left, right } => Err::<ByteCode, ByteCodeError>(
                ByteCodeError::InvalidBinaryOperation((0x10 + op.spec_code()) as u8),
            ),
            ByteCode::Unary { op, dst, right } => Err(
                ByteCodeError::InvalidUnaryOperation((0x10 + op.spec_code()) as u8),
            ),
            _ => Ok(instr),
        },
        !is_operation(instr) ==> decode_spec(encode_spec(instr)) == Ok::<ByteCode, ByteCodeError>(
            instr,
        ),
{
    match instr {
        ByteCode::Int { dst, value } => lemma_join_split(value),
        ByteCode::Float { dst, value } => lemma_join_split(value),
        _ => {},
    }
}

/// What decoding gives by opcode alone: a record of an operation range never
/// decodes, and every other failure is an opcode outside the table.
pub proof fn lemma_decode_by_opcode(record: Bytes)
    ensures
        0x30 <= record.0 <= 0x3f ==> decode_spec(record) == Err::<ByteCode, ByteCodeError>(
            ByteCodeError::InvalidBinaryOperation((record.0 - 0x20) as u8),
        ),
        0x40 <= record.0 <= 0x4f ==> decode_spec(record) == Err::<ByteCode, ByteCodeError>(
            ByteCodeError::InvalidUnaryOperation((record.0 - 0x30) as u8),
        ),
        decode_spec(record) is Ok <==> (record.0 <= 0x05 || 0x10 <= record.0 <= 0x13 || 0x20
            <= record.0 <= 0x23),
        !(decode_spec(record) is Ok) && !(0x30 <= record.0 <= 0x4f) ==> decode_spec(record)
            == Err::<ByteCode, ByteCodeError>(ByteCodeError::InvalidOperation),
        decode_spec(record) is Ok ==> !is_operation(decode_spec(record)->Ok_0),
        decode_spec(record) is Ok ==> encode_spec(decode_spec(record)->Ok_0).0 == record.0,
{
}

} // verus!
