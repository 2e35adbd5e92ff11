//! The whole-program container format: the count of the string pool, the
//! strings, each behind its length, and the instruction records up to the end
//! of the buffer.

use vstd::prelude::*;
use crate::instruction::{
    decode_instruction, decode_spec, encode_instruction, encode_spec, ByteCode, ByteCodeError,
    Bytes,
};
use crate::wire::{be_bytes, be_word, push_word, read_word};

verus! {

/// A string pool and an instruction stream.
#[derive(Debug, Clone, PartialEq)]
pub struct Program {
    pub strings: Vec<String>,
    pub code: Vec<ByteCode>,
}

/// Why a buffer holds no program.
#[derive(Debug, Clone, PartialEq)]
pub enum ProgramParseError {
    /// The buffer ends inside a count, a string or an instruction record.
    InsufficiantBytes,
    /// A record of full length names no instruction.
    ByteCodeError(ByteCodeError),
}

impl ProgramParseError {
    /// The message of an error: that of the instruction codec where it
    /// refused a record.
    pub open spec fn spec_message(self) -> Seq<char> {
        match self {
            ProgramParseError::InsufficiantBytes => "insufficiant bytes"@,
            ProgramParseError::ByteCodeError(e) => e.spec_message(),
        }
    }

    /// The message of this error.
    pub fn message(&self) -> (text: String)
        ensures
            text@ == self.spec_message(),
    {
        match self {
            ProgramParseError::InsufficiantBytes => "insufficiant bytes".to_owned(),
            ProgramParseError::ByteCodeError(e) => e.message(),
        }
    }
}

/// A program as a mathematical value: the texts of the pool and the
/// instructions, each in order.
pub ghost struct ProgramView {
    pub strings: Seq<Seq<char>>,
    pub code: Seq<ByteCode>,
}

/// The texts of a string pool.
pub open spec fn pool_view(strings: Seq<String>) -> Seq<Seq<char>> {
    strings.map_values(|s: String| s@)
}

impl View for Program {
    type V = ProgramView;

    open spec fn view(&self) -> ProgramView {
        ProgramView { strings: pool_view(self.strings@), code: self.code@ }
    }
}

/// The byte that stands for a character: its scalar value cut to eight bits.
pub open spec fn char_byte(c: char) -> u8 {
    ((c as u32) % 0x100) as u8
}

/// The bytes of a text, one for each character.
pub open spec fn text_bytes(text: Seq<char>) -> Seq<u8> {
    text.map_values(|c: char| char_byte(c))
}

/// The text that bytes stand for, one character for each byte.
pub open spec fn bytes_text(bytes: Seq<u8>) -> Seq<char> {
    bytes.map_values(|b: u8| b as char)
}

/// A count as it is written: its low-order 32 bits.
pub open spec fn count_word(count: nat) -> u32 {
    (count % 0x1_0000_0000) as u32
}

/// One entry of the string table: the number of characters, then their bytes.
pub open spec fn string_entry(text: Seq<char>) -> Seq<u8> {
    be_bytes(count_word(text.len())) + text_bytes(text)
}

/// The entries of a string pool, one behind the other.
pub open spec fn string_table(strings: Seq<Seq<char>>) -> Seq<u8>
    decreases strings.len(),
{
    if strings.len() == 0 {
        Seq::empty()
    } else {
        string_table(strings.drop_last()) + string_entry(strings.last())
    }
}

/// The thirteen bytes of a record.
pub open spec fn record_bytes(record: Bytes) -> Seq<u8> {
    seq![record.0] + be_bytes(record.1) + be_bytes(record.2) + be_bytes(record.3)
}

/// The records of an instruction stream, one behind the other.
pub open spec fn code_bytes(code: Seq<ByteCode>) -> Seq<u8>
    decreases code.len(),
{
    if code.len() == 0 {
        Seq::empty()
    } else {
        code_bytes(code.drop_last()) + record_bytes(encode_spec(code.last()))
    }
}

/// The buffer of a program.
pub open spec fn serialize_spec(program: ProgramView) -> Seq<u8> {
    be_bytes(count_word(program.strings.len())) + string_table(program.strings) + code_bytes(
        program.code,
    )
}

/// Reads `count` string entries from `pos` on and puts their texts behind
/// `acc`; gives the pool and the position behind the last entry, or nothing
/// where the buffer ends inside an entry.
pub open spec fn parse_strings(bytes: Seq<u8>, pos: int, count: nat, acc: Seq<Seq<char>>) -> Option<
    (Seq<Seq<char>>, int),
>
    decreases count,
{
    if count == 0 {
        Some((acc, pos))
    } else if pos + 4 > bytes.len() {
        None
    } else {
        let n = be_word(bytes, pos) as int;
        if pos + 4 + n > bytes.len() {
            None
        } else {
            parse_strings(
                bytes,
                pos + 4 + n,
                (count - 1) as nat,
                acc.push(bytes_text(bytes.subrange(pos + 4, pos + 4 + n))),
            )
        }
    }
}

/// The record whose thirteen bytes stand at `pos`.
pub open spec fn record_at(bytes: Seq<u8>, pos: int) -> Bytes {
    (bytes[pos], be_word(bytes, pos + 1), be_word(bytes, pos + 5), be_word(bytes, pos + 9))
}

/// Reads records from `pos` to the end of the buffer and puts their
/// instructions behind `acc`. The first record that is cut short or names no
/// instruction decides the error.
pub open spec fn parse_code(bytes: Seq<u8>, pos: int, acc: Seq<ByteCode>) -> Result<
    Seq<ByteCode>,
    ProgramParseError,
>
    decreases bytes.len() - pos,
{
    if pos >= bytes.len() {
        Ok(acc)
    } else if pos + 13 > bytes.len() {
        Err(ProgramParseError::InsufficiantBytes)
    } else {
        match decode_spec(record_at(bytes, pos)) {
            Err(e) => Err(ProgramParseError::ByteCodeError(e)),
            Ok(instr) => parse_code(bytes, pos + 13, acc.push(instr)),
        }
    }
}

/// What a buffer parses to.
pub open spec fn parse_spec(bytes: Seq<u8>) -> Result<ProgramView, ProgramParseError> {
    if bytes.len() < 4 {
        Err(ProgramParseError::InsufficiantBytes)
    } else {
        match parse_strings(bytes, 4, be_word(bytes, 0) as nat, Seq::empty()) {
            None => Err(ProgramParseError::InsufficiantBytes),
            Some((strings, pos)) => match parse_code(bytes, pos, Seq::empty()) {
                Ok(code) => Ok(ProgramView { strings, code }),
                Err(e) => Err(e),
            },
        }
    }
}

/// Appends the entry of `text` to `out`.
fn push_string(out: &mut Vec<u8>, text: &str)
    ensures
        final(out)@ == old(out)@ + string_entry(text@),
{
    let count: usize = text.unicode_len();
    push_word(out, (count as u64 % 0x1_0000_0000) as u32);
    let ghost head = out@;
    for c in it: text.chars()
        invariant
            it.seq() == text@,
            out@ == head + text_bytes(text@.take(it.index() as int)),
    {
        out.push(((c as u32) % 0x100) as u8);
        assert(out@ =~= head + text_bytes(text@.take(it.index() + 1)));
    }
    assert(text@.take(text@.len() as int) =~= text@);
    assert(out@ =~= old(out)@ + string_entry(text@));
}

/// Appends the thirteen bytes of `record` to `out`.
fn push_record(out: &mut Vec<u8>, record: Bytes)
    ensures
        final(out)@ == old(out)@ + record_bytes(record),
{
    out.push(record.0);
    push_word(out, record.1);
    push_word(out, record.2);
    push_word(out, record.3);
    assert(out@ =~= old(out)@ + record_bytes(record));
}

/// Serializes a program: the count of its strings, each string behind the
/// count of its characters with one byte for each character, then the record
/// of each instruction. Counts are written with their low-order 32 bits and
/// characters with their low-order 8 bits.
pub fn serialize_program(program: Program) -> (out: Vec<u8>)
    ensures
        out@ == serialize_spec(program@),
{
    let ghost pool = program@.strings;
    let ghost code = program@.code;
    let mut out: Vec<u8> = Vec::new();
    push_word(&mut out, (program.strings.len() as u64 % 0x1_0000_0000) as u32);
    let ghost head = out@;
    let mut i: usize = 0;
    while i < program.strings.len()
        invariant
            i <= program.strings.len(),
            pool == program@.strings,
            out@ == head + string_table(pool.take(i as int)),
        decreases program.strings.len() - i,
    {
        push_string(&mut out, program.strings[i].as_str());
        proof {
            assert(pool.take(i + 1).drop_last() =~= pool.take(i as int));
            assert(pool.take(i + 1).last() == program.strings[i as int]@);
            assert(out@ =~= head + string_table(pool.take(i + 1)));
        }
        i += 1;
    }
    assert(pool.take(i as int) =~= pool);
    let ghost table = out@;
    let mut j: usize = 0;
    while j < program.code.len()
        invariant
            j <= program.code.len(),
            code == program@.code,
            out@ == table + code_bytes(code.take(j as int)),
        decreases program.code.len() - j,
    {
        push_record(&mut out, encode_instruction(program.code[j]));
        proof {
            assert(code.take(j + 1).drop_last() =~= code.take(j as int));
            assert(code.take(j + 1).last() == program.code[j as int]);
            assert(out@ =~= table + code_bytes(code.take(j + 1)));
        }
        j += 1;
    }
    assert(code.take(j as int) =~= code);
    out
}

/// Reads the bytes from `pos` up to `end` as a text, one character for each
/// byte.
fn read_text(bytes: &[u8], pos: usize, end: usize) -> (text: String)
    requires
        pos <= end <= bytes@.len(),
    ensures
        text@ == bytes_text(bytes@.subrange(pos as int, end as int)),
{
    let mut text = String::new();
    let mut k: usize = pos;
    assert(text@ =~= bytes_text(bytes@.subrange(pos as int, k as int)));
    while k < end
        invariant
            pos <= k <= end <= bytes@.len(),
            text@ == bytes_text(bytes@.subrange(pos as int, k as int)),
        decreases end - k,
    {
        text.push(bytes[k] as char);
        assert(text@ =~= bytes_text(bytes@.subrange(pos as int, k + 1)));
        k += 1;
    }
    text
}

/// Parses a buffer: the count of strings, that many strings, then records to
/// the end of the buffer. A buffer that ends inside the count, a string or a
/// record is refused as `InsufficiantBytes`; a record that names no
/// instruction is refused with the error of the instruction codec. Whichever
/// comes first in the buffer decides, and no part of a program is returned.
pub fn parse_program(bytes: &[u8]) -> (res: Result<Program, ProgramParseError>)
    ensures
        match parse_spec(bytes@) {
            Ok(program) => res is Ok && res->Ok_0@ == program,
            Err(e) => res is Err && res->Err_0 == e,
        },
{
    if bytes.len() < 4 {
        return Err(ProgramParseError::InsufficiantBytes);
    }
    let count: u32 = read_word(bytes, 0);
    let mut strings: Vec<String> = Vec::new();
    let mut pos: usize = 4;
    let mut i: u32 = 0;
    assert(pool_view(strings@) =~= Seq::empty());
    while i < count
        invariant
            i <= count,
            4 <= pos <= bytes@.len(),
            count == be_word(bytes@, 0),
            parse_strings(bytes@, pos as int, (count - i) as nat, pool_view(strings@))
                == parse_strings(bytes@, 4, count as nat, Seq::empty()),
        decreases count - i,
    {
        if bytes.len() - pos < 4 {
            return Err(ProgramParseError::InsufficiantBytes);
        }
        let n: u32 = read_word(bytes, pos);
        if bytes.len() - pos - 4 < n as usize {
            return Err(ProgramParseError::InsufficiantBytes);
        }
        let end: usize = pos + 4 + n as usize;
        let text = read_text(bytes, pos + 4, end);
        proof {
            assert(pool_view(strings@.push(text)) =~= pool_view(strings@).push(text@));
        }
        strings.push(text);
        pos = end;
        i += 1;
    }
    let ghost start = pos;
    let mut code: Vec<ByteCode> = Vec::new();
    while pos < bytes.len()
        invariant
            4 <= pos <= bytes@.len(),
            parse_strings(bytes@, 4, be_word(bytes@, 0) as nat, Seq::empty()) == Some(
                (pool_view(strings@), start as int),
            ),
            parse_code(bytes@, pos as int, code@) == parse_code(bytes@, start as int, Seq::empty()),
        decreases bytes@.len() - pos,
    {
        if bytes.len() - pos < 13 {
            return Err(ProgramParseError::InsufficiantBytes);
        }
        let record: Bytes = (
            bytes[pos],
            read_word(bytes, pos + 1),
            read_word(bytes, pos + 5),
            read_word(bytes, pos + 9),
        );
        match decode_instruction(record) {
            Ok(instr) => code.push(instr),
            Err(e) => {
                return Err(ProgramParseError::ByteCodeError(e));
            },
        }
        pos += 13;
    }
    Ok(Program { strings, code })
}

/// A buffer is known by its bytes alone, so the conversion states them in its
/// own `ensures` and names no buffer in `from_spec`.
impl vstd::std_specs::convert::FromSpecImpl<Program> for Vec<u8> {
    open spec fn obeys_from_spec() -> bool {
        false
    }

    open spec fn from_spec(program: Program) -> Vec<u8> {
        arbitrary()
    }
}

impl From<Program> for Vec<u8> {
    fn from(program: Program) -> (out: Vec<u8>)
        ensures
            out@ == serialize_spec(program@),
    {
        serialize_program(program)
    }
}

/// A program is known by its view alone, so the conversion states it in its
/// own `ensures` and names no program in `try_from_spec`.
impl<'a> vstd::std_specs::convert::TryFromSpecImpl<&'a [u8]> for Program {
    open spec fn obeys_try_from_spec() -> bool {
        false
    }

    open spec fn try_from_spec(bytes: &'a [u8]) -> Result<Self, Self::Error> {
        arbitrary()
    }
}

impl<'a> TryFrom<&'a [u8]> for Program {
    type Error = ProgramParseError;

    fn try_from(bytes: &'a [u8]) -> (res: Result<Self, Self::Error>)
        ensures
            match parse_spec(bytes@) {
                Ok(program) => res is Ok && res->Ok_0@ == program,
                Err(e) => res is Err && res->Err_0 == e,
            },
    {
        parse_program(bytes)
    }
}

} // verus!
