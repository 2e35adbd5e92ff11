//! What holds between serializing and parsing, and of a buffer cut short.

use vstd::prelude::*;
use crate::instruction::{
    decode_spec, encode_spec, is_operation, lemma_decode_by_opcode, lemma_decode_encode, ByteCode,
    Bytes,
};
use crate::program::{
    bytes_text, char_byte, code_bytes, count_word, parse_code, parse_spec, parse_strings, record_at,
    record_bytes, serialize_spec, string_entry, string_table, text_bytes, ProgramParseError,
    ProgramView,
};
use crate::wire::{
    be_bytes, be_word, lemma_be_word_of_bytes, lemma_word_at, lemma_word_in_prefix,
};

verus! {

/// Whether a character fits one byte.
pub open spec fn fits_byte(c: char) -> bool {
    c as u32 <= 0xff
}

/// Whether every character of a text fits one byte.
pub open spec fn is_byte_text(text: Seq<char>) -> bool {
    forall|j: int| 0 <= j < text.len() ==> fits_byte(#[trigger] text[j])
}

/// Whether a pool can be written without loss: each string has a count that
/// fits 32 bits and characters that fit one byte each.
pub open spec fn is_lossless_pool(strings: Seq<Seq<char>>) -> bool {
    &&& forall|i: int| 0 <= i < strings.len() ==> (#[trigger] strings[i]).len() <= u32::MAX
    &&& forall|i: int| 0 <= i < strings.len() ==> is_byte_text(#[trigger] strings[i])
}

/// Whether a program is written without loss: the pool and each of its
/// strings have a count that fits 32 bits, every character fits one byte, and
/// no instruction is an operation on registers (whose record does not
/// decode).
pub open spec fn is_lossless(program: ProgramView) -> bool {
    &&& program.strings.len() <= u32::MAX
    &&& is_lossless_pool(program.strings)
    &&& forall|k: int| 0 <= k < program.code.len() ==> !is_operation(#[trigger] program.code[k])
}

/// A character that fits one byte is read back from its byte.
pub proof fn lemma_char_of_byte(c: char)
    requires
        fits_byte(c),
    ensures
        char_byte(c) as char == c,
{
}

/// A text whose characters fit one byte each is read back from its bytes.
pub proof fn lemma_text_of_bytes(text: Seq<char>)
    requires
        is_byte_text(text),
    ensures
        text_bytes(text).len() == text.len(),
        bytes_text(text_bytes(text)) == text,
{
    assert forall|j: int| 0 <= j < text.len() implies bytes_text(text_bytes(text))[j]
        == text[j] by {
        lemma_char_of_byte(text[j]);
    }
    assert(bytes_text(text_bytes(text)) =~= text);
}

/// A stream of `n` instructions takes `13 * n` bytes.
pub proof fn lemma_code_bytes_len(code: Seq<ByteCode>)
    ensures
        code_bytes(code).len() == 13 * code.len(),
    decreases code.len(),
{
    if code.len() > 0 {
        let record = encode_spec(code.last());
        lemma_be_word_of_bytes(record.1);
        lemma_be_word_of_bytes(record.2);
        lemma_be_word_of_bytes(record.3);
        lemma_code_bytes_len(code.drop_last());
    }
}

/// Where the table of `strings` stands at `pos`, reading as many entries and
/// `more` is reading `more` entries behind the table, with `strings` behind
/// what was read before.
pub proof fn lemma_parse_string_table(
    bytes: Seq<u8>,
    pos: int,
    strings: Seq<Seq<char>>,
    more: nat,
    acc: Seq<Seq<char>>,
)
    requires
        0 <= pos,
        pos + string_table(strings).len() <= bytes.len(),
        bytes.subrange(pos, pos + string_table(strings).len()) == string_table(strings),
        is_lossless_pool(strings),
    ensures
        parse_strings(bytes, pos, strings.len() + more, acc) == parse_strings(
            bytes,
            pos + string_table(strings).len(),
            more,
            acc + strings,
        ),
    decreases strings.len(),
{
    if strings.len() == 0 {
        assert(acc + strings =~= acc);
    } else {
        let init = strings.drop_last();
        let last = strings.last();
        let table = string_table(strings);
        let head = string_table(init);
        let entry = string_entry(last);
        assert(table == head + entry);
        lemma_text_of_bytes(last);
        lemma_be_word_of_bytes(count_word(last.len()));
        assert(entry.len() == 4 + last.len());
        assert(bytes.subrange(pos, pos + head.len()) =~= table.subrange(0, head.len() as int));
        assert(table.subrange(0, head.len() as int) =~= head);
        lemma_parse_string_table(bytes, pos, init, more + 1, acc);
        let at = pos + head.len();
        assert(bytes.subrange(at, at + entry.len()) =~= table.subrange(
            head.len() as int,
            table.len() as int,
        ));
        assert(table.subrange(head.len() as int, table.len() as int) =~= entry);
        assert(bytes.subrange(at, at + 4) =~= entry.subrange(0, 4));
        assert(entry.subrange(0, 4) =~= be_bytes(count_word(last.len())));
        lemma_word_at(bytes, at, count_word(last.len()));
        assert(be_word(bytes, at) == last.len());
        assert(bytes.subrange(at + 4, at + 4 + last.len()) =~= entry.subrange(
            4,
            entry.len() as int,
        ));
        assert(entry.subrange(4, entry.len() as int) =~= text_bytes(last));
        assert((acc + init).push(last) =~= acc + strings);
        assert(init.len() + (more + 1) == strings.len() + more);
        assert(((more + 1) - 1) as nat == more);
    }
}

/// A record is read from wherever its thirteen bytes stand.
pub proof fn lemma_record_at(bytes: Seq<u8>, pos: int, record: Bytes)
    requires
        0 <= pos,
        pos + 13 <= bytes.len(),
        bytes.subrange(pos, pos + 13) == record_bytes(record),
    ensures
        record_at(bytes, pos) == record,
{
    let part = bytes.subrange(pos, pos + 13);
    lemma_be_word_of_bytes(record.1);
    lemma_be_word_of_bytes(record.2);
    lemma_be_word_of_bytes(record.3);
    assert(bytes[pos] == part[0]);
    assert(bytes.subrange(pos + 1, pos + 5) =~= part.subrange(1, 5));
    assert(part.subrange(1, 5) =~= be_bytes(record.1));
    assert(bytes.subrange(pos + 5, pos + 9) =~= part.subrange(5, 9));
    assert(part.subrange(5, 9) =~= be_bytes(record.2));
    assert(bytes.subrange(pos + 9, pos + 13) =~= part.subrange(9, 13));
    assert(part.subrange(9, 13) =~= be_bytes(record.3));
    lemma_word_at(bytes, pos + 1, record.1);
    lemma_word_at(bytes, pos + 5, record.2);
    lemma_word_at(bytes, pos + 9, record.3);
}

/// Where the records of `code` stand at `pos` and none of them is an
/// operation on registers, reading from `pos` is reading from behind them,
/// with `code` behind what was read before.
pub proof fn lemma_parse_code_bytes(
    bytes: Seq<u8>,
    pos: int,
    code: Seq<ByteCode>,
    acc: Seq<ByteCode>,
)
    requires
        0 <= pos,
        pos + 13 * code.len() <= bytes.len(),
        bytes.subrange(pos, pos + 13 * code.len()) == code_bytes(code),
        forall|k: int| 0 <= k < code.len() ==> !is_operation(#[trigger] code[k]),
    ensures
        parse_code(bytes, pos, acc) == parse_code(bytes, pos + 13 * code.len(), acc + code),
    decreases code.len(),
{
    if code.len() == 0 {
        assert(acc + code =~= acc);
    } else {
        let init = code.drop_last();
        let last = code.last();
        let all = code_bytes(code);
        let head = code_bytes(init);
        let record = encode_spec(last);
        let tail = record_bytes(record);
        lemma_code_bytes_len(code);
        lemma_code_bytes_len(init);
        assert(all == head + tail);
        assert(bytes.subrange(pos, pos + 13 * init.len()) =~= all.subrange(0, head.len() as int));
        assert(all.subrange(0, head.len() as int) =~= head);
        lemma_parse_code_bytes(bytes, pos, init, acc);
        let at = pos + 13 * init.len();
        assert(bytes.subrange(at, at + 13) =~= all.subrange(head.len() as int, all.len() as int));
        assert(all.subrange(head.len() as int, all.len() as int) =~= tail);
        lemma_record_at(bytes, at, record);
        lemma_decode_encode(last);
        assert((acc + init).push(last) =~= acc + code);
    }
}

/// The three parts of a buffer stand in it one behind the other.
pub proof fn lemma_three_parts(a: Seq<u8>, b: Seq<u8>, c: Seq<u8>)
    ensures
        (a + b + c).len() == a.len() + b.len() + c.len(),
        (a + b + c).subrange(0, a.len() as int) == a,
        (a + b + c).subrange(a.len() as int, (a.len() + b.len()) as int) == b,
        (a + b + c).subrange((a.len() + b.len()) as int, (a.len() + b.len() + c.len()) as int)
            == c,
{
    let all = a + b + c;
    assert(all.subrange(0, a.len() as int) =~= a);
    assert(all.subrange(a.len() as int, (a.len() + b.len()) as int) =~= b);
    assert(all.subrange((a.len() + b.len()) as int, (a.len() + b.len() + c.len()) as int) =~= c);
}

/// In the buffer of a program that is written without loss, the count and
/// the string table are read back as the pool, up to where the records begin.
pub proof fn lemma_parse_serialized_pool(program: ProgramView)
    requires
        is_lossless(program),
    ensures
        serialize_spec(program).len() == 4 + string_table(program.strings).len() + 13
            * program.code.len(),
        be_word(serialize_spec(program), 0) == program.strings.len(),
        parse_strings(
            serialize_spec(program),
            4,
            program.strings.len(),
            Seq::<Seq<char>>::empty(),
        ) == Some((program.strings, 4 + string_table(program.strings).len() as int)),
{
    let count = count_word(program.strings.len());
    let head = be_bytes(count);
    let table = string_table(program.strings);
    let records = code_bytes(program.code);
    let bytes = head + table + records;
    let empty_pool = Seq::<Seq<char>>::empty();
    lemma_be_word_of_bytes(count);
    lemma_code_bytes_len(program.code);
    lemma_three_parts(head, table, records);
    lemma_word_at(bytes, 0, count);
    lemma_parse_string_table(bytes, 4, program.strings, 0, empty_pool);
    assert(empty_pool + program.strings =~= program.strings);
}

/// In the buffer of a program that is written without loss, the records are
/// read back as the instructions.
pub proof fn lemma_parse_serialized_code(program: ProgramView)
    requires
        is_lossless(program),
    ensures
        parse_code(
            serialize_spec(program),
            4 + string_table(program.strings).len() as int,
            Seq::<ByteCode>::empty(),
        ) == Ok::<Seq<ByteCode>, ProgramParseError>(program.code),
{
    let head = be_bytes(count_word(program.strings.len()));
    let table = string_table(program.strings);
    let records = code_bytes(program.code);
    let bytes = head + table + records;
    let start: int = (4 + table.len()) as int;
    let empty_code = Seq::<ByteCode>::empty();
    lemma_be_word_of_bytes(count_word(program.strings.len()));
    lemma_code_bytes_len(program.code);
    lemma_three_parts(head, table, records);
    lemma_parse_code_bytes(bytes, start, program.code, empty_code);
    assert(empty_code + program.code =~= program.code);
}

/// Parsing the buffer of a program gives the program back, where the program
/// is written without loss.
pub proof fn lemma_parse_serialize(program: ProgramView)
    requires
        is_lossless(program),
    ensures
        parse_spec(serialize_spec(program)) == Ok::<ProgramView, ProgramParseError>(program),
{
    lemma_parse_serialized_pool(program);
    lemma_parse_serialized_code(program);
}

/// Reading string entries ends between the position where it began and the
/// end of the buffer.
pub proof fn lemma_parse_strings_end(bytes: Seq<u8>, pos: int, count: nat, acc: Seq<Seq<char>>)
    requires
        pos <= bytes.len(),
        parse_strings(bytes, pos, count, acc) is Some,
    ensures
        pos <= parse_strings(bytes, pos, count, acc)->Some_0.1 <= bytes.len(),
    decreases count,
{
    if count > 0 {
        let n = be_word(bytes, pos) as int;
        lemma_parse_strings_end(
            bytes,
            pos + 4 + n,
            (count - 1) as nat,
            acc.push(bytes_text(bytes.subrange(pos + 4, pos + 4 + n))),
        );
    }
}

/// Of a buffer whose string entries can be read, the first `m` bytes give the
/// same pool where they hold the whole table, and nothing where they do not.
pub proof fn lemma_parse_strings_prefix(
    bytes: Seq<u8>,
    m: int,
    pos: int,
    count: nat,
    acc: Seq<Seq<char>>,
)
    requires
        0 <= pos <= m <= bytes.len(),
        parse_strings(bytes, pos, count, acc) is Some,
    ensures
        parse_strings(bytes.take(m), pos, count, acc) == if parse_strings(
            bytes,
            pos,
            count,
            acc,
        )->Some_0.1 <= m {
            parse_strings(bytes, pos, count, acc)
        } else {
            None
        },
    decreases count,
{
    if count > 0 {
        let n = be_word(bytes, pos) as int;
        let text = bytes_text(bytes.subrange(pos + 4, pos + 4 + n));
        lemma_parse_strings_end(bytes, pos + 4 + n, (count - 1) as nat, acc.push(text));
        if pos + 4 + n <= m {
            lemma_word_in_prefix(bytes, m, pos);
            assert(bytes.take(m).subrange(pos + 4, pos + 4 + n) =~= bytes.subrange(
                pos + 4,
                pos + 4 + n,
            ));
            lemma_parse_strings_prefix(bytes, m, pos + 4 + n, (count - 1) as nat, acc.push(text));
        } else if pos + 4 <= m {
            lemma_word_in_prefix(bytes, m, pos);
        }
    }
}

/// Of a buffer whose records from `pos` on all decode: they fill the rest of
/// the buffer, thirteen bytes each, and the first `m` bytes give as many
/// instructions as they hold whole records, or end inside a record.
pub proof fn lemma_parse_code_prefix(bytes: Seq<u8>, m: int, pos: int, acc: Seq<ByteCode>)
    requires
        0 <= pos <= m <= bytes.len(),
        parse_code(bytes, pos, acc) is Ok,
    ensures
        (bytes.len() - pos) % 13 == 0,
        parse_code(bytes, pos, acc)->Ok_0.len() == acc.len() + (bytes.len() - pos) / 13,
        parse_code(bytes, pos, acc)->Ok_0.take(acc.len() as int) == acc,
        parse_code(bytes.take(m), pos, acc) == if (m - pos) % 13 == 0 {
            Ok::<Seq<ByteCode>, ProgramParseError>(
                parse_code(bytes, pos, acc)->Ok_0.take(acc.len() + (m - pos) / 13),
            )
        } else {
            Err(ProgramParseError::InsufficiantBytes)
        },
    decreases bytes.len() - pos,
{
    let code = parse_code(bytes, pos, acc)->Ok_0;
    if pos >= bytes.len() {
        assert(code.take(acc.len() as int) =~= acc);
    } else {
        let instr = decode_spec(record_at(bytes, pos))->Ok_0;
        let next = acc.push(instr);
        if pos + 13 <= m {
            lemma_parse_code_prefix(bytes, m, pos + 13, next);
            lemma_word_in_prefix(bytes, m, pos + 1);
            lemma_word_in_prefix(bytes, m, pos + 5);
            lemma_word_in_prefix(bytes, m, pos + 9);
            assert(record_at(bytes.take(m), pos) == record_at(bytes, pos));
        } else {
            lemma_parse_code_prefix(bytes, bytes.len() as int, pos + 13, next);
        }
        assert(code.take(acc.len() as int) =~= code.take(next.len() as int).take(
            acc.len() as int,
        ));
        assert(next.take(acc.len() as int) =~= acc);
    }
}

/// A buffer that parses, cut short by `cut` bytes at its end: where the cut
/// takes whole records off the instruction stream, the rest parses to the
/// same pool and the instructions that are left; every other cut is refused
/// as a buffer that ends too early.
pub proof fn lemma_parse_truncated(bytes: Seq<u8>, cut: int)
    requires
        parse_spec(bytes) is Ok,
        1 <= cut <= bytes.len(),
    ensures
        parse_spec(bytes.take(bytes.len() - cut)) == if cut % 13 == 0 && cut <= 13 * parse_spec(
            bytes,
        )->Ok_0.code.len() {
            Ok::<ProgramView, ProgramParseError>(
                ProgramView {
                    strings: parse_spec(bytes)->Ok_0.strings,
                    code: parse_spec(bytes)->Ok_0.code.take(
                        parse_spec(bytes)->Ok_0.code.len() - cut / 13,
                    ),
                },
            )
        } else {
            Err(ProgramParseError::InsufficiantBytes)
        },
{
    let m = bytes.len() - cut;
    let count = be_word(bytes, 0) as nat;
    let empty_pool = Seq::<Seq<char>>::empty();
    let empty_code = Seq::<ByteCode>::empty();
    let (strings, start) = parse_strings(bytes, 4, count, empty_pool)->Some_0;
    lemma_parse_strings_end(bytes, 4, count, empty_pool);
    lemma_parse_code_prefix(bytes, bytes.len() as int, start, empty_code);
    if m >= 4 {
        lemma_word_in_prefix(bytes, m, 0);
        lemma_parse_strings_prefix(bytes, m, 4, count, empty_pool);
        if m >= start {
            lemma_parse_code_prefix(bytes, m, start, empty_code);
        }
    }
}

/// The buffer of a program that is written without loss, cut short by `cut`
/// bytes: a cut of whole records leaves the program with that many
/// instructions fewer, and every other cut is refused as a buffer that ends
/// too early.
pub proof fn lemma_serialize_truncated(program: ProgramView, cut: int)
    requires
        is_lossless(program),
        1 <= cut <= serialize_spec(program).len(),
    ensures
        parse_spec(serialize_spec(program).take(serialize_spec(program).len() - cut)) == if cut
            % 13 == 0 && cut <= 13 * program.code.len() {
            Ok::<ProgramView, ProgramParseError>(
                ProgramView {
                    strings: program.strings,
                    code: program.code.take(program.code.len() - cut / 13),
                },
            )
        } else {
            Err(ProgramParseError::InsufficiantBytes)
        },
{
    lemma_parse_serialize(program);
    lemma_parse_truncated(serialize_spec(program), cut);
}

/// The character that a byte stands for fits one byte.
pub proof fn lemma_byte_char_fits(b: u8)
    ensures
        fits_byte(b as char),
{
}

/// The strings that are read are `count` more than those read before, and
/// each can be written without loss.
pub proof fn lemma_parsed_pool(bytes: Seq<u8>, pos: int, count: nat, acc: Seq<Seq<char>>)
    requires
        0 <= pos,
        parse_strings(bytes, pos, count, acc) is Some,
        is_lossless_pool(acc),
    ensures
        parse_strings(bytes, pos, count, acc)->Some_0.0.len() == acc.len() + count,
        is_lossless_pool(parse_strings(bytes, pos, count, acc)->Some_0.0),
    decreases count,
{
    if count > 0 {
        let n = be_word(bytes, pos) as int;
        let part = bytes.subrange(pos + 4, pos + 4 + n);
        let text = bytes_text(part);
        assert forall|j: int| 0 <= j < text.len() implies fits_byte(#[trigger] text[j]) by {
            lemma_byte_char_fits(part[j]);
        }
        let next = acc.push(text);
        assert(is_byte_text(text));
        assert(text.len() == n);
        assert forall|i: int| 0 <= i < next.len() implies (#[trigger] next[i]).len() <= u32::MAX
            && is_byte_text(next[i]) by {
            if i < acc.len() {
                assert(next[i] == acc[i]);
            }
        }
        lemma_parsed_pool(bytes, pos + 4 + n, (count - 1) as nat, next);
    }
}

/// No instruction that is read is an operation on registers.
pub proof fn lemma_parsed_code(bytes: Seq<u8>, pos: int, acc: Seq<ByteCode>)
    requires
        parse_code(bytes, pos, acc) is Ok,
        forall|k: int| 0 <= k < acc.len() ==> !is_operation(#[trigger] acc[k]),
    ensures
        forall|k: int|
            0 <= k < parse_code(bytes, pos, acc)->Ok_0.len() ==> !is_operation(
                #[trigger] parse_code(bytes, pos, acc)->Ok_0[k],
            ),
    decreases bytes.len() - pos,
{
    if pos < bytes.len() {
        let record = record_at(bytes, pos);
        lemma_decode_by_opcode(record);
        lemma_parsed_code(bytes, pos + 13, acc.push(decode_spec(record)->Ok_0));
    }
}

/// Every program that a buffer parses to is one that is written without
/// loss.
pub proof fn lemma_parsed_is_lossless(bytes: Seq<u8>)
    requires
        parse_spec(bytes) is Ok,
    ensures
        is_lossless(parse_spec(bytes)->Ok_0),
{
    let count = be_word(bytes, 0) as nat;
    let empty_pool = Seq::<Seq<char>>::empty();
    lemma_parsed_pool(bytes, 4, count, empty_pool);
    let start = parse_strings(bytes, 4, count, empty_pool)->Some_0.1;
    lemma_parsed_code(bytes, start, Seq::<ByteCode>::empty());
}

/// Parsing the buffer of a program gives the program back exactly where the
/// program is written without loss.
pub proof fn lemma_round_trip_iff_lossless(program: ProgramView)
    ensures
        parse_spec(serialize_spec(program)) == Ok::<ProgramView, ProgramParseError>(program)
            <==> is_lossless(program),
{
    if is_lossless(program) {
        lemma_parse_serialize(program);
    }
    if parse_spec(serialize_spec(program)) == Ok::<ProgramView, ProgramParseError>(program) {
        lemma_parsed_is_lossless(serialize_spec(program));
    }
}

} // verus!
