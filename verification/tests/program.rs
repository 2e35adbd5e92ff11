use bytecode::wire::{push_word, read_word};
use bytecode::{
    parse_program, serialize_program, BinaryOperation, ByteCode, ByteCodeError, Locator, Program,
    ProgramParseError, UnaryOperation,
};

fn sample() -> Program {
    Program {
        strings: vec![String::from("hi"), String::new(), String::from("caf\u{e9}")],
        code: vec![
            ByteCode::String { dst: 0, addr: 2 },
            ByteCode::Int { dst: 1, value: 0xffff_ffff_0000_0001 },
            ByteCode::JumpIf { cond: 1, addr: Locator::FromRegister(0) },
            ByteCode::Call { addr: Locator::Address(13), args: 1, dst: 2 },
            ByteCode::Halt,
        ],
    }
}

#[test]
fn words_are_big_endian() {
    let mut out = vec![0xaa];
    push_word(&mut out, 0x0102_0304);
    assert_eq!(out, vec![0xaa, 1, 2, 3, 4]);
    assert_eq!(read_word(&out, 1), 0x0102_0304);
    assert_eq!(read_word(&[0xff, 0, 0, 0x10], 0), 0xff00_0010);
}

#[test]
fn halt_serializes_to_thirteen_bytes() {
    let bytes = serialize_program(Program { strings: vec![], code: vec![ByteCode::Halt] });
    assert_eq!(bytes, vec![0, 0, 0, 0, 0x01, 0, 0, 0, 0, 0, 0, 0, 0, 0, 0, 0, 0]);
}

#[test]
fn one_string_and_halt() {
    let program = Program { strings: vec![String::from("hi")], code: vec![ByteCode::Halt] };
    let bytes = serialize_program(program.clone());
    assert_eq!(
        bytes,
        vec![
            0, 0, 0, 1, 0, 0, 0, 2, b'h', b'i', 0x01, 0, 0, 0, 0, 0, 0, 0, 0, 0, 0, 0, 0
        ]
    );
    assert_eq!(parse_program(&bytes), Ok(program));
}

#[test]
fn incomplete_count_is_insufficient() {
    assert_eq!(parse_program(&[0x00, 0x00, 0x00]), Err(ProgramParseError::InsufficiantBytes));
    assert_eq!(parse_program(&[]), Err(ProgramParseError::InsufficiantBytes));
}

#[test]
fn empty_program() {
    let program = Program { strings: vec![], code: vec![] };
    let bytes = serialize_program(program.clone());
    assert_eq!(bytes, vec![0, 0, 0, 0]);
    assert_eq!(parse_program(&bytes), Ok(program));
}

#[test]
fn program_round_trip() {
    let program = sample();
    assert_eq!(parse_program(&serialize_program(program.clone())), Ok(program));
}

#[test]
fn pool_order_and_duplicates_are_kept() {
    let program = Program {
        strings: vec![String::from("b"), String::from("a"), String::from("b")],
        code: vec![],
    };
    let parsed = parse_program(&serialize_program(program.clone())).unwrap();
    assert_eq!(parsed.strings, vec!["b", "a", "b"]);
    assert_eq!(parsed, program);
}

#[test]
fn length_counts_characters() {
    let program = Program { strings: vec![String::from("\u{e9}\u{ff}")], code: vec![] };
    let bytes = serialize_program(program.clone());
    assert_eq!(bytes, vec![0, 0, 0, 1, 0, 0, 0, 2, 0xe9, 0xff]);
    assert_eq!(parse_program(&bytes), Ok(program));
}

#[test]
fn wide_characters_are_cut_to_one_byte() {
    let program = Program { strings: vec![String::from("\u{20ac}\u{141}")], code: vec![] };
    let bytes = serialize_program(program);
    assert_eq!(bytes, vec![0, 0, 0, 1, 0, 0, 0, 2, 0xac, 0x41]);
    let parsed = parse_program(&bytes).unwrap();
    assert_eq!(parsed.strings, vec!["\u{ac}A"]);
}

#[test]
fn every_shorter_buffer_is_insufficient_or_a_shorter_stream() {
    let program = sample();
    let bytes = serialize_program(program.clone());
    let code_len = 13 * program.code.len();
    for cut in 1..=bytes.len() {
        let kept = &bytes[..bytes.len() - cut];
        let res = parse_program(kept);
        if cut % 13 == 0 && cut <= code_len {
            let mut shorter = program.clone();
            shorter.code.truncate(program.code.len() - cut / 13);
            assert_eq!(res, Ok(shorter));
        } else {
            assert_eq!(res, Err(ProgramParseError::InsufficiantBytes));
        }
    }
}

#[test]
fn short_string_body_is_insufficient() {
    assert_eq!(
        parse_program(&[0, 0, 0, 1, 0, 0, 0, 3, b'a', b'b']),
        Err(ProgramParseError::InsufficiantBytes)
    );
    assert_eq!(
        parse_program(&[0, 0, 0, 2, 0, 0, 0, 1, b'a']),
        Err(ProgramParseError::InsufficiantBytes)
    );
    assert_eq!(
        parse_program(&[0xff, 0xff, 0xff, 0xff]),
        Err(ProgramParseError::InsufficiantBytes)
    );
}

#[test]
fn short_record_is_insufficient() {
    assert_eq!(
        parse_program(&[0, 0, 0, 0, 0x01, 0, 0, 0, 0, 0, 0, 0, 0, 0, 0, 0]),
        Err(ProgramParseError::InsufficiantBytes)
    );
    assert_eq!(parse_program(&[0, 0, 0, 0, 0x06]), Err(ProgramParseError::InsufficiantBytes));
}

#[test]
fn unknown_opcode_in_a_record() {
    let mut bytes = vec![0, 0, 0, 0];
    bytes.extend([0x01, 0, 0, 0, 0, 0, 0, 0, 0, 0, 0, 0, 0]);
    bytes.extend([0x06, 0, 0, 0, 0, 0, 0, 0, 0, 0, 0, 0, 0]);
    assert_eq!(
        parse_program(&bytes),
        Err(ProgramParseError::ByteCodeError(ByteCodeError::InvalidOperation))
    );
}

#[test]
fn first_failure_in_the_buffer_decides() {
    let mut bytes = vec![0, 0, 0, 0];
    bytes.extend([0x06, 0, 0, 0, 0, 0, 0, 0, 0, 0, 0, 0, 0]);
    bytes.extend([0x01, 0, 0]);
    assert_eq!(
        parse_program(&bytes),
        Err(ProgramParseError::ByteCodeError(ByteCodeError::InvalidOperation))
    );
}

#[test]
fn operations_do_not_parse_back() {
    let binary = Program {
        strings: vec![],
        code: vec![ByteCode::Binary { op: BinaryOperation::Mul, dst: 1, left: 2, right: 3 }],
    };
    let bytes = serialize_program(binary);
    assert_eq!(bytes, vec![0, 0, 0, 0, 0x33, 0, 0, 0, 1, 0, 0, 0, 2, 0, 0, 0, 3]);
    assert_eq!(
        parse_program(&bytes),
        Err(ProgramParseError::ByteCodeError(ByteCodeError::InvalidBinaryOperation(0x13)))
    );
    let unary = Program {
        strings: vec![],
        code: vec![ByteCode::Unary { op: UnaryOperation::Neg, dst: 1, right: 2 }],
    };
    assert_eq!(
        parse_program(&serialize_program(unary)),
        Err(ProgramParseError::ByteCodeError(ByteCodeError::InvalidUnaryOperation(0x10)))
    );
}

#[test]
fn parsed_words_are_big_endian() {
    let mut bytes = vec![0, 0, 0, 0];
    bytes.extend([0x21, 0x01, 0x02, 0x03, 0x04, 0, 0, 0x01, 0, 0xff, 0, 0, 0]);
    assert_eq!(
        parse_program(&bytes),
        Ok(Program {
            strings: vec![],
            code: vec![ByteCode::Field { dst: 0x0102_0304, src: 0x100, field: 0xff00_0000 }],
        })
    );
}
