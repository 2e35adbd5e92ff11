use bytecode::{
    decode_instruction, encode_instruction, BinaryOperation, BinaryOperationError, ByteCode,
    ByteCodeError, Locator, UnaryOperation, UnaryOperationError,
};

fn plain_instructions() -> Vec<ByteCode> {
    vec![
        ByteCode::Nop,
        ByteCode::Halt,
        ByteCode::Jump { addr: Locator::Address(10) },
        ByteCode::Jump { addr: Locator::FromRegister(7) },
        ByteCode::JumpIf { cond: 2, addr: Locator::Address(0xdead_beef) },
        ByteCode::JumpIf { cond: 3, addr: Locator::FromRegister(4) },
        ByteCode::String { dst: 1, addr: 5 },
        ByteCode::Int { dst: 3, value: 0x1_0000_0002 },
        ByteCode::Int { dst: 0, value: u64::MAX },
        ByteCode::Float { dst: 9, value: 1.5f64.to_bits() },
        ByteCode::Float { dst: 9, value: f64::NAN.to_bits() },
        ByteCode::Bool { dst: 1, value: true },
        ByteCode::Bool { dst: 1, value: false },
        ByteCode::Move { dst: 4, src: 5 },
        ByteCode::Field { dst: 4, src: 5, field: 6 },
        ByteCode::Call { addr: Locator::Address(100), args: 2, dst: 8 },
        ByteCode::Call { addr: Locator::FromRegister(11), args: 0, dst: u32::MAX },
    ]
}

#[test]
fn binary_codes_are_dense_from_zero() {
    assert_eq!(BinaryOperation::Add.code(), 0);
    assert_eq!(BinaryOperation::Sub.code(), 1);
    assert_eq!(BinaryOperation::Div.code(), 2);
    assert_eq!(BinaryOperation::Mul.code(), 3);
    assert_eq!(UnaryOperation::Neg.code(), 0);
}

#[test]
fn operation_tables_are_reversible() {
    for op in [
        BinaryOperation::Add,
        BinaryOperation::Sub,
        BinaryOperation::Div,
        BinaryOperation::Mul,
    ] {
        assert_eq!(BinaryOperation::try_from_code(op.code()), Ok(op));
    }
    assert_eq!(UnaryOperation::try_from_code(UnaryOperation::Neg.code()), Ok(UnaryOperation::Neg));
}

#[test]
fn codes_outside_the_tables_are_refused() {
    for code in 4..=u8::MAX {
        assert_eq!(BinaryOperation::try_from_code(code), Err(BinaryOperationError));
    }
    for code in 1..=u8::MAX {
        assert_eq!(UnaryOperation::try_from_code(code), Err(UnaryOperationError));
    }
}

#[test]
fn locator_value_drops_the_tag() {
    assert_eq!(Locator::Address(42).value(), 42);
    assert_eq!(Locator::FromRegister(42).value(), 42);
}

#[test]
fn halt_record() {
    assert_eq!(encode_instruction(ByteCode::Halt), (0x01, 0, 0, 0));
}

#[test]
fn jump_to_address_record() {
    assert_eq!(
        encode_instruction(ByteCode::Jump { addr: Locator::Address(10) }),
        (0x02, 0, 10, 0)
    );
}

#[test]
fn int_is_split_low_word_first() {
    let instr = ByteCode::Int { dst: 3, value: 0x1_0000_0002 };
    let record = encode_instruction(instr);
    assert_eq!(record, (0x11, 3, 0x0000_0002, 0x0000_0001));
    assert_eq!(decode_instruction(record), Ok(ByteCode::Int { dst: 3, value: 0x1_0000_0002 }));
}

#[test]
fn float_keeps_its_bit_pattern() {
    let bits = (-0.1f64).to_bits();
    let record = encode_instruction(ByteCode::Float { dst: 2, value: bits });
    assert_eq!(record, (0x12, 2, bits as u32, (bits >> 32) as u32));
    match decode_instruction(record) {
        Ok(ByteCode::Float { dst, value }) => {
            assert_eq!(dst, 2);
            assert_eq!(f64::from_bits(value).to_bits(), (-0.1f64).to_bits());
        }
        other => panic!("unexpected {:?}", other),
    }
}

#[test]
fn every_opcode_of_the_table() {
    let expected: Vec<(u8, u32, u32, u32)> = vec![
        (0x00, 0, 0, 0),
        (0x01, 0, 0, 0),
        (0x02, 0, 10, 0),
        (0x03, 0, 7, 0),
        (0x04, 2, 0xdead_beef, 0),
        (0x05, 3, 4, 0),
        (0x10, 1, 5, 0),
        (0x11, 3, 2, 1),
        (0x11, 0, u32::MAX, u32::MAX),
        (0x12, 9, 0, 0x3ff8_0000),
        (0x12, 9, 0, 0x7ff8_0000),
        (0x13, 1, 1, 0),
        (0x13, 1, 0, 0),
        (0x20, 4, 5, 0),
        (0x21, 4, 5, 6),
        (0x22, 100, 2, 8),
        (0x23, 11, 0, u32::MAX),
    ];
    let instrs = plain_instructions();
    assert_eq!(instrs.len(), expected.len());
    for (instr, record) in instrs.into_iter().zip(expected) {
        assert_eq!(encode_instruction(instr), record);
    }
}

#[test]
fn decoding_a_record_gives_the_instruction_back() {
    for instr in plain_instructions() {
        assert_eq!(decode_instruction(encode_instruction(instr)), Ok(instr));
    }
}

#[test]
fn operations_encode_into_their_ranges() {
    let ops = [
        (BinaryOperation::Add, 0x30),
        (BinaryOperation::Sub, 0x31),
        (BinaryOperation::Div, 0x32),
        (BinaryOperation::Mul, 0x33),
    ];
    for (op, opcode) in ops {
        assert_eq!(
            encode_instruction(ByteCode::Binary { op, dst: 1, left: 2, right: 3 }),
            (opcode, 1, 2, 3)
        );
    }
    assert_eq!(
        encode_instruction(ByteCode::Unary { op: UnaryOperation::Neg, dst: 1, right: 2 }),
        (0x40, 1, 2, 0)
    );
}

#[test]
fn operation_ranges_do_not_decode() {
    for opcode in 0x30..=0x3fu8 {
        assert_eq!(
            decode_instruction((opcode, 1, 2, 3)),
            Err(ByteCodeError::InvalidBinaryOperation(opcode - 0x20))
        );
    }
    for opcode in 0x40..=0x4fu8 {
        assert_eq!(
            decode_instruction((opcode, 1, 2, 0)),
            Err(ByteCodeError::InvalidUnaryOperation(opcode - 0x30))
        );
    }
    let add = ByteCode::Binary { op: BinaryOperation::Add, dst: 1, left: 2, right: 3 };
    assert_eq!(
        decode_instruction(encode_instruction(add)),
        Err(ByteCodeError::InvalidBinaryOperation(0x10))
    );
    let neg = ByteCode::Unary { op: UnaryOperation::Neg, dst: 1, right: 2 };
    assert_eq!(
        decode_instruction(encode_instruction(neg)),
        Err(ByteCodeError::InvalidUnaryOperation(0x10))
    );
}

#[test]
fn unused_opcode_is_invalid() {
    assert_eq!(decode_instruction((0x06, 0, 0, 0)), Err(ByteCodeError::InvalidOperation));
}

#[test]
fn opcodes_outside_the_table_are_invalid() {
    for opcode in 0..=u8::MAX {
        let listed = opcode <= 0x05 || (0x10..=0x13).contains(&opcode)
            || (0x20..=0x23).contains(&opcode);
        let ranged = (0x30..=0x4f).contains(&opcode);
        let res = decode_instruction((opcode, 1, 2, 3));
        if listed {
            assert!(res.is_ok());
        } else if !ranged {
            assert_eq!(res, Err(ByteCodeError::InvalidOperation));
        }
    }
}

#[test]
fn bool_decodes_any_nonzero_word_as_true() {
    assert_eq!(decode_instruction((0x13, 4, 7, 0)), Ok(ByteCode::Bool { dst: 4, value: true }));
    assert_eq!(decode_instruction((0x13, 4, 0, 9)), Ok(ByteCode::Bool { dst: 4, value: false }));
}

#[test]
fn unused_words_are_ignored() {
    assert_eq!(decode_instruction((0x01, 1, 2, 3)), Ok(ByteCode::Halt));
    assert_eq!(
        decode_instruction((0x02, 9, 10, 11)),
        Ok(ByteCode::Jump { addr: Locator::Address(10) })
    );
}
