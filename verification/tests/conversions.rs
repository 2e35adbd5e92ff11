use bytecode::{
    BinaryOperation, BinaryOperationError, ByteCode, ByteCodeError, Bytes, Locator, Program,
    ProgramParseError, UnaryOperation, UnaryOperationError,
};

#[test]
fn operation_codes_through_from() {
    assert_eq!(u8::from(BinaryOperation::Div), 2);
    assert_eq!(u8::from(UnaryOperation::Neg), 0);
    assert_eq!(BinaryOperation::try_from(3u8), Ok(BinaryOperation::Mul));
    assert_eq!(BinaryOperation::try_from(4u8), Err(BinaryOperationError));
    assert_eq!(UnaryOperation::try_from(0u8), Ok(UnaryOperation::Neg));
    assert_eq!(UnaryOperation::try_from(1u8), Err(UnaryOperationError));
}

#[test]
fn locator_into_word() {
    assert_eq!(u32::from(Locator::Address(9)), 9);
    assert_eq!(u32::from(Locator::FromRegister(9)), 9);
}

#[test]
fn instruction_into_record_and_back() {
    let instr = ByteCode::Field { dst: 1, src: 2, field: 3 };
    let record: Bytes = instr.into();
    assert_eq!(record, (0x21, 1, 2, 3));
    assert_eq!(ByteCode::try_from(record), Ok(instr));
    assert_eq!(ByteCode::try_from((0xff, 0, 0, 0)), Err(ByteCodeError::InvalidOperation));
}

#[test]
fn program_into_buffer_and_back() {
    let program = Program {
        strings: vec![String::from("pool")],
        code: vec![ByteCode::String { dst: 0, addr: 0 }, ByteCode::Halt],
    };
    let bytes: Vec<u8> = program.clone().into();
    assert_eq!(bytes.len(), 4 + 4 + 4 + 2 * 13);
    assert_eq!(Program::try_from(&bytes[..]), Ok(program));
    assert_eq!(Program::try_from(&bytes[..9]), Err(ProgramParseError::InsufficiantBytes));
}

#[test]
fn messages() {
    assert_eq!(ByteCodeError::InvalidOperation.message(), "invalid operation");
    assert_eq!(
        ByteCodeError::InvalidBinaryOperation(0x13).message(),
        "invalid binary operation 0x20 + 0x13"
    );
    assert_eq!(
        ByteCodeError::InvalidUnaryOperation(0x1f).message(),
        "invalid unary operation 0x30 + 0x1f"
    );
    assert_eq!(
        ByteCodeError::InvalidUnaryOperation(0x5).message(),
        "invalid unary operation 0x30 + 0x 5"
    );
    assert_eq!(ProgramParseError::InsufficiantBytes.message(), "insufficiant bytes");
    assert_eq!(
        ProgramParseError::ByteCodeError(ByteCodeError::InvalidOperation).message(),
        "invalid operation"
    );
}

#[test]
fn message_payload_is_two_wide_lower_hex() {
    for op in 0..=u8::MAX {
        assert_eq!(
            ByteCodeError::InvalidBinaryOperation(op).message(),
            format!("invalid binary operation 0x20 + 0x{:2x?}", op)
        );
        assert_eq!(
            ProgramParseError::ByteCodeError(ByteCodeError::InvalidUnaryOperation(op)).message(),
            format!("invalid unary operation 0x30 + 0x{:2x?}", op)
        );
    }
}
