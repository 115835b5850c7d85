use typelox::opcode::IntoByte;
use typelox::opcode::OpCode;

fn all() -> Vec<OpCode> {
    vec![
        OpCode::RETURN,
        OpCode::CONSTANT,
        OpCode::NIL,
        OpCode::TRUE,
        OpCode::FALSE,
        OpCode::NEGATE,
        OpCode::ADD,
        OpCode::SUBTRACT,
        OpCode::MULTIPLY,
        OpCode::DIVIDE,
        OpCode::EQUAL,
        OpCode::GREATER,
        OpCode::LESS,
        OpCode::NOT,
        OpCode::JUMP,
        OpCode::JUMP_IF_FALSE,
    ]
}

#[test]
fn return_is_byte_zero() {
    assert_eq!(OpCode::RETURN.to_byte(), 0);
    assert_eq!(u8::from(OpCode::RETURN), 0);
    let byte: u8 = OpCode::RETURN.into();
    assert_eq!(byte, 0);
}

#[test]
fn opcode_bytes_are_stable() {
    let bytes: Vec<u8> = all().into_iter().map(|op| op.to_byte()).collect();
    assert_eq!(bytes, (0u8..16).collect::<Vec<u8>>());
    assert_eq!(OpCode::CONSTANT.to_byte(), 1);
    assert_eq!(OpCode::ADD.to_byte(), 6);
    assert_eq!(OpCode::DIVIDE.to_byte(), 9);
    assert_eq!(OpCode::JUMP.to_byte(), 14);
    assert_eq!(OpCode::JUMP_IF_FALSE.to_byte(), 15);
}

#[test]
fn opcode_bytes_decode_back() {
    for op in all() {
        assert_eq!(OpCode::from_byte(op.to_byte()), Some(op));
        assert_eq!(u8::from(op), op.to_byte());
        assert_eq!(op.into_byte(), op.to_byte());
    }
}

#[test]
fn other_bytes_are_no_opcode() {
    for byte in 16u8..=255 {
        assert_eq!(OpCode::from_byte(byte), None);
    }
}

#[test]
fn raw_bytes_are_written_as_they_are() {
    for byte in 0u8..=255 {
        assert_eq!(byte.into_byte(), byte);
    }
}

#[test]
fn operand_widths() {
    for op in all() {
        let expected = match op {
            OpCode::CONSTANT => 1,
            OpCode::JUMP | OpCode::JUMP_IF_FALSE => 2,
            _ => 0,
        };
        assert_eq!(op.operands(), expected);
    }
}

#[test]
fn opcode_names() {
    let names: Vec<&str> = all().into_iter().map(|op| op.name()).collect();
    assert_eq!(
        names,
        vec![
            "RETURN",
            "CONSTANT",
            "NIL",
            "TRUE",
            "FALSE",
            "NEGATE",
            "ADD",
            "SUBTRACT",
            "MULTIPLY",
            "DIVIDE",
            "EQUAL",
            "GREATER",
            "LESS",
            "NOT",
            "JUMP",
            "JUMP_IF_FALSE",
        ]
    );
}
