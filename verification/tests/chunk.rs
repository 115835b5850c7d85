use typelox::chunk::Chunk;
use typelox::chunk::ChunkError;
use typelox::chunk::LineMark;
use typelox::chunk::MAX_CONSTANTS;
use typelox::opcode::OpCode;
use typelox::value::Value;

#[test]
fn new_chunk_is_empty() {
    let chunk = Chunk::new();
    assert_eq!(chunk.size(), 0);
    assert!(chunk.bytes().is_empty());
    assert!(chunk.constants().is_empty());
    assert!(chunk.line_marks().is_empty());
}

#[test]
fn append_returns_the_offset_written() {
    let mut chunk = Chunk::new();
    assert_eq!(chunk.append(OpCode::CONSTANT), 0);
    assert_eq!(chunk.append(7u8), 1);
    assert_eq!(chunk.append(OpCode::RETURN), 2);
    assert_eq!(chunk.bytes(), &[1u8, 7, 0]);
    assert_eq!(chunk.size(), 3);
}

#[test]
fn append_takes_any_byte() {
    let mut chunk = Chunk::new();
    for byte in 0u8..=255 {
        assert_eq!(chunk.append(byte), byte as usize);
    }
    assert_eq!(chunk.size(), 256);
    assert_eq!(chunk.bytes()[200], 200);
    assert!(chunk.constants().is_empty());
}

#[test]
fn add_constant_returns_the_index() {
    let mut chunk = Chunk::new();
    assert_eq!(chunk.add_constant(Value::Nil), Ok(0));
    assert_eq!(chunk.add_constant(Value::Boolean(true)), Ok(1));
    assert_eq!(chunk.add_constant(Value::Number(1.5f64.to_bits())), Ok(2));
    assert_eq!(chunk.add_constant(Value::Nil), Ok(3));
    assert_eq!(
        chunk.constants(),
        &[
            Value::Nil,
            Value::Boolean(true),
            Value::Number(1.5f64.to_bits()),
            Value::Nil
        ]
    );
    assert_eq!(chunk.size(), 0);
}

#[test]
fn constant_pool_overflows_after_256() {
    let mut chunk = Chunk::new();
    for i in 0..256u64 {
        assert_eq!(chunk.add_constant(Value::Number(i)), Ok(i as u8));
    }
    assert_eq!(MAX_CONSTANTS, 256);
    assert_eq!(
        chunk.add_constant(Value::Nil),
        Err(ChunkError::ConstantPoolOverflow)
    );
    assert_eq!(
        chunk.add_constant(Value::Boolean(true)),
        Err(ChunkError::ConstantPoolOverflow)
    );
    assert_eq!(chunk.constants().len(), 256);
    assert_eq!(chunk.constants()[255], Value::Number(255));
}

#[test]
fn line_of_an_instruction_start() {
    let mut chunk = Chunk::new();
    let at = chunk.append(OpCode::NIL);
    chunk.record_line(at, 3);
    let at = chunk.append(OpCode::RETURN);
    chunk.record_line(at, 4);
    assert_eq!(chunk.line_for(0), 3);
    assert_eq!(chunk.line_for(1), 4);
    assert_eq!(
        chunk.line_marks(),
        &[
            LineMark { offset: 0, line: 3 },
            LineMark { offset: 1, line: 4 }
        ]
    );
}

#[test]
fn line_of_an_offset_inside_an_instruction() {
    let mut chunk = Chunk::new();
    let at = chunk.append(OpCode::JUMP);
    chunk.append(0u8);
    chunk.append(0u8);
    chunk.record_line(at, 10);
    let at = chunk.append(OpCode::RETURN);
    chunk.record_line(at, 11);
    assert_eq!(chunk.line_for(0), 10);
    assert_eq!(chunk.line_for(1), 10);
    assert_eq!(chunk.line_for(2), 10);
    assert_eq!(chunk.line_for(3), 11);
    assert_eq!(chunk.line_for(1000), 11);
}

#[test]
fn line_of_an_offset_before_every_mark_is_zero() {
    let mut chunk = Chunk::new();
    assert_eq!(chunk.line_for(0), 0);
    chunk.record_line(5, 9);
    assert_eq!(chunk.line_for(0), 0);
    assert_eq!(chunk.line_for(4), 0);
    assert_eq!(chunk.line_for(5), 9);
}

#[test]
fn line_marks_in_any_order() {
    let mut chunk = Chunk::new();
    chunk.record_line(6, 30);
    chunk.record_line(0, 10);
    chunk.record_line(3, 20);
    assert_eq!(chunk.line_for(0), 10);
    assert_eq!(chunk.line_for(2), 10);
    assert_eq!(chunk.line_for(3), 20);
    assert_eq!(chunk.line_for(5), 20);
    assert_eq!(chunk.line_for(6), 30);
    assert_eq!(chunk.line_for(usize::MAX), 30);
}

#[test]
fn later_mark_at_the_same_offset_wins() {
    let mut chunk = Chunk::new();
    chunk.record_line(2, 7);
    chunk.record_line(2, 8);
    chunk.record_line(0, 1);
    assert_eq!(chunk.line_for(2), 8);
    assert_eq!(chunk.line_for(3), 8);
    assert_eq!(chunk.line_for(1), 1);
}

#[test]
fn recording_lines_leaves_code_and_constants() {
    let mut chunk = Chunk::new();
    chunk.append(OpCode::RETURN);
    chunk.add_constant(Value::Nil).unwrap();
    chunk.record_line(0, u32::MAX);
    assert_eq!(chunk.bytes(), &[0u8]);
    assert_eq!(chunk.constants(), &[Value::Nil]);
    assert_eq!(chunk.line_for(0), u32::MAX);
}

fn sample() -> Chunk {
    let mut chunk = Chunk::new();
    let index = chunk.add_constant(Value::Nil).unwrap();
    chunk.append(OpCode::CONSTANT);
    chunk.append(index);
    chunk.append(OpCode::JUMP_IF_FALSE);
    chunk.append(0u8);
    chunk.append(1u8);
    chunk.append(OpCode::NOT);
    chunk.append(OpCode::RETURN);
    chunk
}

#[test]
fn well_formed_chunks_validate() {
    assert!(Chunk::new().validate());
    assert!(sample().validate());
    let mut chunk = Chunk::new();
    chunk.append(OpCode::RETURN);
    assert!(chunk.validate());
    let mut chunk = Chunk::new();
    chunk.append(OpCode::JUMP);
    chunk.append(0u8);
    chunk.append(0u8);
    assert!(chunk.validate());
    let mut chunk = Chunk::new();
    chunk.append(OpCode::JUMP);
    chunk.append(0u8);
    chunk.append(2u8);
    chunk.append(OpCode::CONSTANT);
    chunk.append(0u8);
    chunk.add_constant(Value::Nil).unwrap();
    assert!(chunk.validate());
}

#[test]
fn unknown_opcode_does_not_validate() {
    let mut chunk = sample();
    chunk.append(16u8);
    assert!(!chunk.validate());
    let mut chunk = Chunk::new();
    chunk.append(255u8);
    assert!(!chunk.validate());
}

#[test]
fn truncated_instruction_does_not_validate() {
    for op in [OpCode::CONSTANT, OpCode::JUMP, OpCode::JUMP_IF_FALSE] {
        let mut chunk = sample();
        chunk.append(op);
        assert!(!chunk.validate());
    }
    let mut chunk = sample();
    chunk.append(OpCode::JUMP);
    chunk.append(0u8);
    assert!(!chunk.validate());
}

#[test]
fn constant_outside_the_pool_does_not_validate() {
    let mut chunk = sample();
    chunk.append(OpCode::CONSTANT);
    chunk.append(1u8);
    assert!(!chunk.validate());
    chunk.add_constant(Value::Boolean(true)).unwrap();
    assert!(chunk.validate());
}

#[test]
fn jump_into_an_instruction_does_not_validate() {
    let mut chunk = Chunk::new();
    chunk.append(OpCode::JUMP);
    chunk.append(0u8);
    chunk.append(1u8);
    chunk.append(OpCode::CONSTANT);
    chunk.append(0u8);
    chunk.add_constant(Value::Nil).unwrap();
    assert!(!chunk.validate());
    let mut chunk = Chunk::new();
    chunk.append(OpCode::JUMP_IF_FALSE);
    chunk.append(0u8);
    chunk.append(2u8);
    chunk.append(OpCode::JUMP);
    chunk.append(0u8);
    chunk.append(0u8);
    assert!(!chunk.validate());
}

#[test]
fn jump_beyond_the_end_does_not_validate() {
    let mut chunk = Chunk::new();
    chunk.append(OpCode::JUMP);
    chunk.append(0u8);
    chunk.append(1u8);
    assert!(!chunk.validate());
    let mut chunk = Chunk::new();
    chunk.append(OpCode::JUMP);
    chunk.append(255u8);
    chunk.append(255u8);
    chunk.append(OpCode::RETURN);
    assert!(!chunk.validate());
}

#[test]
fn validation_leaves_the_chunk() {
    let chunk = sample();
    let bytes = chunk.bytes().to_vec();
    assert!(chunk.validate());
    assert!(chunk.validate());
    assert_eq!(chunk.bytes(), bytes.as_slice());
    assert_eq!(chunk.constants(), &[Value::Nil]);
}
