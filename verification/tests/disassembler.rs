use typelox::chunk::Chunk;
use typelox::opcode::OpCode;
use typelox::value::Value;

#[test]
fn empty_chunk_lists_as_its_header() {
    let chunk = Chunk::new();
    assert_eq!(chunk.disassemble("main.lox"), "=== main.lox ===\n");
    assert_eq!(chunk.disassemble(""), "===  ===\n");
}

#[test]
fn return_alone() {
    let mut chunk = Chunk::new();
    chunk.append(OpCode::RETURN);
    assert_eq!(
        chunk.disassemble("test chunk"),
        "=== test chunk ===\n0000    0 RETURN\n"
    );
}

#[test]
fn constants_are_listed_with_index_and_value() {
    let mut chunk = Chunk::new();
    let nil = chunk.add_constant(Value::Nil).unwrap();
    let yes = chunk.add_constant(Value::Boolean(true)).unwrap();
    let no = chunk.add_constant(Value::Boolean(false)).unwrap();
    let number = chunk.add_constant(Value::Number(1.5f64.to_bits())).unwrap();
    for index in [nil, yes, no, number] {
        let at = chunk.append(OpCode::CONSTANT);
        chunk.append(index);
        chunk.record_line(at, 1);
    }
    assert_eq!(
        chunk.disassemble("c"),
        "=== c ===\n\
         0000    1 CONSTANT 0 'nil'\n\
         0002    | CONSTANT 1 'true'\n\
         0004    | CONSTANT 2 'false'\n\
         0006    | CONSTANT 3 '0x3ff8000000000000'\n"
    );
}

#[test]
fn listed_constants_read_back() {
    let values = vec![
        Value::Nil,
        Value::Boolean(true),
        Value::Boolean(false),
        Value::Number(0.1f64.to_bits()),
        Value::Number((-0.0f64).to_bits()),
        Value::Number(f64::NAN.to_bits()),
        Value::Number(f64::INFINITY.to_bits()),
        Value::Number(6.02214076e23f64.to_bits()),
    ];
    let mut chunk = Chunk::new();
    for value in &values {
        let index = chunk.add_constant(*value).unwrap();
        chunk.append(OpCode::CONSTANT);
        chunk.append(index);
    }
    let listing = chunk.disassemble("values");
    let mut read = Vec::new();
    for line in listing.lines().skip(1) {
        let open = line.find('\'').unwrap();
        let close = line.rfind('\'').unwrap();
        read.push(Value::parse(&line[open + 1..close]).unwrap());
    }
    assert_eq!(read, values);
}

#[test]
fn line_column_shows_a_line_once() {
    let mut chunk = Chunk::new();
    for line in [123u32, 123, 124, 124, 123, 12345] {
        let at = chunk.append(OpCode::NIL);
        chunk.record_line(at, line);
    }
    assert_eq!(
        chunk.disassemble("lines"),
        "=== lines ===\n\
         0000  123 NIL\n\
         0001    | NIL\n\
         0002  124 NIL\n\
         0003    | NIL\n\
         0004  123 NIL\n\
         0005 12345 NIL\n"
    );
}

#[test]
fn every_opcode_without_operand_is_listed_by_name() {
    let mut chunk = Chunk::new();
    for op in [
        OpCode::NIL,
        OpCode::TRUE,
        OpCode::FALSE,
        OpCode::NEGATE,
        OpCode::ADD,
        OpCode::SUBTRACT,
        OpCode::MULTIPLY,
        OpCode::DIVIDE,
        OpCode::EQUAL,
        OpCode::GREATER,
        OpCode::LESS,
        OpCode::NOT,
        OpCode::RETURN,
    ] {
        chunk.append(op);
    }
    chunk.record_line(0, 7);
    assert_eq!(
        chunk.disassemble("ops"),
        "=== ops ===\n\
         0000    7 NIL\n\
         0001    | TRUE\n\
         0002    | FALSE\n\
         0003    | NEGATE\n\
         0004    | ADD\n\
         0005    | SUBTRACT\n\
         0006    | MULTIPLY\n\
         0007    | DIVIDE\n\
         0008    | EQUAL\n\
         0009    | GREATER\n\
         0010    | LESS\n\
         0011    | NOT\n\
         0012    | RETURN\n"
    );
}

#[test]
fn jumps_are_listed_with_distance_and_target() {
    let mut chunk = Chunk::new();
    chunk.append(OpCode::TRUE);
    chunk.append(OpCode::JUMP_IF_FALSE);
    chunk.append(0u8);
    chunk.append(4u8);
    chunk.append(OpCode::JUMP);
    chunk.append(1u8);
    chunk.append(2u8);
    chunk.append(OpCode::RETURN);
    chunk.append(OpCode::JUMP);
    chunk.append(0u8);
    chunk.append(0u8);
    chunk.record_line(0, 1);
    assert_eq!(
        chunk.disassemble("jumps"),
        "=== jumps ===\n\
         0000    1 TRUE\n\
         0001    | JUMP_IF_FALSE 4 -> 0008\n\
         0004    | JUMP 258 -> 0265\n\
         0007    | RETURN\n\
         0008    | JUMP 0 -> 0011\n"
    );
}

#[test]
fn truncated_constant_is_reported_incomplete() {
    let mut chunk = Chunk::new();
    chunk.append(OpCode::CONSTANT);
    let listing = chunk.disassemble("cut");
    assert_eq!(
        listing,
        "=== cut ===\n0000    0 CONSTANT (incomplete instruction)\n"
    );
    assert!(listing.contains("incomplete instruction"));
}

#[test]
fn truncated_jump_is_reported_incomplete() {
    let mut chunk = Chunk::new();
    chunk.append(OpCode::RETURN);
    chunk.append(OpCode::JUMP);
    chunk.append(9u8);
    assert_eq!(
        chunk.disassemble("cut"),
        "=== cut ===\n0000    0 RETURN\n0001    | JUMP (incomplete instruction)\n"
    );
    let mut chunk = Chunk::new();
    chunk.append(OpCode::JUMP_IF_FALSE);
    assert_eq!(
        chunk.disassemble("cut"),
        "=== cut ===\n0000    0 JUMP_IF_FALSE (incomplete instruction)\n"
    );
}

#[test]
fn unknown_bytes_are_listed_one_by_one() {
    let mut chunk = Chunk::new();
    chunk.append(16u8);
    chunk.append(255u8);
    chunk.append(OpCode::RETURN);
    assert_eq!(
        chunk.disassemble("odd"),
        "=== odd ===\n0000    0 UNKNOWN 16\n0001    | UNKNOWN 255\n0002    | RETURN\n"
    );
}

#[test]
fn missing_constant_is_reported() {
    let mut chunk = Chunk::new();
    chunk.add_constant(Value::Nil).unwrap();
    chunk.append(OpCode::CONSTANT);
    chunk.append(1u8);
    chunk.append(OpCode::CONSTANT);
    chunk.append(255u8);
    assert_eq!(
        chunk.disassemble("pool"),
        "=== pool ===\n\
         0000    0 CONSTANT 1 (no such constant)\n\
         0002    | CONSTANT 255 (no such constant)\n"
    );
}

#[test]
fn offsets_grow_past_four_digits() {
    let mut chunk = Chunk::new();
    for _ in 0..10001 {
        chunk.append(OpCode::NIL);
    }
    let listing = chunk.disassemble("long");
    let lines: Vec<&str> = listing.lines().collect();
    assert_eq!(lines.len(), 10002);
    assert_eq!(lines[1], "0000    0 NIL");
    assert_eq!(lines[10000], "9999    | NIL");
    assert_eq!(lines[10001], "10000    | NIL");
}

#[test]
fn disassembling_twice_gives_the_same_text_and_leaves_the_chunk() {
    let mut chunk = Chunk::new();
    let index = chunk.add_constant(Value::Number(2.0f64.to_bits())).unwrap();
    chunk.append(OpCode::CONSTANT);
    chunk.append(index);
    chunk.append(OpCode::NEGATE);
    chunk.append(OpCode::RETURN);
    chunk.record_line(0, 1);
    let bytes = chunk.bytes().to_vec();
    let first = chunk.disassemble("twice");
    let second = chunk.disassemble("twice");
    assert_eq!(first, second);
    assert_eq!(chunk.bytes(), bytes.as_slice());
    assert_eq!(chunk.constants(), &[Value::Number(2.0f64.to_bits())]);
    assert_eq!(
        first,
        "=== twice ===\n\
         0000    1 CONSTANT 0 '0x4000000000000000'\n\
         0002    | NEGATE\n\
         0003    | RETURN\n"
    );
}

#[test]
fn header_takes_any_name() {
    let mut chunk = Chunk::new();
    chunk.append(OpCode::RETURN);
    assert_eq!(
        chunk.disassemble("/tmp/é ü.lox"),
        "=== /tmp/é ü.lox ===\n0000    0 RETURN\n"
    );
}
