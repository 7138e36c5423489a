use tlang::chunk::Chunk;
use tlang::op::Opcode;
use tlang::value::Value;

#[test]
fn line_index_compaction_test() {
    // Non-decreasing, arbitrarily repeated line numbers: the index keeps one
    // entry per distinct consecutive change, and lookup recovers every line.
    let mut chunk = Chunk::new();
    chunk.push_op(Opcode::OP_RETURN, 1);
    chunk.push_op(Opcode::OP_RETURN, 1);
    chunk.push_op(Opcode::OP_RETURN, 2);
    chunk.push_op(Opcode::OP_RETURN, 2);
    chunk.push_op(Opcode::OP_RETURN, 2);
    chunk.push_op(Opcode::OP_RETURN, 3);
    assert_eq!(chunk.op_len(), 6);
    assert_eq!(chunk.line_len(), 3);
    assert_eq!(chunk.get_line(0), Some(1));
    assert_eq!(chunk.get_line(1), Some(1));
    assert_eq!(chunk.get_line(2), Some(2));
    assert_eq!(chunk.get_line(3), Some(2));
    assert_eq!(chunk.get_line(4), Some(2));
    assert_eq!(chunk.get_line(5), Some(3));
}

#[test]
fn line_lookup_past_end_test() {
    let mut chunk = Chunk::new();
    chunk.push_op(Opcode::OP_RETURN, 7);
    chunk.push_op(Opcode::OP_RETURN, 9);
    assert_eq!(chunk.get_line(100), Some(9));
}

#[test]
fn empty_chunk_has_no_lines_test() {
    let chunk = Chunk::new();
    assert_eq!(chunk.op_len(), 0);
    assert_eq!(chunk.get_line(0), None);
}

#[test]
fn single_line_program_test() {
    // Many instructions on one line: exactly one breakpoint.
    let mut chunk = Chunk::new();
    for _ in 0..10 {
        chunk.push_op(Opcode::OP_NEGATE, 4);
    }
    assert_eq!(chunk.line_len(), 1);
    assert_eq!(chunk.get_line(9), Some(4));
}

#[test]
fn constant_pool_test() {
    let mut chunk = Chunk::new();
    let i = chunk.push_val(Value::Double(1.5f64.to_bits()));
    let j = chunk.push_val(Value::Str(String::from("hi")));
    assert_eq!(i, 0);
    assert_eq!(j, 1);
    assert!(matches!(chunk.get_val(0), Some(Value::Double(b)) if *b == 1.5f64.to_bits()));
    assert!(matches!(chunk.get_val(1), Some(Value::Str(s)) if s == "hi"));
    assert!(chunk.get_val(2).is_none());
}

#[test]
fn instruction_lookup_test() {
    let mut chunk = Chunk::new();
    chunk.push_op(Opcode::OP_CONST(3), 1);
    chunk.push_op(Opcode::OP_ADD, 1);
    assert_eq!(chunk.get_op(0), Some(Opcode::OP_CONST(3)));
    assert_eq!(chunk.get_op(1), Some(Opcode::OP_ADD));
    assert_eq!(chunk.get_op(2), None);
}
