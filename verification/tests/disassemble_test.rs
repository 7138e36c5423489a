use tlang::chunk::Chunk;
use tlang::disassemble::{disassemble_chunk, disassemble_instruction};
use tlang::op::Opcode;
use tlang::render::{dec_string, hex_string, padded4_string};
use tlang::value::Value;

#[test]
fn continuation_marker_test() {
    // Two consecutive instructions with the same line number: the second
    // renders with the continuation marker, not a repeated line number.
    let mut chunk = Chunk::new();
    chunk.push_op(Opcode::OP_NEGATE, 7);
    chunk.push_op(Opcode::OP_RETURN, 7);
    assert_eq!(disassemble_instruction(&chunk, 0), "0007 0000$ OP_NEGATE,");
    assert_eq!(disassemble_instruction(&chunk, 1), "   | 0001$ OP_RETURN,");
}

#[test]
fn line_change_restores_number_test() {
    let mut chunk = Chunk::new();
    chunk.push_op(Opcode::OP_NEGATE, 7);
    chunk.push_op(Opcode::OP_RETURN, 8);
    assert_eq!(disassemble_instruction(&chunk, 1), "0008 0001$ OP_RETURN,");
}

#[test]
fn const_operand_rendering_test() {
    let mut chunk = Chunk::new();
    chunk.push_val(Value::Double(1.0f64.to_bits()));
    chunk.push_op(Opcode::OP_CONST(0), 1);
    assert_eq!(
        disassemble_instruction(&chunk, 0),
        "0001 0000$ OP_CONST 0x3ff0000000000000,"
    );
}

#[test]
fn whole_listing_test() {
    let mut chunk = Chunk::new();
    chunk.push_val(Value::Double(1.0f64.to_bits()));
    chunk.push_op(Opcode::OP_CONST(0), 1);
    chunk.push_op(Opcode::OP_RETURN, 1);
    let lines = disassemble_chunk(&chunk, "test");
    assert_eq!(
        lines,
        vec![
            String::from("====$ test $===="),
            String::from("0001 0000$ OP_CONST 0x3ff0000000000000,"),
            String::from("   | 0001$ OP_RETURN,"),
            String::from("====$ over $===="),
        ]
    );
}

#[test]
fn mnemonics_test() {
    let mut chunk = Chunk::new();
    chunk.push_op(Opcode::OP_ADD, 1);
    chunk.push_op(Opcode::OP_SUB, 2);
    chunk.push_op(Opcode::OP_MULTIPLY, 3);
    chunk.push_op(Opcode::OP_DIVIDE, 4);
    assert_eq!(disassemble_instruction(&chunk, 0), "0001 0000$ OP_ADD,");
    assert_eq!(disassemble_instruction(&chunk, 1), "0002 0001$ OP_SUBTRACT,");
    assert_eq!(disassemble_instruction(&chunk, 2), "0003 0002$ OP_MULTIPLY,");
    assert_eq!(disassemble_instruction(&chunk, 3), "0004 0003$ OP_DIVIDE,");
}

#[test]
fn number_rendering_test() {
    assert_eq!(dec_string(0), "0");
    assert_eq!(dec_string(90210), "90210");
    assert_eq!(padded4_string(0), "0000");
    assert_eq!(padded4_string(7), "0007");
    assert_eq!(padded4_string(42), "0042");
    assert_eq!(padded4_string(999), "0999");
    assert_eq!(padded4_string(1000), "1000");
    assert_eq!(padded4_string(12345), "12345");
    assert_eq!(hex_string(0), "0000000000000000");
    assert_eq!(hex_string(u64::MAX), "ffffffffffffffff");
    assert_eq!(hex_string(0x0123_4567_89ab_cdef), "0123456789abcdef");
}
