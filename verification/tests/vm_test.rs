use tlang::chunk::Chunk;
use tlang::op::Opcode;
use tlang::value::Value;
use tlang::vm::{InterpretResult, RunOutcome, VM};

fn double_chunk(values: &[f64], ops: &[Opcode], line: u32) -> Chunk {
    let mut chunk = Chunk::new();
    for v in values {
        chunk.push_val(Value::Double(v.to_bits()));
    }
    for op in ops {
        chunk.push_op(*op, line);
    }
    chunk
}

/// Drives the machine to completion, computing each requested IEEE 754 double
/// operation with real host arithmetic.
fn run_to_end(vm: &mut VM) -> (InterpretResult, Option<Value>) {
    let mut out = vm.run();
    loop {
        match out {
            RunOutcome::Finished(result, report) => {
                return (result, report);
            }
            RunOutcome::DoubleOp(op, l, r) => {
                let left = f64::from_bits(l);
                let right = f64::from_bits(r);
                let combined = match op {
                    Opcode::OP_ADD => left + right,
                    Opcode::OP_SUB => left - right,
                    Opcode::OP_MULTIPLY => left * right,
                    Opcode::OP_DIVIDE => left / right,
                    _ => panic!("machine requested a non-arithmetic operation"),
                };
                out = vm.resume(combined.to_bits());
            }
        }
    }
}

#[test]
fn const_return_reports_constant_test() {
    let chunk = double_chunk(&[5.5], &[Opcode::OP_CONST(0), Opcode::OP_RETURN], 1);
    let mut vm = VM::from(chunk);
    let (result, report) = run_to_end(&mut vm);
    assert_eq!(result, InterpretResult::Success);
    assert!(matches!(report, Some(Value::Double(b)) if b == 5.5f64.to_bits()));
}

#[test]
fn add_reports_sum_test() {
    let chunk = double_chunk(
        &[1.0, 2.0],
        &[
            Opcode::OP_CONST(0),
            Opcode::OP_CONST(1),
            Opcode::OP_ADD,
            Opcode::OP_RETURN,
        ],
        1,
    );
    let mut vm = VM::from(chunk);
    let out = vm.run();
    assert!(matches!(
        out,
        RunOutcome::DoubleOp(Opcode::OP_ADD, l, r)
            if l == 1.0f64.to_bits() && r == 2.0f64.to_bits()
    ));
    let out = vm.resume((1.0f64 + 2.0f64).to_bits());
    assert!(matches!(
        out,
        RunOutcome::Finished(InterpretResult::Success, Some(Value::Double(b)))
            if b == 3.0f64.to_bits()
    ));
}

#[test]
fn subtract_and_multiply_test() {
    let chunk = double_chunk(
        &[10.0, 4.0, 2.0],
        &[
            Opcode::OP_CONST(0),
            Opcode::OP_CONST(1),
            Opcode::OP_SUB,
            Opcode::OP_CONST(2),
            Opcode::OP_MULTIPLY,
            Opcode::OP_RETURN,
        ],
        1,
    );
    let mut vm = VM::from(chunk);
    let (result, report) = run_to_end(&mut vm);
    assert_eq!(result, InterpretResult::Success);
    assert!(matches!(report, Some(Value::Double(b)) if b == 12.0f64.to_bits()));
}

#[test]
fn divide_by_zero_reports_null_test() {
    let chunk = double_chunk(
        &[1.0, 0.0],
        &[
            Opcode::OP_CONST(0),
            Opcode::OP_CONST(1),
            Opcode::OP_DIVIDE,
            Opcode::OP_RETURN,
        ],
        1,
    );
    let mut vm = VM::from(chunk);
    let (result, report) = run_to_end(&mut vm);
    assert_eq!(result, InterpretResult::Success);
    assert!(matches!(report, Some(Value::Null)));
}

#[test]
fn divide_by_negative_zero_reports_null_test() {
    let chunk = double_chunk(
        &[1.0, -0.0],
        &[
            Opcode::OP_CONST(0),
            Opcode::OP_CONST(1),
            Opcode::OP_DIVIDE,
            Opcode::OP_RETURN,
        ],
        1,
    );
    let mut vm = VM::from(chunk);
    let (result, report) = run_to_end(&mut vm);
    assert_eq!(result, InterpretResult::Success);
    assert!(matches!(report, Some(Value::Null)));
}

#[test]
fn type_mismatch_reports_null_test() {
    let mut chunk = Chunk::new();
    chunk.push_val(Value::Double(1.0f64.to_bits()));
    chunk.push_val(Value::Str(String::from("x")));
    chunk.push_op(Opcode::OP_CONST(0), 1);
    chunk.push_op(Opcode::OP_CONST(1), 1);
    chunk.push_op(Opcode::OP_ADD, 1);
    chunk.push_op(Opcode::OP_RETURN, 1);
    let mut vm = VM::from(chunk);
    let (result, report) = run_to_end(&mut vm);
    assert_eq!(result, InterpretResult::Success);
    assert!(matches!(report, Some(Value::Null)));
}

#[test]
fn string_concat_test() {
    let mut chunk = Chunk::new();
    chunk.push_val(Value::Str(String::from("foo")));
    chunk.push_val(Value::Str(String::from("bar")));
    chunk.push_op(Opcode::OP_CONST(0), 1);
    chunk.push_op(Opcode::OP_CONST(1), 1);
    chunk.push_op(Opcode::OP_ADD, 1);
    chunk.push_op(Opcode::OP_RETURN, 1);
    let mut vm = VM::from(chunk);
    let (result, report) = run_to_end(&mut vm);
    assert_eq!(result, InterpretResult::Success);
    assert!(matches!(report, Some(Value::Str(s)) if s == "foobar"));
}

#[test]
fn stack_underflow_is_runtime_error_test() {
    let chunk = double_chunk(&[], &[Opcode::OP_ADD], 1);
    let mut vm = VM::from(chunk);
    let out = vm.run();
    assert!(matches!(
        out,
        RunOutcome::Finished(InterpretResult::RuntimeError, None)
    ));
}

#[test]
fn negate_twice_reports_original_test() {
    let chunk = double_chunk(
        &[5.0],
        &[
            Opcode::OP_CONST(0),
            Opcode::OP_NEGATE,
            Opcode::OP_NEGATE,
            Opcode::OP_RETURN,
        ],
        1,
    );
    let mut vm = VM::from(chunk);
    let (result, report) = run_to_end(&mut vm);
    assert_eq!(result, InterpretResult::Success);
    assert!(matches!(report, Some(Value::Double(b)) if b == 5.0f64.to_bits()));
}

#[test]
fn negate_once_test() {
    let chunk = double_chunk(
        &[5.0],
        &[Opcode::OP_CONST(0), Opcode::OP_NEGATE, Opcode::OP_RETURN],
        1,
    );
    let mut vm = VM::from(chunk);
    let (result, report) = run_to_end(&mut vm);
    assert_eq!(result, InterpretResult::Success);
    assert!(matches!(report, Some(Value::Double(b)) if b == (-5.0f64).to_bits()));
}

#[test]
fn empty_program_is_runtime_error_test() {
    let chunk = Chunk::new();
    let mut vm = VM::from(chunk);
    let out = vm.run();
    assert!(matches!(
        out,
        RunOutcome::Finished(InterpretResult::RuntimeError, None)
    ));
}

#[test]
fn return_on_empty_stack_succeeds_test() {
    let chunk = double_chunk(&[], &[Opcode::OP_RETURN], 1);
    let mut vm = VM::from(chunk);
    let out = vm.run();
    assert!(matches!(
        out,
        RunOutcome::Finished(InterpretResult::Success, None)
    ));
}

#[test]
fn stack_overflow_is_runtime_error_test() {
    let chunk = double_chunk(
        &[1.0],
        &[Opcode::OP_CONST(0), Opcode::OP_CONST(0), Opcode::OP_RETURN],
        1,
    );
    let mut vm = VM::from(chunk);
    vm.set_stack_max(1);
    let out = vm.run();
    assert!(matches!(
        out,
        RunOutcome::Finished(InterpretResult::RuntimeError, None)
    ));
}

#[test]
fn negate_non_double_is_runtime_error_test() {
    let mut chunk = Chunk::new();
    chunk.push_val(Value::Str(String::from("x")));
    chunk.push_op(Opcode::OP_CONST(0), 1);
    chunk.push_op(Opcode::OP_NEGATE, 1);
    chunk.push_op(Opcode::OP_RETURN, 1);
    let mut vm = VM::from(chunk);
    let out = vm.run();
    assert!(matches!(
        out,
        RunOutcome::Finished(InterpretResult::RuntimeError, None)
    ));
}

#[test]
fn missing_constant_is_runtime_error_test() {
    let chunk = double_chunk(&[], &[Opcode::OP_CONST(5), Opcode::OP_RETURN], 1);
    let mut vm = VM::from(chunk);
    let out = vm.run();
    assert!(matches!(
        out,
        RunOutcome::Finished(InterpretResult::RuntimeError, None)
    ));
}

#[test]
fn running_off_the_end_is_runtime_error_test() {
    // A program that never returns: the fetch past the end fails defensively.
    let chunk = double_chunk(&[1.0], &[Opcode::OP_CONST(0)], 1);
    let mut vm = VM::from(chunk);
    let out = vm.run();
    assert!(matches!(
        out,
        RunOutcome::Finished(InterpretResult::RuntimeError, None)
    ));
}

#[test]
fn resume_without_suspension_is_runtime_error_test() {
    let chunk = double_chunk(&[1.0], &[Opcode::OP_CONST(0), Opcode::OP_RETURN], 1);
    let mut vm = VM::from(chunk);
    let out = vm.resume(0);
    assert!(matches!(
        out,
        RunOutcome::Finished(InterpretResult::RuntimeError, None)
    ));
}

#[test]
fn set_chunk_reuses_machine_test() {
    let chunk = double_chunk(&[2.0], &[Opcode::OP_CONST(0), Opcode::OP_RETURN], 1);
    let mut vm = VM::from(chunk);
    let (result, _) = run_to_end(&mut vm);
    assert_eq!(result, InterpretResult::Success);
    let second = double_chunk(&[8.0], &[Opcode::OP_CONST(0), Opcode::OP_RETURN], 1);
    vm.set_chunk(second);
    let (result, report) = run_to_end(&mut vm);
    assert_eq!(result, InterpretResult::Success);
    assert!(matches!(report, Some(Value::Double(b)) if b == 8.0f64.to_bits()));
}

#[test]
fn set_chunk_to_empty_halts_test() {
    let chunk = double_chunk(&[2.0], &[Opcode::OP_CONST(0), Opcode::OP_RETURN], 1);
    let mut vm = VM::from(chunk);
    vm.set_chunk(Chunk::new());
    let out = vm.run();
    assert!(matches!(
        out,
        RunOutcome::Finished(InterpretResult::RuntimeError, None)
    ));
}

#[test]
fn advance_walks_instructions_test() {
    let chunk = double_chunk(&[], &[Opcode::OP_NEGATE, Opcode::OP_ADD], 3);
    let mut vm = VM::from(chunk);
    assert_eq!(vm.advance(), Some(Opcode::OP_NEGATE));
    assert_eq!(vm.advance(), Some(Opcode::OP_ADD));
    assert_eq!(vm.advance(), None);
}

#[test]
fn traced_run_behaves_the_same_test() {
    let chunk = double_chunk(
        &[1.0, 2.0],
        &[
            Opcode::OP_CONST(0),
            Opcode::OP_CONST(1),
            Opcode::OP_ADD,
            Opcode::OP_RETURN,
        ],
        1,
    );
    let mut vm = VM::from(chunk);
    vm.set_debug(true);
    let (result, report) = run_to_end(&mut vm);
    assert_eq!(result, InterpretResult::Success);
    assert!(matches!(report, Some(Value::Double(b)) if b == 3.0f64.to_bits()));
}

#[test]
fn nested_expression_test() {
    // -((1.2 + 3.4) / 5.6)
    let chunk = double_chunk(
        &[1.2, 3.4, 5.6],
        &[
            Opcode::OP_CONST(0),
            Opcode::OP_CONST(1),
            Opcode::OP_ADD,
            Opcode::OP_CONST(2),
            Opcode::OP_DIVIDE,
            Opcode::OP_NEGATE,
            Opcode::OP_RETURN,
        ],
        0,
    );
    let mut vm = VM::from(chunk);
    let (result, report) = run_to_end(&mut vm);
    assert_eq!(result, InterpretResult::Success);
    let expected = (-((1.2f64 + 3.4f64) / 5.6f64)).to_bits();
    assert!(matches!(report, Some(Value::Double(b)) if b == expected));
}
