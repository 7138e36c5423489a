//! The stack-based virtual machine: fetches instructions from a chunk,
//! maintains a bounded operand stack, and executes each instruction's effect.
//!
//! The whole execution is pinned by a recursive specification, `run_model`:
//! from any instruction pointer and stack it gives the outcome, the final
//! pointer and the final stack. Structural failures (empty program, stack
//! underflow, stack overflow, a fetch or constant lookup past the end) abort
//! with a runtime error; type mismatches and division by zero are absorbed
//! into `Null` values and execution continues. A binary operation on two
//! doubles suspends the machine: `run` hands the two bit patterns out, and
//! `resume` takes the embedder's IEEE 754 result and carries on.

use std::io::Write;

use vstd::prelude::*;

use crate::chunk::Chunk;
use crate::disassemble::disassemble_instruction;
use crate::op::Opcode;
use crate::value::{
    add_model, divide_model, multiply_model, negated_double, sub_model, ArithResult,
    ArithResultModel, Value, ValueModel, DOUBLE_SIGN_BIT,
};

verus! {

/// The three process-level outcomes of interpreting a program.
#[derive(Clone, Copy, Debug, PartialEq, Eq, Structural)]
pub enum InterpretResult {
    Success,
    CompileError,
    RuntimeError,
}

/// What a call to `run` or `resume` comes back with: either a finished
/// execution — carrying the value the `RETURN` instruction reported, if any —
/// or a request that the embedder combine two IEEE 754 doubles, given by the
/// arithmetic opcode and the two operand bit patterns.
pub enum RunOutcome {
    Finished(InterpretResult, Option<Value>),
    DoubleOp(Opcode, u64, u64),
}

/// The mathematical form of a [`RunOutcome`].
pub enum RunOutcomeModel {
    Finished(InterpretResult, Option<ValueModel>),
    DoubleOp(Opcode, u64, u64),
}

impl View for RunOutcome {
    type V = RunOutcomeModel;

    open spec fn view(&self) -> RunOutcomeModel {
        match self {
            RunOutcome::Finished(res, rep) => RunOutcomeModel::Finished(
                *res,
                match rep {
                    Some(v) => Some(v@),
                    None => None,
                },
            ),
            RunOutcome::DoubleOp(op, a, b) => RunOutcomeModel::DoubleOp(*op, *a, *b),
        }
    }
}

/// The value-level effect of one binary arithmetic opcode.
pub open spec fn arith_model(op: Opcode, l: ValueModel, r: ValueModel) -> ArithResultModel
    recommends
        op.is_binary_arith(),
{
    match op {
        Opcode::OP_ADD => add_model(l, r),
        Opcode::OP_SUB => sub_model(l, r),
        Opcode::OP_MULTIPLY => multiply_model(l, r),
        _ => divide_model(l, r),
    }
}

/// Where an execution ends up: the outcome, the instruction pointer after the
/// last fetch, and the remaining operand stack.
pub struct RunEnd {
    pub outcome: RunOutcomeModel,
    pub ip: int,
    pub stack: Seq<ValueModel>,
}

/// A run that aborts with a runtime error at pointer `ip`, leaving `stack`.
pub open spec fn runtime_failure(ip: int, stack: Seq<ValueModel>) -> RunEnd {
    RunEnd { outcome: RunOutcomeModel::Finished(InterpretResult::RuntimeError, None), ip, stack }
}

/// The execution of `ops` against the constant pool `consts` and stack bound
/// `max`, starting at instruction pointer `ip` with operand stack `stack`.
///
/// Instructions carry no jumps, so the pointer only moves forward and the
/// execution always ends: with `RETURN` (reporting the popped top of the
/// stack, or nothing when the stack is empty), with a structural runtime
/// error, or suspended at an arithmetic instruction whose two double operands
/// the embedder must combine — there the pointer still names that instruction
/// and both operands stay on the stack. Every fetch, the failed one past the
/// end included, moves the pointer one past the fetched position.
pub open spec fn run_model(
    ops: Seq<Opcode>,
    consts: Seq<ValueModel>,
    max: nat,
    ip: int,
    stack: Seq<ValueModel>,
) -> RunEnd
    decreases ops.len() - ip,
{
    if !(0 <= ip < ops.len()) {
        runtime_failure(ip + 1, stack)
    } else {
        match ops[ip] {
            Opcode::OP_RETURN => if stack.len() == 0 {
                RunEnd {
                    outcome: RunOutcomeModel::Finished(InterpretResult::Success, None),
                    ip: ip + 1,
                    stack,
                }
            } else {
                RunEnd {
                    outcome: RunOutcomeModel::Finished(
                        InterpretResult::Success,
                        Some(stack.last()),
                    ),
                    ip: ip + 1,
                    stack: stack.drop_last(),
                }
            },
            Opcode::OP_CONST(v) => if stack.len() >= max {
                runtime_failure(ip + 1, stack)
            } else if v >= consts.len() {
                runtime_failure(ip + 1, stack)
            } else {
                run_model(ops, consts, max, ip + 1, stack.push(consts[v as int]))
            },
            Opcode::OP_NEGATE => if stack.len() == 0 {
                runtime_failure(ip + 1, stack)
            } else {
                match stack.last() {
                    ValueModel::Double(b) => run_model(
                        ops,
                        consts,
                        max,
                        ip + 1,
                        stack.update(stack.len() - 1, ValueModel::Double(negated_double(b))),
                    ),
                    _ => runtime_failure(ip + 1, stack),
                }
            },
            op => if stack.len() < 2 {
                runtime_failure(ip + 1, stack)
            } else {
                match arith_model(op, stack[stack.len() - 2], stack[stack.len() - 1]) {
                    ArithResultModel::Done(v) => run_model(
                        ops,
                        consts,
                        max,
                        ip + 1,
                        stack.drop_last().drop_last().push(v),
                    ),
                    ArithResultModel::DoubleOp(a, b) => RunEnd {
                        outcome: RunOutcomeModel::DoubleOp(op, a, b),
                        ip,
                        stack,
                    },
                }
            },
        }
    }
}

/// The virtual machine: the chunk it interprets, the instruction pointer
/// (`None` when there is no program to run), the operand stack with its
/// configured bound, and the trace flag.
pub struct VM {
    chunk: Chunk,
    ip: Option<usize>,
    debug: bool,
    stack: Vec<Value>,
    stack_max: usize,
}

/// Where `run` ends up, at the machine level: `ip` is `None` only when the
/// machine had no program at all.
pub struct VmEnd {
    pub outcome: RunOutcomeModel,
    pub ip: Option<usize>,
    pub stack: Seq<ValueModel>,
}

impl VM {
    /// The chunk under execution.
    pub closed spec fn chunk(&self) -> Chunk {
        self.chunk
    }

    /// The instruction pointer.
    pub closed spec fn ip(&self) -> Option<usize> {
        self.ip
    }

    /// The trace flag.
    pub closed spec fn debug(&self) -> bool {
        self.debug
    }

    /// The operand stack, bottom first.
    pub closed spec fn stack(&self) -> Seq<ValueModel> {
        self.stack.deep_view()
    }

    /// The configured maximum operand-stack depth.
    pub closed spec fn stack_max(&self) -> usize {
        self.stack_max
    }

    /// Validity: the chunk is well-formed. The pointer is unconstrained — a
    /// fetch past the program fails defensively and keeps moving the pointer.
    pub open spec fn wf(&self) -> bool {
        self.chunk().wf()
    }
}

/// What one call to `run` does to a machine: nothing but report a runtime
/// error when there is no program, else exactly what `run_model` says.
pub open spec fn run_spec(vm: VM) -> VmEnd {
    match vm.ip() {
        None => VmEnd {
            outcome: RunOutcomeModel::Finished(InterpretResult::RuntimeError, None),
            ip: None,
            stack: vm.stack(),
        },
        Some(p) => {
            let end = run_model(
                vm.chunk().ops(),
                vm.chunk().consts(),
                vm.stack_max() as nat,
                p as int,
                vm.stack(),
            );
            VmEnd { outcome: end.outcome, ip: Some(end.ip as usize), stack: end.stack }
        },
    }
}

/// Whether the machine stands suspended at a binary double operation: the
/// pointer names an arithmetic instruction whose two operands are doubles the
/// embedder must combine (so, for division, a non-zero divisor).
pub open spec fn awaiting_double(vm: VM) -> bool {
    &&& vm.ip() matches Some(p)
    &&& (p as int) < vm.chunk().ops().len()
    &&& vm.chunk().ops()[vm.ip()->0 as int].is_binary_arith()
    &&& vm.stack().len() >= 2
    &&& arith_model(
        vm.chunk().ops()[vm.ip()->0 as int],
        vm.stack()[vm.stack().len() - 2],
        vm.stack()[vm.stack().len() - 1],
    ) is DoubleOp
}

/// What `resume` does to a machine suspended at a binary double operation:
/// the two operands leave the stack, the supplied bit pattern takes their
/// place as a double, and execution continues past the instruction.
pub open spec fn resume_spec(vm: VM, bits: u64) -> VmEnd
    recommends
        awaiting_double(vm),
{
    let p = vm.ip()->0;
    let stack1 = vm.stack().drop_last().drop_last().push(ValueModel::Double(bits));
    let end = run_model(
        vm.chunk().ops(),
        vm.chunk().consts(),
        vm.stack_max() as nat,
        p as int + 1,
        stack1,
    );
    VmEnd { outcome: end.outcome, ip: Some(end.ip as usize), stack: end.stack }
}

/// A pushed vector's deep view is the deep view with the value's view pushed.
proof fn lemma_deep_view_push(a: Vec<Value>, b: Vec<Value>, x: Value)
    requires
        b@ == a@.push(x),
    ensures
        b.deep_view() == a.deep_view().push(x@),
{
    assert forall|i: int| 0 <= i < b.deep_view().len() implies #[trigger] b.deep_view()[i]
        == a.deep_view().push(x@)[i] by {
        if i < a@.len() {
            assert(b.deep_view()[i] == a@[i].deep_view());
            assert(a.deep_view()[i] == a@[i].deep_view());
        }
    }
    assert(b.deep_view() =~= a.deep_view().push(x@));
}

/// A popped vector's deep view is the deep view without its last element.
proof fn lemma_deep_view_drop_last(a: Vec<Value>, b: Vec<Value>)
    requires
        a@.len() > 0,
        b@ == a@.drop_last(),
    ensures
        b.deep_view() == a.deep_view().drop_last(),
        a.deep_view().len() > 0,
        a.deep_view().last() == a@.last()@,
{
    assert forall|i: int| 0 <= i < b.deep_view().len() implies #[trigger] b.deep_view()[i]
        == a.deep_view().drop_last()[i] by {
        assert(b.deep_view()[i] == b@[i].deep_view());
        assert(a.deep_view()[i] == a@[i].deep_view());
    }
    assert(b.deep_view() =~= a.deep_view().drop_last());
}

/// Relies on std::io::Stdout::write_fmt (through `writeln!`): prints one line
/// of diagnostic trace output to standard output.
#[verifier::external_body]
fn emit_line(s: &str) {
    let _ = writeln!(std::io::stdout(), "{}", s);
}

impl VM {
    /// Prints the operand stack and, when it is renderable, the disassembly of
    /// the instruction about to execute. Pure tracing: observes, never alters.
    fn trace_state(&self, cur: usize)
        requires
            self.wf(),
    {
        let mut line = String::from_str("stack:[");
        let len = self.stack.len();
        let mut i: usize = 0;
        while i < len
            invariant
                i <= len,
                len == self.stack@.len(),
            decreases len - i,
        {
            if i > 0 {
                line.append(", ");
            }
            let t = self.stack[i].to_string();
            line.append(t.as_str());
            i = i + 1;
        }
        line.append("]");
        emit_line(line.as_str());
        if cur < self.chunk.op_len() {
            match self.chunk.get_op(cur) {
                Some(Opcode::OP_CONST(v)) => {
                    match self.chunk.get_val(v) {
                        Some(_) => {
                            let text = disassemble_instruction(&self.chunk, cur);
                            emit_line(text.as_str());
                        },
                        None => {},
                    }
                },
                Some(_) => {
                    let text = disassemble_instruction(&self.chunk, cur);
                    emit_line(text.as_str());
                },
                None => {},
            }
        }
    }

    /// A machine for `chunk`, with an empty stack, the default stack bound of
    /// 128 slots, tracing off, and the pointer at the first instruction — or
    /// already halted when the chunk has none.
    pub fn from(chunk: Chunk) -> (vm: VM)
        requires
            chunk.wf(),
        ensures
            vm.wf(),
            vm.chunk() == chunk,
            vm.ip() == (if chunk.ops().len() > 0 {
                Some(0usize)
            } else {
                None::<usize>
            }),
            vm.stack() == Seq::<ValueModel>::empty(),
            vm.stack_max() == 128usize,
            !vm.debug(),
    {
        let n = chunk.op_len();
        let vm = VM {
            ip: if n > 0 {
                Some(0usize)
            } else {
                None
            },
            chunk,
            debug: false,
            stack: Vec::new(),
            stack_max: 128,
        };
        proof {
            assert(vm.stack() =~= Seq::<ValueModel>::empty());
        }
        vm
    }

    /// Reconfigures the maximum operand-stack depth.
    pub fn set_stack_max(&mut self, size: usize)
        ensures
            final(self).stack_max() == size,
            final(self).chunk() == old(self).chunk(),
            final(self).ip() == old(self).ip(),
            final(self).stack() == old(self).stack(),
            final(self).debug() == old(self).debug(),
    {
        self.stack_max = size;
    }

    /// Replaces the chunk and resets the pointer: to the first instruction of
    /// the new chunk, or to the halted state when it has none. The operand
    /// stack keeps its contents.
    pub fn set_chunk(&mut self, c: Chunk)
        requires
            c.wf(),
        ensures
            final(self).wf(),
            final(self).chunk() == c,
            final(self).ip() == (if c.ops().len() > 0 {
                Some(0usize)
            } else {
                None::<usize>
            }),
            final(self).stack() == old(self).stack(),
            final(self).stack_max() == old(self).stack_max(),
            final(self).debug() == old(self).debug(),
    {
        self.chunk = c;
        if self.chunk.op_len() > 0 {
            self.ip = Some(0);
        } else {
            self.ip = None;
        }
    }

    /// Switches instruction tracing on or off.
    pub fn set_debug(&mut self, f: bool)
        ensures
            final(self).debug() == f,
            final(self).chunk() == old(self).chunk(),
            final(self).ip() == old(self).ip(),
            final(self).stack() == old(self).stack(),
            final(self).stack_max() == old(self).stack_max(),
    {
        self.debug = f;
    }

    /// Fetches the instruction at the pointer and advances the pointer past
    /// the fetched position, whether or not the fetch succeeded; `None`, with
    /// the pointer unmoved, only when the machine is halted. A pointer at the
    /// top of the machine word cannot move further, so that one value is left
    /// out, as the increment would overflow there.
    pub fn advance(&mut self) -> (r: Option<Opcode>)
        requires
            old(self).ip() matches Some(p) ==> p < usize::MAX,
        ensures
            final(self).chunk() == old(self).chunk(),
            final(self).stack() == old(self).stack(),
            final(self).stack_max() == old(self).stack_max(),
            final(self).debug() == old(self).debug(),
            match old(self).ip() {
                None => r is None && final(self).ip() is None,
                Some(p) => final(self).ip() == Some((p + 1) as usize) && r == (if (
                p as int) < old(self).chunk().ops().len() {
                    Some(old(self).chunk().ops()[p as int])
                } else {
                    None
                }),
            },
    {
        match self.ip {
            Some(p) => {
                let r = self.chunk.get_op(p);
                self.ip = Some(p + 1);
                r
            },
            None => None,
        }
    }

    /// Interprets the chunk from the current pointer to completion: until
    /// `RETURN` reports, a structural failure aborts with a runtime error, or
    /// the machine suspends at a binary double operation for the embedder.
    #[verifier::loop_isolation(false)]
    pub fn run(&mut self) -> (r: RunOutcome)
        requires
            old(self).wf(),
            // Machine limits: the pointer moves past every fetched position,
            // so it must stay incrementable — past the last instruction, and
            // from wherever it stands now.
            old(self).chunk().ops().len() < usize::MAX,
            old(self).ip() matches Some(p) ==> p < usize::MAX,
        ensures
            final(self).wf(),
            final(self).chunk() == old(self).chunk(),
            final(self).stack_max() == old(self).stack_max(),
            final(self).debug() == old(self).debug(),
            r@ == run_spec(*old(self)).outcome,
            final(self).ip() == run_spec(*old(self)).ip,
            final(self).stack() == run_spec(*old(self)).stack,
    {
        let ghost orig = *old(self);
        let mut cur: usize;
        match self.ip {
            None => {
                return RunOutcome::Finished(InterpretResult::RuntimeError, None);
            },
            Some(p) => {
                cur = p;
            },
        }
        let n = self.chunk.op_len();
        let ghost ops = orig.chunk().ops();
        let ghost consts = orig.chunk().consts();
        let ghost max = orig.stack_max() as nat;
        loop
            invariant
                self.wf(),
                self.chunk() == orig.chunk(),
                self.stack_max() == orig.stack_max(),
                self.debug() == orig.debug(),
                self.ip() == Some(cur),
                cur < usize::MAX,
                n == ops.len(),
                n < usize::MAX,
                ops == orig.chunk().ops(),
                consts == orig.chunk().consts(),
                max == orig.stack_max() as nat,
                orig.ip() is Some,
                run_model(ops, consts, max, cur as int, self.stack()) == run_model(
                    ops,
                    consts,
                    max,
                    orig.ip()->0 as int,
                    orig.stack(),
                ),
            decreases n - cur,
        {
            let ghost stack0 = self.stack();
            if self.debug {
                self.trace_state(cur);
            }
            let op = match self.chunk.get_op(cur) {
                None => {
                    // The pointer is past the program: a defensive fetch
                    // failure; the pointer still moves past the attempt.
                    self.ip = Some(cur + 1);
                    return RunOutcome::Finished(InterpretResult::RuntimeError, None);
                },
                Some(op) => op,
            };
            let next = cur + 1;
            match op {
                Opcode::OP_RETURN => {
                    self.ip = Some(next);
                    if self.stack.len() == 0 {
                        return RunOutcome::Finished(InterpretResult::Success, None);
                    } else {
                        let ghost a = self.stack;
                        let v = match self.stack.pop() {
                            Some(v) => v,
                            None => vstd::pervasive::unreached(),
                        };
                        proof {
                            lemma_deep_view_drop_last(a, self.stack);
                        }
                        return RunOutcome::Finished(InterpretResult::Success, Some(v));
                    }
                },
                Opcode::OP_CONST(vidx) => {
                    self.ip = Some(next);
                    if self.stack.len() >= self.stack_max {
                        return RunOutcome::Finished(InterpretResult::RuntimeError, None);
                    }
                    match self.chunk.get_val(vidx) {
                        None => {
                            return RunOutcome::Finished(InterpretResult::RuntimeError, None);
                        },
                        Some(val) => {
                            let c = val.clone();
                            let ghost a = self.stack;
                            self.stack.push(c);
                            proof {
                                lemma_deep_view_push(a, self.stack, c);
                                assert(self.stack() == stack0.push(consts[vidx as int]));
                            }
                        },
                    }
                },
                Opcode::OP_NEGATE => {
                    self.ip = Some(next);
                    if self.stack.len() == 0 {
                        return RunOutcome::Finished(InterpretResult::RuntimeError, None);
                    }
                    let ghost a = self.stack;
                    let top = match self.stack.pop() {
                        Some(v) => v,
                        None => vstd::pervasive::unreached(),
                    };
                    proof {
                        lemma_deep_view_drop_last(a, self.stack);
                    }
                    match top {
                        Value::Double(b) => {
                            let ghost a2 = self.stack;
                            self.stack.push(Value::Double(b ^ DOUBLE_SIGN_BIT));
                            proof {
                                lemma_deep_view_push(
                                    a2,
                                    self.stack,
                                    Value::Double(b ^ DOUBLE_SIGN_BIT),
                                );
                                assert(self.stack() =~= stack0.update(
                                    stack0.len() - 1,
                                    ValueModel::Double(negated_double(b)),
                                ));
                            }
                        },
                        other => {
                            let ghost a2 = self.stack;
                            self.stack.push(other);
                            proof {
                                lemma_deep_view_push(a2, self.stack, other);
                                assert(self.stack() =~= stack0);
                            }
                            return RunOutcome::Finished(InterpretResult::RuntimeError, None);
                        },
                    }
                },
                _ => {
                    // One of the four binary arithmetic opcodes.
                    if self.stack.len() < 2 {
                        self.ip = Some(next);
                        return RunOutcome::Finished(InterpretResult::RuntimeError, None);
                    }
                    let ghost a = self.stack;
                    let right = match self.stack.pop() {
                        Some(v) => v,
                        None => vstd::pervasive::unreached(),
                    };
                    proof {
                        lemma_deep_view_drop_last(a, self.stack);
                    }
                    let ghost a2 = self.stack;
                    let left = match self.stack.pop() {
                        Some(v) => v,
                        None => vstd::pervasive::unreached(),
                    };
                    proof {
                        lemma_deep_view_drop_last(a2, self.stack);
                        assert(left@ == stack0[stack0.len() - 2]);
                        assert(right@ == stack0[stack0.len() - 1]);
                    }
                    let eff = match op {
                        Opcode::OP_ADD => left.add(&right),
                        Opcode::OP_SUB => left.sub(&right),
                        Opcode::OP_MULTIPLY => left.multiply(&right),
                        _ => left.divide(&right),
                    };
                    proof {
                        assert(eff@ == arith_model(op, left@, right@));
                    }
                    match eff {
                        ArithResult::Done(v) => {
                            let ghost a3 = self.stack;
                            self.stack.push(v);
                            self.ip = Some(next);
                            proof {
                                lemma_deep_view_push(a3, self.stack, v);
                                assert(self.stack() == stack0.drop_last().drop_last().push(v@));
                            }
                        },
                        ArithResult::DoubleOp(x, y) => {
                            let ghost a3 = self.stack;
                            self.stack.push(left);
                            let ghost a4 = self.stack;
                            self.stack.push(right);
                            proof {
                                lemma_deep_view_push(a3, a4, left);
                                lemma_deep_view_push(a4, self.stack, right);
                                assert(self.stack() =~= stack0);
                            }
                            return RunOutcome::DoubleOp(op, x, y);
                        },
                    }
                },
            }
            cur = next;
        }
    }

    /// Supplies the IEEE 754 result of the binary double operation the machine
    /// suspended on, and continues execution. On a machine that is not
    /// suspended at such an operation, reports a runtime error and changes
    /// nothing.
    pub fn resume(&mut self, bits: u64) -> (r: RunOutcome)
        requires
            old(self).wf(),
            // Machine limit, as for `run`: execution continues past the
            // suspended instruction, so the pointer must stay incrementable.
            old(self).chunk().ops().len() < usize::MAX,
        ensures
            final(self).wf(),
            final(self).chunk() == old(self).chunk(),
            final(self).stack_max() == old(self).stack_max(),
            final(self).debug() == old(self).debug(),
            awaiting_double(*old(self)) ==> {
                &&& r@ == resume_spec(*old(self), bits).outcome
                &&& final(self).ip() == resume_spec(*old(self), bits).ip
                &&& final(self).stack() == resume_spec(*old(self), bits).stack
            },
            !awaiting_double(*old(self)) ==> {
                &&& r@ == RunOutcomeModel::Finished(InterpretResult::RuntimeError, None)
                &&& final(self).ip() == old(self).ip()
                &&& final(self).stack() == old(self).stack()
            },
    {
        let ghost orig = *old(self);
        let p = match self.ip {
            None => {
                return RunOutcome::Finished(InterpretResult::RuntimeError, None);
            },
            Some(p) => p,
        };
        let n = self.chunk.op_len();
        if p >= n {
            return RunOutcome::Finished(InterpretResult::RuntimeError, None);
        }
        let op = match self.chunk.get_op(p) {
            None => vstd::pervasive::unreached(),
            Some(op) => op,
        };
        match op {
            Opcode::OP_ADD | Opcode::OP_SUB | Opcode::OP_MULTIPLY | Opcode::OP_DIVIDE => {},
            _ => {
                return RunOutcome::Finished(InterpretResult::RuntimeError, None);
            },
        }
        if self.stack.len() < 2 {
            return RunOutcome::Finished(InterpretResult::RuntimeError, None);
        }
        let ghost stack0 = self.stack();
        let ghost a = self.stack;
        let right = match self.stack.pop() {
            Some(v) => v,
            None => vstd::pervasive::unreached(),
        };
        proof {
            lemma_deep_view_drop_last(a, self.stack);
        }
        let ghost a2 = self.stack;
        let left = match self.stack.pop() {
            Some(v) => v,
            None => vstd::pervasive::unreached(),
        };
        proof {
            lemma_deep_view_drop_last(a2, self.stack);
            assert(left@ == stack0[stack0.len() - 2]);
            assert(right@ == stack0[stack0.len() - 1]);
        }
        let eff = match op {
            Opcode::OP_ADD => left.add(&right),
            Opcode::OP_SUB => left.sub(&right),
            Opcode::OP_MULTIPLY => left.multiply(&right),
            _ => left.divide(&right),
        };
        proof {
            assert(eff@ == arith_model(op, left@, right@));
        }
        match eff {
            ArithResult::Done(_) => {
                // Not suspended: the operands were not two combinable doubles.
                let ghost a3 = self.stack;
                self.stack.push(left);
                let ghost a4 = self.stack;
                self.stack.push(right);
                proof {
                    lemma_deep_view_push(a3, a4, left);
                    lemma_deep_view_push(a4, self.stack, right);
                    assert(self.stack() =~= stack0);
                }
                RunOutcome::Finished(InterpretResult::RuntimeError, None)
            },
            ArithResult::DoubleOp(_, _) => {
                let ghost a3 = self.stack;
                self.stack.push(Value::Double(bits));
                self.ip = Some(p + 1);
                proof {
                    lemma_deep_view_push(a3, self.stack, Value::Double(bits));
                    assert(self.stack() == stack0.drop_last().drop_last().push(
                        ValueModel::Double(bits),
                    ));
                    assert(awaiting_double(orig));
                }
                self.run()
            },
        }
    }
}

/// A suspended execution always suspends inside the program, at a binary
/// arithmetic instruction whose reported operands stand on top of the stack
/// as combinable doubles: whatever `run` suspends on, `resume` can carry on.
pub proof fn lemma_suspension_shape(
    ops: Seq<Opcode>,
    consts: Seq<ValueModel>,
    max: nat,
    ip: int,
    stack: Seq<ValueModel>,
)
    requires
        0 <= ip,
        run_model(ops, consts, max, ip, stack).outcome is DoubleOp,
    ensures
        ({
            let end = run_model(ops, consts, max, ip, stack);
            &&& 0 <= end.ip < ops.len()
            &&& ops[end.ip].is_binary_arith()
            &&& end.stack.len() >= 2
            &&& (end.outcome matches RunOutcomeModel::DoubleOp(op, a, b) ==> op == ops[end.ip]
                && arith_model(op, end.stack[end.stack.len() - 2], end.stack[end.stack.len() - 1])
                == ArithResultModel::DoubleOp(a, b))
        }),
    decreases ops.len() - ip,
{
    if 0 <= ip < ops.len() {
        match ops[ip] {
            Opcode::OP_RETURN => {},
            Opcode::OP_CONST(v) => {
                if stack.len() < max && v < consts.len() {
                    lemma_suspension_shape(ops, consts, max, ip + 1, stack.push(consts[v as int]));
                }
            },
            Opcode::OP_NEGATE => {
                if stack.len() > 0 {
                    match stack.last() {
                        ValueModel::Double(b) => {
                            lemma_suspension_shape(
                                ops,
                                consts,
                                max,
                                ip + 1,
                                stack.update(
                                    stack.len() - 1,
                                    ValueModel::Double(negated_double(b)),
                                ),
                            );
                        },
                        _ => {},
                    }
                }
            },
            op => {
                if stack.len() >= 2 {
                    match arith_model(op, stack[stack.len() - 2], stack[stack.len() - 1]) {
                        ArithResultModel::Done(v) => {
                            lemma_suspension_shape(
                                ops,
                                consts,
                                max,
                                ip + 1,
                                stack.drop_last().drop_last().push(v),
                            );
                        },
                        ArithResultModel::DoubleOp(_, _) => {},
                    }
                }
            },
        }
    }
}

/// A machine that `run` left suspended — same chunk and stack bound, with the
/// pointer and stack where `run` ended — stands awaiting the reported double
/// operation, so `resume` continues it.
pub proof fn lemma_run_suspension_awaits(vm: VM, vm2: VM)
    requires
        vm.wf(),
        vm.ip() is Some,
        run_spec(vm).outcome is DoubleOp,
        vm2.chunk() == vm.chunk(),
        vm2.stack_max() == vm.stack_max(),
        vm2.ip() == run_spec(vm).ip,
        vm2.stack() == run_spec(vm).stack,
    ensures
        awaiting_double(vm2),
{
    let ops = vm.chunk().ops();
    let consts = vm.chunk().consts();
    let max = vm.stack_max() as nat;
    let p = vm.ip()->0;
    let end = run_model(ops, consts, max, p as int, vm.stack());
    lemma_suspension_shape(ops, consts, max, p as int, vm.stack());
    vm.chunk().lemma_ops_len_bound();
    assert((end.ip as usize) as int == end.ip);
}

/// A machine over a chunk with no instructions reports a runtime error from
/// `run` — it never silently succeeds — and changes nothing.
pub proof fn lemma_empty_program_fails(vm: VM)
    requires
        vm.wf(),
        vm.chunk().ops().len() == 0,
    ensures
        run_spec(vm).outcome == RunOutcomeModel::Finished(
            InterpretResult::RuntimeError,
            None::<ValueModel>,
        ),
        run_spec(vm).stack == vm.stack(),
{
}

/// `CONST(i)` followed by `RETURN` on an otherwise empty machine reports
/// exactly that constant and finishes successfully with an empty stack.
pub proof fn lemma_const_then_return_reports_constant(vm: VM, v: ValueModel)
    requires
        vm.wf(),
        vm.ip() == Some(0usize),
        vm.chunk().ops() == seq![Opcode::OP_CONST(0usize), Opcode::OP_RETURN],
        vm.chunk().consts() == seq![v],
        vm.stack().len() == 0,
        vm.stack_max() >= 1,
    ensures
        run_spec(vm).outcome == RunOutcomeModel::Finished(InterpretResult::Success, Some(v)),
        run_spec(vm).stack =~= Seq::<ValueModel>::empty(),
{
    let ops = vm.chunk().ops();
    let consts = vm.chunk().consts();
    let max = vm.stack_max() as nat;
    let s0 = vm.stack();
    let s1 = s0.push(v);
    assert(ops[0] == Opcode::OP_CONST(0usize));
    assert(consts[0] == v);
    assert(run_model(ops, consts, max, 0, s0) == run_model(ops, consts, max, 1, s1));
    assert(ops[1] == Opcode::OP_RETURN);
    assert(s1.last() == v);
    assert(run_model(ops, consts, max, 1, s1).outcome == RunOutcomeModel::Finished(
        InterpretResult::Success,
        Some(v),
    ));
    assert(s1.drop_last() =~= s0);
}

/// `CONST(a); CONST(b); op; RETURN` over two double constants suspends the
/// machine with exactly the two operand bit patterns on the stack. With
/// `lemma_resume_reports_supplied_double`, and the embedder supplying the
/// IEEE 754 sum, this is the arithmetic law for `ADD` — and likewise for the
/// other three operations on combinable operands.
pub proof fn lemma_double_op_defers_to_embedder(vm: VM, a: u64, b: u64, op: Opcode)
    requires
        vm.wf(),
        vm.ip() == Some(0usize),
        op.is_binary_arith(),
        vm.chunk().ops() == seq![Opcode::OP_CONST(0usize), Opcode::OP_CONST(1usize), op, Opcode::OP_RETURN],
        vm.chunk().consts() == seq![ValueModel::Double(a), ValueModel::Double(b)],
        vm.stack().len() == 0,
        vm.stack_max() >= 2,
        op is OP_DIVIDE ==> !crate::value::is_zero_double(b),
    ensures
        run_spec(vm).outcome == RunOutcomeModel::DoubleOp(op, a, b),
        run_spec(vm).ip == Some(2usize),
        run_spec(vm).stack =~= seq![ValueModel::Double(a), ValueModel::Double(b)],
{
    let ops = vm.chunk().ops();
    let consts = vm.chunk().consts();
    let max = vm.stack_max() as nat;
    let s0 = vm.stack();
    let s1 = s0.push(ValueModel::Double(a));
    let s2 = s1.push(ValueModel::Double(b));
    assert(ops[0] == Opcode::OP_CONST(0usize));
    assert(ops[1] == Opcode::OP_CONST(1usize));
    assert(ops[2] == op);
    assert(ops[3] == Opcode::OP_RETURN);
    assert(run_model(ops, consts, max, 0, s0) == run_model(ops, consts, max, 1, s1));
    assert(run_model(ops, consts, max, 1, s1) == run_model(ops, consts, max, 2, s2));
    assert(s2[s2.len() - 2] == ValueModel::Double(a));
    assert(s2[s2.len() - 1] == ValueModel::Double(b));
    assert(arith_model(op, ValueModel::Double(a), ValueModel::Double(b))
        == ArithResultModel::DoubleOp(a, b));
    assert(run_model(ops, consts, max, 2, s2).outcome == RunOutcomeModel::DoubleOp(op, a, b));
    assert(run_model(ops, consts, max, 2, s2).ip == 2);
    assert(run_model(ops, consts, max, 2, s2).stack == s2);
    assert(s2 =~= seq![ValueModel::Double(a), ValueModel::Double(b)]);
}

/// A machine suspended by `lemma_double_op_defers_to_embedder` — pointer at
/// the arithmetic instruction, the two double operands on the stack — accepts
/// any embedder result through `resume` and reports exactly that result as a
/// double, finishing successfully with an empty stack.
pub proof fn lemma_resume_reports_supplied_double(vm: VM, a: u64, b: u64, op: Opcode, r: u64)
    requires
        vm.wf(),
        vm.ip() == Some(2usize),
        op.is_binary_arith(),
        vm.chunk().ops() == seq![Opcode::OP_CONST(0usize), Opcode::OP_CONST(1usize), op, Opcode::OP_RETURN],
        vm.chunk().consts() == seq![ValueModel::Double(a), ValueModel::Double(b)],
        vm.stack() == seq![ValueModel::Double(a), ValueModel::Double(b)],
        op is OP_DIVIDE ==> !crate::value::is_zero_double(b),
    ensures
        awaiting_double(vm),
        resume_spec(vm, r).outcome == RunOutcomeModel::Finished(
            InterpretResult::Success,
            Some(ValueModel::Double(r)),
        ),
        resume_spec(vm, r).stack =~= Seq::<ValueModel>::empty(),
{
    let ops = vm.chunk().ops();
    let consts = vm.chunk().consts();
    let max = vm.stack_max() as nat;
    let s2 = vm.stack();
    assert(ops[2] == op);
    assert(ops[3] == Opcode::OP_RETURN);
    assert(s2[s2.len() - 2] == ValueModel::Double(a));
    assert(s2[s2.len() - 1] == ValueModel::Double(b));
    assert(arith_model(op, ValueModel::Double(a), ValueModel::Double(b))
        == ArithResultModel::DoubleOp(a, b));
    let s3 = s2.drop_last().drop_last().push(ValueModel::Double(r));
    assert(s3.len() == 1);
    assert(s3.last() == ValueModel::Double(r));
    assert(run_model(ops, consts, max, 3, s3).outcome == RunOutcomeModel::Finished(
        InterpretResult::Success,
        Some(ValueModel::Double(r)),
    ));
    assert(s3.drop_last() =~= Seq::<ValueModel>::empty());
}

/// `CONST(a); CONST(b); DIVIDE; RETURN` with a zero divisor reports `Null`,
/// never an error: division by zero is absorbed at the value level.
pub proof fn lemma_divide_by_zero_reports_null(vm: VM, a: u64, b: u64)
    requires
        vm.wf(),
        vm.ip() == Some(0usize),
        vm.chunk().ops() == seq![Opcode::OP_CONST(0usize), Opcode::OP_CONST(1usize), Opcode::OP_DIVIDE, Opcode::OP_RETURN],
        vm.chunk().consts() == seq![ValueModel::Double(a), ValueModel::Double(b)],
        vm.stack().len() == 0,
        vm.stack_max() >= 2,
        crate::value::is_zero_double(b),
    ensures
        run_spec(vm).outcome == RunOutcomeModel::Finished(
            InterpretResult::Success,
            Some(ValueModel::Null),
        ),
{
    let ops = vm.chunk().ops();
    let consts = vm.chunk().consts();
    let max = vm.stack_max() as nat;
    let s0 = vm.stack();
    let s1 = s0.push(ValueModel::Double(a));
    let s2 = s1.push(ValueModel::Double(b));
    assert(ops[0] == Opcode::OP_CONST(0usize));
    assert(ops[1] == Opcode::OP_CONST(1usize));
    assert(ops[2] == Opcode::OP_DIVIDE);
    assert(ops[3] == Opcode::OP_RETURN);
    assert(run_model(ops, consts, max, 0, s0) == run_model(ops, consts, max, 1, s1));
    assert(run_model(ops, consts, max, 1, s1) == run_model(ops, consts, max, 2, s2));
    assert(s2[s2.len() - 2] == ValueModel::Double(a));
    assert(s2[s2.len() - 1] == ValueModel::Double(b));
    assert(arith_model(Opcode::OP_DIVIDE, ValueModel::Double(a), ValueModel::Double(b))
        == ArithResultModel::Done(ValueModel::Null));
    let s3 = s2.drop_last().drop_last().push(ValueModel::Null);
    assert(run_model(ops, consts, max, 2, s2) == run_model(ops, consts, max, 3, s3));
    assert(s3.len() == 1);
    assert(s3.last() == ValueModel::Null);
}

/// `CONST(Double); CONST(Str); ADD; RETURN` reports `Null`: a type mismatch is
/// absorbed at the value level, never raised as a machine error.
pub proof fn lemma_type_mismatch_reports_null(vm: VM, a: u64, s: Seq<char>)
    requires
        vm.wf(),
        vm.ip() == Some(0usize),
        vm.chunk().ops() == seq![Opcode::OP_CONST(0usize), Opcode::OP_CONST(1usize), Opcode::OP_ADD, Opcode::OP_RETURN],
        vm.chunk().consts() == seq![ValueModel::Double(a), ValueModel::Str(s)],
        vm.stack().len() == 0,
        vm.stack_max() >= 2,
    ensures
        run_spec(vm).outcome == RunOutcomeModel::Finished(
            InterpretResult::Success,
            Some(ValueModel::Null),
        ),
{
    let ops = vm.chunk().ops();
    let consts = vm.chunk().consts();
    let max = vm.stack_max() as nat;
    let s0 = vm.stack();
    let s1 = s0.push(ValueModel::Double(a));
    let s2 = s1.push(ValueModel::Str(s));
    assert(ops[0] == Opcode::OP_CONST(0usize));
    assert(ops[1] == Opcode::OP_CONST(1usize));
    assert(ops[2] == Opcode::OP_ADD);
    assert(ops[3] == Opcode::OP_RETURN);
    assert(run_model(ops, consts, max, 0, s0) == run_model(ops, consts, max, 1, s1));
    assert(run_model(ops, consts, max, 1, s1) == run_model(ops, consts, max, 2, s2));
    assert(s2[s2.len() - 2] == ValueModel::Double(a));
    assert(s2[s2.len() - 1] == ValueModel::Str(s));
    assert(arith_model(Opcode::OP_ADD, ValueModel::Double(a), ValueModel::Str(s))
        == ArithResultModel::Done(ValueModel::Null));
    let s3 = s2.drop_last().drop_last().push(ValueModel::Null);
    assert(run_model(ops, consts, max, 2, s2) == run_model(ops, consts, max, 3, s3));
    assert(s3.len() == 1);
    assert(s3.last() == ValueModel::Null);
}

/// A program consisting of a single arithmetic instruction underflows the
/// empty stack and reports a runtime error — it never gets further.
pub proof fn lemma_underflow_is_runtime_error(vm: VM, op: Opcode)
    requires
        vm.wf(),
        vm.ip() == Some(0usize),
        op.is_binary_arith(),
        vm.chunk().ops() == seq![op],
        vm.stack().len() < 2,
    ensures
        run_spec(vm).outcome == RunOutcomeModel::Finished(
            InterpretResult::RuntimeError,
            None::<ValueModel>,
        ),
{
    let ops = vm.chunk().ops();
    assert(ops[0] == op);
}

/// `CONST(b); NEGATE; NEGATE; RETURN` reports exactly the original double: the
/// round-trip law for negation, lifted to the machine.
pub proof fn lemma_negate_twice_reports_original(vm: VM, b: u64)
    requires
        vm.wf(),
        vm.ip() == Some(0usize),
        vm.chunk().ops() == seq![Opcode::OP_CONST(0usize), Opcode::OP_NEGATE, Opcode::OP_NEGATE, Opcode::OP_RETURN],
        vm.chunk().consts() == seq![ValueModel::Double(b)],
        vm.stack().len() == 0,
        vm.stack_max() >= 1,
    ensures
        run_spec(vm).outcome == RunOutcomeModel::Finished(
            InterpretResult::Success,
            Some(ValueModel::Double(b)),
        ),
{
    let ops = vm.chunk().ops();
    let consts = vm.chunk().consts();
    let max = vm.stack_max() as nat;
    let s0 = vm.stack();
    let s1 = s0.push(ValueModel::Double(b));
    assert(ops[0] == Opcode::OP_CONST(0usize));
    assert(ops[1] == Opcode::OP_NEGATE);
    assert(ops[2] == Opcode::OP_NEGATE);
    assert(ops[3] == Opcode::OP_RETURN);
    assert(run_model(ops, consts, max, 0, s0) == run_model(ops, consts, max, 1, s1));
    let n1 = negated_double(b);
    let s2 = s1.update(s1.len() - 1, ValueModel::Double(n1));
    assert(s1.last() == ValueModel::Double(b));
    assert(run_model(ops, consts, max, 1, s1) == run_model(ops, consts, max, 2, s2));
    let n2 = negated_double(n1);
    let s3 = s2.update(s2.len() - 1, ValueModel::Double(n2));
    assert(s2.last() == ValueModel::Double(n1));
    assert(run_model(ops, consts, max, 2, s2) == run_model(ops, consts, max, 3, s3));
    crate::value::lemma_double_negation_involution(b);
    assert(s3.last() == ValueModel::Double(b));
    assert(run_model(ops, consts, max, 3, s3).outcome == RunOutcomeModel::Finished(
        InterpretResult::Success,
        Some(ValueModel::Double(b)),
    ));
}

} // verus!
