//! The closed instruction set of the virtual machine.

use vstd::prelude::*;

verus! {

/// One instruction of a chunk. `OP_CONST` carries the index of a constant in
/// the chunk's constant pool; every other opcode is a bare tag.
#[allow(non_camel_case_types)]
#[derive(Clone, Copy, Debug, PartialEq, Eq, Structural)]
pub enum Opcode {
    OP_RETURN,
    OP_CONST(usize),
    OP_NEGATE,
    OP_ADD,
    OP_SUB,
    OP_MULTIPLY,
    OP_DIVIDE,
}

impl Opcode {
    /// The four opcodes that pop two operands and push one result.
    pub open spec fn is_binary_arith(self) -> bool {
        self is OP_ADD || self is OP_SUB || self is OP_MULTIPLY || self is OP_DIVIDE
    }
}

} // verus!
