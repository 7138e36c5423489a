//! A pure, read-only disassembler: renders a chunk's instructions as
//! line-oriented diagnostic text. Each rendered line holds the source line (or
//! a continuation marker when it repeats the previous instruction's line), the
//! four-column offset, and the mnemonic with its operand.

use vstd::prelude::*;
use vstd::pervasive::unreached;

use crate::chunk::Chunk;
use crate::op::Opcode;
use crate::render::{padded4, padded4_string};
use crate::value::value_text;

verus! {

/// The marker printed in place of a line number that repeats the previous
/// instruction's line.
pub open spec fn continuation_marker() -> Seq<char> {
    "   |"@
}

/// The line column of the instruction at `offset`: the continuation marker
/// when the previous instruction came from the same source line, else the
/// four-column line number.
pub open spec fn line_prefix_text(c: Chunk, offset: int) -> Seq<char> {
    if offset > 0 && c.lines()[offset - 1] == c.lines()[offset] {
        continuation_marker()
    } else {
        padded4(c.lines()[offset] as nat)
    }
}

/// The mnemonic of a bare opcode.
pub open spec fn mnemonic_text(op: Opcode) -> Seq<char> {
    match op {
        Opcode::OP_RETURN => "OP_RETURN"@,
        Opcode::OP_CONST(_) => "OP_CONST"@,
        Opcode::OP_NEGATE => "OP_NEGATE"@,
        Opcode::OP_ADD => "OP_ADD"@,
        Opcode::OP_SUB => "OP_SUBTRACT"@,
        Opcode::OP_MULTIPLY => "OP_MULTIPLY"@,
        Opcode::OP_DIVIDE => "OP_DIVIDE"@,
    }
}

/// The mnemonic-and-operand column of the instruction at `offset`: `OP_CONST`
/// is followed by the diagnostic text of its constant.
pub open spec fn op_text(c: Chunk, offset: int) -> Seq<char> {
    match c.ops()[offset] {
        Opcode::OP_CONST(v) => "OP_CONST "@ + value_text(c.consts()[v as int]),
        op => mnemonic_text(op),
    }
}

/// One full rendered line of the listing.
pub open spec fn instr_text(c: Chunk, offset: int) -> Seq<char> {
    line_prefix_text(c, offset) + " "@ + padded4(offset as nat) + "$ "@ + op_text(c, offset)
        + ","@
}

/// Whether the instruction at `offset` only names constants the pool holds.
pub open spec fn operand_in_range(c: Chunk, offset: int) -> bool {
    c.ops()[offset] matches Opcode::OP_CONST(v) ==> (v as int) < c.consts().len()
}

/// The header line of a listing labelled `name`.
pub open spec fn header_text(name: Seq<char>) -> Seq<char> {
    "====$ "@ + name + " $===="@
}

/// The footer line of a listing.
pub open spec fn footer_text() -> Seq<char> {
    "====$ over $===="@
}

/// The whole listing of a chunk: header, one line per instruction, footer.
pub open spec fn listing_text(c: Chunk, name: Seq<char>) -> Seq<Seq<char>> {
    Seq::new(
        c.ops().len() + 2,
        |i: int|
            if i == 0 {
                header_text(name)
            } else if i == c.ops().len() + 1 {
                footer_text()
            } else {
                instr_text(c, i - 1)
            },
    )
}

/// Renders the single instruction at `offset` as one line of diagnostic text.
pub fn disassemble_instruction(chunk: &Chunk, offset: usize) -> (r: String)
    requires
        chunk.wf(),
        (offset as int) < chunk.ops().len(),
        operand_in_range(*chunk, offset as int),
    ensures
        r@ == instr_text(*chunk, offset as int),
{
    proof {
        reveal_strlit("   |");
        reveal_strlit(" ");
        reveal_strlit("$ ");
        reveal_strlit(",");
        reveal_strlit("OP_RETURN");
        reveal_strlit("OP_NEGATE");
        reveal_strlit("OP_ADD");
        reveal_strlit("OP_SUBTRACT");
        reveal_strlit("OP_MULTIPLY");
        reveal_strlit("OP_DIVIDE");
        reveal_strlit("OP_CONST ");
    }
    let line = match chunk.get_line(offset) {
        Some(l) => l,
        None => unreached(),
    };
    let same_as_previous = if offset > 0 {
        match chunk.get_line(offset - 1) {
            Some(p) => p == line,
            None => unreached(),
        }
    } else {
        false
    };
    let mut r: String = if same_as_previous {
        String::from_str("   |")
    } else {
        padded4_string(line as u64)
    };
    r.append(" ");
    let offset_text = padded4_string(offset as u64);
    r.append(offset_text.as_str());
    r.append("$ ");
    let op = match chunk.get_op(offset) {
        Some(op) => op,
        None => unreached(),
    };
    match op {
        Opcode::OP_RETURN => r.append("OP_RETURN"),
        Opcode::OP_CONST(index) => {
            r.append("OP_CONST ");
            let val = match chunk.get_val(index) {
                Some(v) => v,
                None => unreached(),
            };
            let text = val.to_string();
            r.append(text.as_str());
        },
        Opcode::OP_NEGATE => r.append("OP_NEGATE"),
        Opcode::OP_ADD => r.append("OP_ADD"),
        Opcode::OP_DIVIDE => r.append("OP_DIVIDE"),
        Opcode::OP_MULTIPLY => r.append("OP_MULTIPLY"),
        Opcode::OP_SUB => r.append("OP_SUBTRACT"),
    }
    r.append(",");
    proof {
        assert(r@ =~= instr_text(*chunk, offset as int));
    }
    r
}

/// Renders the whole chunk, one string per line: a header carrying `name`,
/// every instruction in offset order, and a footer.
pub fn disassemble_chunk(chunk: &Chunk, name: &str) -> (r: Vec<String>)
    requires
        chunk.wf(),
        forall|i: int| 0 <= i < chunk.ops().len() ==> operand_in_range(*chunk, i),
    ensures
        r.deep_view() == listing_text(*chunk, name@),
{
    proof {
        reveal_strlit("====$ ");
        reveal_strlit(" $====");
        reveal_strlit("====$ over $====");
    }
    let mut r: Vec<String> = Vec::new();
    let mut header = String::from_str("====$ ");
    header.append(name);
    header.append(" $====");
    r.push(header);
    let n = chunk.op_len();
    let mut offset: usize = 0;
    while offset < n
        invariant
            chunk.wf(),
            forall|i: int| 0 <= i < chunk.ops().len() ==> operand_in_range(*chunk, i),
            n == chunk.ops().len(),
            offset <= n,
            r.deep_view() =~~= listing_text(*chunk, name@).take(offset + 1),
        decreases n - offset,
    {
        let ghost prev = r.deep_view();
        let text = disassemble_instruction(chunk, offset);
        r.push(text);
        proof {
            let whole = listing_text(*chunk, name@);
            assert(whole.len() == n + 2);
            assert(prev.len() == offset + 1);
            assert forall|i: int| 0 <= i < r.deep_view().len() implies #[trigger] r.deep_view()[i]
                == whole.take(offset + 2)[i] by {
                if i < prev.len() {
                    assert(r.deep_view()[i] == prev[i]);
                    assert(prev[i] == whole.take(offset + 1)[i]);
                } else {
                    assert(r.deep_view()[i] == text@);
                }
            }
            assert(r.deep_view() =~= listing_text(*chunk, name@).take(offset + 2));
        }
        offset = offset + 1;
    }
    let ghost prev = r.deep_view();
    r.push(String::from_str("====$ over $===="));
    proof {
        let whole = listing_text(*chunk, name@);
        assert forall|i: int| 0 <= i < r.deep_view().len() implies #[trigger] r.deep_view()[i]
            == whole[i] by {
            if i < prev.len() {
                assert(r.deep_view()[i] == prev[i]);
                assert(prev[i] == whole.take(n + 1)[i]);
            } else {
                assert(r.deep_view()[i] == footer_text());
            }
        }
        assert(r.deep_view() =~= listing_text(*chunk, name@));
    }
    r
}

/// Two consecutive instructions recorded with the same source line render the
/// second with the continuation marker, never with a repeated line number.
pub proof fn lemma_continuation_marker(c: Chunk, offset: int)
    requires
        c.wf(),
        0 < offset < c.ops().len(),
        c.lines()[offset - 1] == c.lines()[offset],
    ensures
        line_prefix_text(c, offset) == continuation_marker(),
        instr_text(c, offset) == continuation_marker() + " "@ + padded4(offset as nat) + "$ "@
            + op_text(c, offset) + ","@,
{
}

} // verus!
