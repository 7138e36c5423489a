//! The bytecode container: an append-only sequence of instructions, a constant
//! pool, and a run-length-encoded source-line index.
//!
//! The line index stores one `(first_instruction_offset, line_number)` pair per
//! change of line, not one entry per instruction; `get_line` recovers the line
//! of any instruction by binary search over those pairs. The specification
//! models the index through a ghost log holding the line of every pushed
//! instruction, so the contracts speak of "the line most recently set at or
//! before an offset" directly.

use vstd::prelude::*;

use crate::op::Opcode;
use crate::value::{Value, ValueModel};

verus! {

/// The number of entries a run-length encoding of `lines` holds: one for the
/// first element and one per position whose line differs from its predecessor.
pub open spec fn rle_count(lines: Seq<u32>) -> nat
    decreases lines.len(),
{
    if lines.len() == 0 {
        0
    } else if lines.len() == 1 {
        1
    } else {
        rle_count(lines.drop_last()) + (
        if lines[lines.len() - 1] == lines[lines.len() - 2] {
            0nat
        } else {
            1nat
        })
    }
}

/// Appending a line grows the run-length count exactly when it differs from
/// the previous line (or is the first).
proof fn lemma_rle_count_push(lines: Seq<u32>, l: u32)
    ensures
        rle_count(lines.push(l)) == rle_count(lines) + (
        if lines.len() > 0 && lines.last() == l {
            0nat
        } else {
            1nat
        }),
{
    let lp = lines.push(l);
    assert(lp.drop_last() =~= lines);
    if lines.len() > 0 {
        assert(lp[lp.len() - 1] == l);
        assert(lp[lp.len() - 2] == lines.last());
    }
}

/// An append-only container of instructions, constants and the line index.
pub struct Chunk {
    ops: Vec<Opcode>,
    vals: Vec<Value>,
    line: Vec<(usize, u32)>,
    line_log: Ghost<Seq<u32>>,
}

impl Chunk {
    /// The instructions, in the order they were pushed.
    pub closed spec fn ops(&self) -> Seq<Opcode> {
        self.ops@
    }

    /// The constant pool, in the order it was pushed.
    pub closed spec fn consts(&self) -> Seq<ValueModel> {
        self.vals.deep_view()
    }

    /// The source line of every pushed instruction, by offset.
    pub closed spec fn lines(&self) -> Seq<u32> {
        self.line_log@
    }

    /// Well-formedness of the line index: the stored pairs are exactly a
    /// run-length encoding of the per-instruction line log.
    pub closed spec fn wf(&self) -> bool {
        let marks = self.line@;
        let log = self.line_log@;
        let n = self.ops@.len() as int;
        &&& log.len() == n
        &&& (marks.len() == 0 <==> n == 0)
        &&& (marks.len() > 0 ==> marks[0].0 == 0)
        &&& (forall|j: int| 0 < j < marks.len() ==> (#[trigger] marks[j]).0 > marks[j - 1].0)
        &&& (forall|j: int| 0 <= j < marks.len() ==> (#[trigger] marks[j]).0 < n)
        &&& (forall|j: int, k: int|
            #![trigger marks[j], log[k]]
            0 <= j < marks.len() && marks[j].0 <= k < n && (j + 1 < marks.len() ==> k < marks[j
                + 1].0) ==> log[k] == marks[j].1)
        &&& marks.len() == rle_count(log)
    }

    /// The instruction count fits a machine word: the instructions are held
    /// in a vector.
    pub proof fn lemma_ops_len_bound(&self)
        ensures
            self.ops().len() <= usize::MAX,
    {
        vstd::std_specs::vec::axiom_spec_len(&self.ops);
    }

    /// A fresh, empty chunk.
    pub fn new() -> (c: Self)
        ensures
            c.wf(),
            c.ops() == Seq::<Opcode>::empty(),
            c.consts() == Seq::<ValueModel>::empty(),
            c.lines() == Seq::<u32>::empty(),
    {
        Chunk { ops: Vec::new(), vals: Vec::new(), line: Vec::new(), line_log: Ghost(Seq::empty()) }
    }

    /// Appends an instruction recorded as coming from source line `line`,
    /// extending the line index only when the line changes.
    #[verifier::rlimit(30)]
    pub fn push_op(&mut self, op: Opcode, line: u32)
        requires
            old(self).wf(),
        ensures
            final(self).wf(),
            final(self).ops() == old(self).ops().push(op),
            final(self).lines() == old(self).lines().push(line),
            final(self).consts() == old(self).consts(),
    {
        let ghost old_log = self.line_log@;
        let ghost old_marks = self.line@;
        let ghost n0 = self.ops@.len() as int;
        self.ops.push(op);
        proof {
            self.line_log@ = self.line_log@.push(line);
            lemma_rle_count_push(old_log, line);
        }
        let m = self.line.len();
        let same_line = if m == 0 {
            false
        } else {
            proof {
                // The last mark's window covers the last instruction, so its
                // recorded line is the last line of the log.
                assert(old_log[n0 - 1] == old_marks[m - 1].1);
            }
            self.line[m - 1].1 == line
        };
        if !same_line {
            let offset = self.ops.len() - 1;
            self.line.push((offset, line));
        }
        proof {
            let marks = self.line@;
            let log = self.line_log@;
            let n = self.ops@.len() as int;
            assert forall|j: int, k: int|
                #![trigger marks[j], log[k]]
                0 <= j < marks.len() && marks[j].0 <= k < n && (j + 1 < marks.len() ==> k < marks[j
                    + 1].0) implies log[k] == marks[j].1 by {
                if k < n - 1 {
                    assert(old_marks[j] == marks[j]);
                    assert(log[k] == old_log[k]);
                } else {
                    // k is the new instruction: it lies in the last window.
                    assert(j == marks.len() - 1);
                    if same_line {
                        assert(old_log[n0 - 1] == old_marks[m - 1].1);
                    }
                }
            }
        }
    }

    /// Appends a constant and returns its index in the pool.
    pub fn push_val(&mut self, val: Value) -> (idx: usize)
        requires
            old(self).wf(),
        ensures
            final(self).wf(),
            final(self).consts() == old(self).consts().push(val@),
            idx as int == old(self).consts().len(),
            final(self).ops() == old(self).ops(),
            final(self).lines() == old(self).lines(),
    {
        self.vals.push(val);
        self.vals.len() - 1
    }

    /// Bounds-checked instruction lookup.
    pub fn get_op(&self, index: usize) -> (r: Option<Opcode>)
        ensures
            r == (if index < self.ops().len() {
                Some(self.ops()[index as int])
            } else {
                None::<Opcode>
            }),
    {
        if index < self.ops.len() {
            Some(self.ops[index])
        } else {
            None
        }
    }

    /// Bounds-checked constant lookup.
    pub fn get_val(&self, index: usize) -> (r: Option<&Value>)
        ensures
            match r {
                Some(v) => index < self.consts().len() && v@ == self.consts()[index as int],
                None => index >= self.consts().len(),
            },
    {
        if index < self.vals.len() {
            Some(&self.vals[index])
        } else {
            None
        }
    }

    /// The number of instructions pushed so far.
    pub fn op_len(&self) -> (n: usize)
        ensures
            n == self.ops().len(),
    {
        self.ops.len()
    }

    /// The number of entries the run-length line index holds: one per distinct
    /// consecutive line change, never one per instruction.
    pub fn line_len(&self) -> (n: usize)
        requires
            self.wf(),
        ensures
            n == rle_count(self.lines()),
    {
        self.line.len()
    }

    /// The source line of the instruction at `op_index`, by binary search over
    /// the run-length line index: the line most recently set at or before that
    /// offset. `None` only for a chunk with no instructions; an offset past the
    /// end reports the line of the last instruction.
    pub fn get_line(&self, op_index: usize) -> (r: Option<u32>)
        requires
            self.wf(),
        ensures
            self.ops().len() == 0 ==> r is None,
            self.ops().len() > 0 ==> r == Some(
                self.lines()[if (op_index as int) < self.ops().len() {
                    op_index as int
                } else {
                    self.ops().len() - 1
                }],
            ),
    {
        let len = self.line.len();
        if len == 0 {
            return None;
        }
        let mut lo: usize = 0;
        let mut hi: usize = len;
        while hi - lo > 1
            invariant
                self.wf(),
                len == self.line@.len(),
                0 < len,
                lo < hi <= len,
                self.line@[lo as int].0 <= op_index,
                hi < len ==> op_index < self.line@[hi as int].0,
            decreases hi - lo,
        {
            let mid = lo + (hi - lo) / 2;
            if self.line[mid].0 <= op_index {
                lo = mid;
            } else {
                hi = mid;
            }
        }
        proof {
            let marks = self.line@;
            let log = self.line_log@;
            let n = self.ops@.len() as int;
            let k = if (op_index as int) < n {
                op_index as int
            } else {
                n - 1
            };
            if lo + 1 < len {
                // `hi == lo + 1 < len`, so the next mark starts past `op_index`,
                // and mark offsets are below `n`.
                assert(op_index < marks[lo + 1].0);
                assert(marks[lo as int].0 <= k < n);
                assert(log[k] == marks[lo as int].1);
            } else {
                assert(marks[lo as int].0 <= k < n);
                assert(log[k] == marks[lo as int].1);
            }
        }
        Some(self.line[lo].1)
    }
}

} // verus!
