//! Execution core of a small scripting-language runtime: a bytecode container
//! (`Chunk`) with a run-length source-line index, a tagged runtime value
//! (`Value`) with type-checked arithmetic, a read-only disassembler, and a
//! stack-based virtual machine (`VM`) that interprets a chunk.
//!
//! Runtime doubles are carried as their IEEE 754 bit patterns (`u64`): the
//! machine decides everything structural itself — stack discipline, type
//! checks, the divide-by-zero and type-mismatch `Null` policy — and hands the
//! four binary double operations to the embedder through a resumable
//! run outcome.

pub mod chunk;
pub mod disassemble;
pub mod op;
pub mod render;
pub mod token_type;
pub mod value;
pub mod vm;
