use vstd::prelude::*;

use crate::value::{Value, ValueModel};
use crate::bytecode::{Chunk, OpCode};

verus! {

/// What a listing of a chunk shows of one instruction: its offset, and the constant it
/// loads where it is a numeric constant instruction.
#[derive(Debug)]
pub struct DebugLine {
    pub offset: usize,
    pub constant: Option<Value>,
}

/// The constant a listing shows for `op`: the value a numeric constant instruction loads,
/// where the chunk has a value at its index.
pub open spec fn listed_constant(op: OpCode, values: Seq<ValueModel>) -> Option<ValueModel> {
    match op {
        OpCode::CONSTANT_FLOAT(i) | OpCode::CONSTANT_INT(i) => if i < values.len() {
            Some(values[i as int])
        } else {
            None
        },
        _ => None,
    }
}

/// The listing line of the instruction at `offset`, and the offset of the next one.
pub fn debug_instruction(chunk: &Chunk, offset: usize) -> (r: (DebugLine, usize))
    requires
        offset < chunk.code@.len(),
    ensures
        r.0.offset == offset,
        r.1 == offset + 1,
        match listed_constant(chunk.code@[offset as int].op, chunk.values@) {
            Some(v) => r.0.constant matches Some(c) && c@ == v,
            None => r.0.constant is None,
        },
{
    let n = chunk.len();
    assert(offset < n);
    let constant = match chunk.get_instruction(offset).op {
        OpCode::CONSTANT_FLOAT(i) | OpCode::CONSTANT_INT(i) => {
            if i < chunk.values.len() {
                Some(chunk.get_value(i))
            } else {
                None
            }
        },
        _ => None,
    };
    (DebugLine { offset, constant }, offset + 1)
}

/// The listing of a chunk: one line per instruction, in order.
pub fn debug_chunk(chunk: &Chunk) -> (lines: Vec<DebugLine>)
    ensures
        lines@.len() == chunk.code@.len(),
        forall|i: int| 0 <= i < lines@.len() ==> (#[trigger] lines@[i]).offset == i,
        forall|i: int|
            0 <= i < lines@.len() ==> match listed_constant(chunk.code@[i].op, chunk.values@) {
                Some(v) => (#[trigger] lines@[i]).constant matches Some(c) && c@ == v,
                None => lines@[i].constant is None,
            },
{
    let op_len = chunk.len();
    let mut offset: usize = 0;
    let mut lines: Vec<DebugLine> = Vec::new();
    while offset < op_len
        invariant
            op_len == chunk.code@.len(),
            offset <= op_len,
            lines@.len() == offset,
            forall|i: int| 0 <= i < lines@.len() ==> (#[trigger] lines@[i]).offset == i,
            forall|i: int|
                0 <= i < lines@.len() ==> match listed_constant(chunk.code@[i].op, chunk.values@) {
                    Some(v) => (#[trigger] lines@[i]).constant matches Some(c) && c@ == v,
                    None => lines@[i].constant is None,
                },
        decreases op_len - offset,
    {
        let (line, next) = debug_instruction(chunk, offset);
        lines.push(line);
        offset = next;
    }
    lines
}

} // verus!
