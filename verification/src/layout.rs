//! How instructions lie in a stream: where each starts and how far it reaches.
use vstd::prelude::*;
use crate::opcode::OpCode;

verus! {

/// Whether the instruction at `at` has all its operand bytes.
pub open spec fn is_complete(code: Seq<u8>, at: nat) -> bool
    recommends
        at < code.len(),
{
    match OpCode::decode(code[at as int]) {
        Some(op) => at + 1 + op.operand_width() <= code.len(),
        None => true,
    }
}

/// How many bytes the instruction at `at` takes up: the opcode and its
/// operands, or what is left of the stream where the operands are cut off.
/// A byte that is no opcode takes up one.
pub open spec fn extent(code: Seq<u8>, at: nat) -> nat
    recommends
        at < code.len(),
{
    match OpCode::decode(code[at as int]) {
        Some(op) => if at + 1 + op.operand_width() <= code.len() {
            1 + op.operand_width()
        } else {
            (code.len() - at) as nat
        },
        None => 1,
    }
}

/// The distance that the two operand bytes of the jump at `at` give, high
/// byte first.
pub open spec fn jump_distance(code: Seq<u8>, at: nat) -> nat
    recommends
        at + 2 < code.len(),
{
    (code[at as int + 1] as nat) * 256 + (code[at as int + 2] as nat)
}

/// Every instruction takes up at least one byte and none reaches past the
/// end of the stream, so a listing visits each byte once and stops.
pub proof fn lemma_extent_in_stream(code: Seq<u8>, at: nat)
    requires
        at < code.len(),
    ensures
        1 <= extent(code, at),
        at + extent(code, at) <= code.len(),
{
}

/// Whether a walk over the stream that starts at the instruction at `from`
/// and goes from each instruction to the next comes by `at`.
pub open spec fn reaches(code: Seq<u8>, from: nat, at: nat) -> bool
    decreases code.len() - from,
{
    if from == at {
        true
    } else if from > at || from >= code.len() {
        false
    } else {
        reaches(code, from + extent(code, from), at)
    }
}

/// Whether `at` is where an instruction of the stream starts, or is the
/// stream's end.
pub open spec fn is_boundary(code: Seq<u8>, at: nat) -> bool {
    at <= code.len() && reaches(code, 0, at)
}

/// How many bytes the instruction at `at` takes up.
pub(crate) fn extent_at(code: &[u8], at: usize) -> (r: usize)
    requires
        at < code@.len(),
    ensures
        r == extent(code@, at as nat),
        1 <= r,
        at + r <= code@.len(),
{
    let left: usize = code.len() - at;
    match OpCode::from_byte(code[at]) {
        Some(op) => {
            let width: usize = op.operands();
            if left < 1 + width {
                left
            } else {
                1 + width
            }
        },
        None => 1,
    }
}

} // verus!
