//! Validating a chunk once, before it is run.
//!
//! A chunk is well formed where every instruction of its stream is a known
//! opcode with all its operands, every constant that is loaded is in the
//! pool, and every jump lands where an instruction starts or at the
//! stream's end. The machine looks at the same things as it goes; on a chunk
//! that is well formed it never finds one of them broken.
use vstd::prelude::*;
use crate::chunk::Chunk;
use crate::chunk::ChunkView;
use crate::layout::extent;
use crate::layout::extent_at;
use crate::layout::is_boundary;
use crate::layout::is_complete;
use crate::layout::jump_distance;
use crate::layout::reaches;
use crate::opcode::OpCode;
use crate::vm::run_from;
use crate::vm::step;
use crate::vm::Effect;
use crate::vm::Machine;
use crate::vm::Progress;
use crate::vm::RuntimeError;

verus! {

/// Whether the instruction at `at` keeps the rules of the format.
pub open spec fn instruction_sound(chunk: ChunkView, at: nat) -> bool
    recommends
        at < chunk.code.len(),
{
    match OpCode::decode(chunk.code[at as int]) {
        None => false,
        Some(op) => is_complete(chunk.code, at) && match op {
            OpCode::CONSTANT => chunk.code[at as int + 1] < chunk.constants.len(),
            OpCode::JUMP | OpCode::JUMP_IF_FALSE => is_boundary(
                chunk.code,
                at + 3 + jump_distance(chunk.code, at),
            ),
            _ => true,
        },
    }
}

/// Whether every instruction from the one at `at` to the end of the stream
/// keeps the rules of the format.
pub open spec fn sound_from(chunk: ChunkView, at: nat) -> bool
    decreases chunk.code.len() - at,
{
    if at >= chunk.code.len() {
        true
    } else {
        instruction_sound(chunk, at) && sound_from(chunk, at + extent(chunk.code, at))
    }
}

/// Whether a chunk is well formed.
pub open spec fn well_formed(chunk: ChunkView) -> bool {
    sound_from(chunk, 0)
}

/// A walk that comes by `mid` comes by `at`, further on, exactly if the walk
/// from `mid` does.
pub proof fn lemma_reaches_through(code: Seq<u8>, from: nat, mid: nat, at: nat)
    requires
        reaches(code, from, mid),
        mid <= at,
    ensures
        reaches(code, from, at) == reaches(code, mid, at),
    decreases code.len() - from,
{
    if from != mid && from < code.len() {
        lemma_reaches_through(code, from + extent(code, from), mid, at);
    }
}

/// A walk never comes by an offset beyond the end of the stream.
pub proof fn lemma_reaches_within(code: Seq<u8>, from: nat, at: nat)
    requires
        from <= code.len(),
        reaches(code, from, at),
    ensures
        at <= code.len(),
    decreases code.len() - from,
{
    if from != at && from < code.len() {
        lemma_reaches_within(code, from + extent(code, from), at);
    }
}

/// Behind each instruction starts the next, or the stream ends.
pub proof fn lemma_boundary_after(code: Seq<u8>, at: nat)
    requires
        is_boundary(code, at),
        at < code.len(),
    ensures
        is_boundary(code, at + extent(code, at)),
{
    let next = at + extent(code, at);
    lemma_reaches_through(code, 0, at, next);
    assert(reaches(code, next, next));
}

/// No instruction starts inside another.
pub proof fn lemma_no_boundary_inside(code: Seq<u8>, at: nat, inside: nat)
    requires
        is_boundary(code, at),
        at < inside < at + extent(code, at),
        at < code.len(),
    ensures
        !is_boundary(code, inside),
{
    lemma_reaches_through(code, 0, at, inside);
    let next = at + extent(code, at);
    assert(!reaches(code, next, inside));
}

/// In a stream that is sound from `from` on, every instruction that a walk
/// from `from` comes by is sound.
pub proof fn lemma_sound_at(chunk: ChunkView, from: nat, at: nat)
    requires
        sound_from(chunk, from),
        reaches(chunk.code, from, at),
        at < chunk.code.len(),
    ensures
        instruction_sound(chunk, at),
    decreases chunk.code.len() - from,
{
    if from != at {
        lemma_sound_at(chunk, from + extent(chunk.code, from), at);
    }
}

/// On a well-formed chunk, an instruction that the machine meets where an
/// instruction starts leaves the machine where an instruction starts, and
/// breaks the rules of the format in two ways only: the stream has ended
/// without `RETURN`, or `RETURN` finds more than one value.
pub proof fn lemma_step_on_well_formed(chunk: ChunkView, m: Machine)
    requires
        well_formed(chunk),
        is_boundary(chunk.code, m.ip),
    ensures
        match step(chunk, m) {
            Effect::Continue(next) => is_boundary(chunk.code, next.ip),
            Effect::Request(_, _, _, next) => is_boundary(chunk.code, next.ip),
            Effect::Fail(RuntimeError::InvariantViolation { .. }) => m.ip == chunk.code.len() || (
            chunk.code[m.ip as int] == OpCode::RETURN.code() && m.stack.len() > 1),
            _ => true,
        },
{
    if m.ip < chunk.code.len() {
        lemma_sound_at(chunk, 0, m.ip);
        lemma_boundary_after(chunk.code, m.ip);
    }
}

/// On a well-formed chunk, a run that starts where an instruction starts
/// stops where one starts, or at the stream's end, and fails for a broken
/// format in two ways only: at the end of a stream without `RETURN`, or at
/// a `RETURN`, which then found more than one value.
pub proof fn lemma_run_on_well_formed(chunk: ChunkView, m: Machine)
    requires
        well_formed(chunk),
        is_boundary(chunk.code, m.ip),
    ensures
        is_boundary(chunk.code, run_from(chunk, m).machine.ip),
        run_from(chunk, m).progress matches Progress::Failed(
            RuntimeError::InvariantViolation { .. },
        ) ==> {
            let stopped = run_from(chunk, m).machine.ip;
            stopped == chunk.code.len() || chunk.code[stopped as int] == OpCode::RETURN.code()
        },
    decreases chunk.code.len() - m.ip,
{
    lemma_step_on_well_formed(chunk, m);
    match step(chunk, m) {
        Effect::Continue(next) => {
            lemma_run_on_well_formed(chunk, next);
        },
        _ => {},
    }
}

impl Chunk {
    /// Tells whether the chunk is well formed. The chunk is only read.
    pub fn validate(&self) -> (r: bool)
        ensures
            r == well_formed(self@),
    {
        let code = self.bytes();
        let size: usize = code.len();
        let pool: usize = self.constants().len();
        let starts: Vec<bool> = mark_boundaries(code);
        let mut at: usize = 0;
        while at < size
            invariant
                size == code@.len(),
                code@ == self@.code,
                pool == self@.constants.len(),
                at <= size,
                starts@.len() == size + 1,
                forall|k: int| 0 <= k <= size ==> starts@[k] == is_boundary(code@, k as nat),
                well_formed(self@) == sound_from(self@, at as nat),
            decreases size - at,
        {
            let taken: usize = extent_at(code, at);
            let op: OpCode = match OpCode::from_byte(code[at]) {
                Some(op) => op,
                None => {
                    return false;
                },
            };
            if size - at < 1 + op.operands() {
                return false;
            }
            match op {
                OpCode::CONSTANT => {
                    if code[at + 1] as usize >= pool {
                        return false;
                    }
                },
                OpCode::JUMP | OpCode::JUMP_IF_FALSE => {
                    let distance: usize = (code[at + 1] as usize) * 256 + (code[at + 2] as usize);
                    if distance > size - (at + 3) {
                        return false;
                    }
                    if !starts[at + 3 + distance] {
                        return false;
                    }
                },
                _ => {},
            }
            at += taken;
        }
        true
    }
}

/// Marks, for each offset up to the end of the stream, whether an
/// instruction starts there; the end itself is marked.
fn mark_boundaries(code: &[u8]) -> (starts: Vec<bool>)
    ensures
        starts@.len() == code@.len() + 1,
        forall|k: int| 0 <= k <= code@.len() ==> starts@[k] == is_boundary(code@, k as nat),
{
    let size: usize = code.len();
    let mut starts: Vec<bool> = Vec::new();
    let mut at: usize = 0;
    while at < size
        invariant
            size == code@.len(),
            at <= size,
            starts@.len() == at,
            is_boundary(code@, at as nat),
            forall|k: int| 0 <= k < at ==> starts@[k] == is_boundary(code@, k as nat),
        decreases size - at,
    {
        let taken: usize = extent_at(code, at);
        let ghost before = starts@;
        starts.push(true);
        let mut inside: usize = 1;
        while inside < taken
            invariant
                1 <= inside <= taken,
                at + taken <= size,
                taken == extent(code@, at as nat),
                is_boundary(code@, at as nat),
                starts@.len() == at + inside,
                forall|k: int| 0 <= k < at + inside ==> starts@[k] == is_boundary(code@, k as nat),
            decreases taken - inside,
        {
            proof {
                lemma_no_boundary_inside(code@, at as nat, (at + inside) as nat);
            }
            starts.push(false);
            inside += 1;
        }
        proof {
            lemma_boundary_after(code@, at as nat);
        }
        at += taken;
    }
    starts.push(true);
    starts
}

} // verus!
