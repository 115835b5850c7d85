//! What the machine and the disassembler do on streams of particular shapes.
use vstd::prelude::*;
use crate::chunk::line_of;
use crate::chunk::ChunkView;
use crate::layout::extent;
use crate::layout::is_complete;
use crate::layout::jump_distance;
use crate::disasm::operation_text;
use crate::opcode::OpCode;
use crate::validate::instruction_sound;
use crate::validate::well_formed;
use crate::value::Value;
use crate::value::ValueKind;
use crate::vm::arithmetic_of;
use crate::vm::below;
use crate::vm::demand;
use crate::vm::peek;
use crate::vm::answered;
use crate::vm::answers_by;
use crate::vm::resume_from;
use crate::vm::run_answered;
use crate::vm::ArithOp;
use crate::vm::run_from;
use crate::vm::start;
use crate::vm::step;
use crate::vm::Effect;
use crate::vm::Machine;
use crate::vm::Progress;
use crate::vm::RuntimeError;

verus! {

/// Whether the stream holds the opcode `op`, with all its operands, at `at`.
pub open spec fn holds(chunk: ChunkView, at: nat, op: OpCode) -> bool {
    &&& at + 1 + op.operand_width() <= chunk.code.len()
    &&& chunk.code[at as int] == op.code()
}

/// Whether the stream loads the constant `index` at `at`.
pub open spec fn loads(chunk: ChunkView, at: nat, index: u8) -> bool {
    &&& holds(chunk, at, OpCode::CONSTANT)
    &&& chunk.code[at as int + 1] == index
    &&& index < chunk.constants.len()
}

/// A stream that loads a constant and returns comes to that constant,
/// whatever the constant is and whatever follows in the stream.
pub proof fn lemma_constant_then_return(chunk: ChunkView, index: u8)
    requires
        loads(chunk, 0, index),
        holds(chunk, 2, OpCode::RETURN),
    ensures
        run_from(chunk, start()).progress == Progress::Finished(chunk.constants[index as int]),
        run_from(chunk, start()).machine.stack.len() == 0,
{
    let loaded = Machine { stack: start().stack.push(chunk.constants[index as int]), ip: 2 };
    assert(step(chunk, start()) == Effect::Continue(loaded));
    assert(step(chunk, loaded) == Effect::Finish(chunk.constants[index as int]));
    reveal_with_fuel(run_from, 3);
}

/// A well-formed chunk whose stream is one `CONSTANT` and one `RETURN`, and
/// nothing else, comes to the constant that it names.
pub proof fn lemma_well_formed_constant_return(chunk: ChunkView, index: u8)
    requires
        well_formed(chunk),
        chunk.code == seq![OpCode::CONSTANT.code(), index, OpCode::RETURN.code()],
    ensures
        index < chunk.constants.len(),
        run_from(chunk, start()).progress == Progress::Finished(chunk.constants[index as int]),
{
    assert(instruction_sound(chunk, 0));
    lemma_constant_then_return(chunk, index);
}

/// A stream that loads two numbers, applies one of the four arithmetic
/// operations and returns asks its caller for exactly that operation on
/// those two numbers, the first loaded on the left, and comes to whatever
/// number the caller answers with. No operand makes it fail: a division by
/// zero is asked for like any other.
pub proof fn lemma_arithmetic_then_return(
    chunk: ChunkView,
    first: u8,
    second: u8,
    op: OpCode,
    left: u64,
    right: u64,
    answer: u64,
)
    requires
        loads(chunk, 0, first),
        loads(chunk, 2, second),
        holds(chunk, 4, op),
        holds(chunk, 5, OpCode::RETURN),
        arithmetic_of(op) is Some,
        chunk.constants[first as int] == Value::Number(left),
        chunk.constants[second as int] == Value::Number(right),
    ensures
        run_from(chunk, start()).progress == (Progress::Arithmetic {
            op: arithmetic_of(op).unwrap(),
            left,
            right,
        }),
        resume_from(chunk, run_from(chunk, start()).machine, answer).progress
            == Progress::Finished(Value::Number(answer)),
{
    let one = Machine { stack: start().stack.push(Value::Number(left)), ip: 2 };
    let two = Machine { stack: one.stack.push(Value::Number(right)), ip: 4 };
    let parked = Machine { stack: below(two.stack, 2), ip: 5 };
    let answered = Machine { stack: parked.stack.push(Value::Number(answer)), ip: 5 };
    assert(step(chunk, start()) == Effect::Continue(one));
    assert(step(chunk, one) == Effect::Continue(two));
    assert(step(chunk, two) == Effect::Request(arithmetic_of(op).unwrap(), left, right, parked));
    assert(step(chunk, answered) == Effect::Finish(Value::Number(answer)));
    reveal_with_fuel(run_from, 4);
}

/// A run that comes to no arithmetic takes no answer: it comes to the same
/// whoever stands by to answer.
pub proof fn lemma_no_request_no_answer<F: Fn(ArithOp, u64, u64) -> u64>(
    chunk: ChunkView,
    m: Machine,
    answers: Seq<u64>,
    arith: F,
)
    requires
        !(run_from(chunk, m).progress is Arithmetic),
        answers_by(chunk, m, answers, arith),
    ensures
        answers.len() == 0,
        run_answered(chunk, m, answers) == run_from(chunk, m),
{
}

/// A stream that loads two numbers, applies one of the four arithmetic
/// operations and returns takes exactly one answer, which is one that
/// `arith` may give for that operation on those two numbers, the first
/// loaded on the left; and it comes to that answer.
pub proof fn lemma_arithmetic_answered<F: Fn(ArithOp, u64, u64) -> u64>(
    chunk: ChunkView,
    first: u8,
    second: u8,
    op: OpCode,
    left: u64,
    right: u64,
    answers: Seq<u64>,
    arith: F,
)
    requires
        loads(chunk, 0, first),
        loads(chunk, 2, second),
        holds(chunk, 4, op),
        holds(chunk, 5, OpCode::RETURN),
        arithmetic_of(op) is Some,
        chunk.constants[first as int] == Value::Number(left),
        chunk.constants[second as int] == Value::Number(right),
        answers_by(chunk, start(), answers, arith),
        !(run_answered(chunk, start(), answers).progress is Arithmetic),
    ensures
        answers.len() == 1,
        call_ensures(arith, (arithmetic_of(op).unwrap(), left, right), answers[0]),
        run_answered(chunk, start(), answers).progress == Progress::Finished(
            Value::Number(answers[0]),
        ),
{
    lemma_arithmetic_then_return(chunk, first, second, op, left, right, 0);
    if answers.len() > 0 {
        lemma_arithmetic_then_return(chunk, first, second, op, left, right, answers[0]);
        let parked = run_from(chunk, start()).machine;
        lemma_no_request_no_answer(chunk, answered(parked, answers[0]), answers.drop_first(), arith);
    }
}

/// `NEGATE` on a value that is no number fails with a type error that names
/// the value's kind and the instruction's line.
pub proof fn lemma_negate_rejects(chunk: ChunkView, m: Machine)
    requires
        holds(chunk, m.ip, OpCode::NEGATE),
        m.stack.len() >= 1,
        peek(m.stack, 0).kind_of() != ValueKind::Number,
    ensures
        step(chunk, m) == Effect::Fail(
            RuntimeError::TypeError {
                kind: peek(m.stack, 0).kind_of(),
                line: line_of(chunk.lines, m.ip),
            },
        ),
{
}

/// A stream that loads `nil`, `true` or `false` and negates it fails with a
/// type error.
pub proof fn lemma_negate_constant_rejects(chunk: ChunkView, index: u8)
    requires
        loads(chunk, 0, index),
        holds(chunk, 2, OpCode::NEGATE),
        chunk.constants[index as int].kind_of() != ValueKind::Number,
    ensures
        run_from(chunk, start()).progress == Progress::Failed(
            RuntimeError::TypeError {
                kind: chunk.constants[index as int].kind_of(),
                line: line_of(chunk.lines, 2),
            },
        ),
{
    let loaded = Machine { stack: start().stack.push(chunk.constants[index as int]), ip: 2 };
    assert(step(chunk, start()) == Effect::Continue(loaded));
    lemma_negate_rejects(chunk, loaded);
    reveal_with_fuel(run_from, 3);
}

/// An instruction that finds fewer values on the stack than it needs fails
/// with a stack underflow at its line.
pub proof fn lemma_underflow(chunk: ChunkView, m: Machine, op: OpCode)
    requires
        holds(chunk, m.ip, op),
        m.stack.len() < demand(op),
    ensures
        step(chunk, m) == Effect::Fail(
            RuntimeError::StackUnderflow { line: line_of(chunk.lines, m.ip) },
        ),
{
}

/// A stream that loads one constant and then adds fails with a stack
/// underflow.
pub proof fn lemma_add_after_one_constant(chunk: ChunkView, index: u8)
    requires
        loads(chunk, 0, index),
        holds(chunk, 2, OpCode::ADD),
    ensures
        run_from(chunk, start()).progress == Progress::Failed(
            RuntimeError::StackUnderflow { line: line_of(chunk.lines, 2) },
        ),
{
    let loaded = Machine { stack: start().stack.push(chunk.constants[index as int]), ip: 2 };
    assert(step(chunk, start()) == Effect::Continue(loaded));
    lemma_underflow(chunk, loaded, OpCode::ADD);
    reveal_with_fuel(run_from, 3);
}

/// `JUMP_IF_FALSE` leaves the stack as it is. Over a falsy value the run goes
/// on behind the instructions that the jump guards; over a truthy value it
/// goes on with the first of them.
pub proof fn lemma_jump_if_false(chunk: ChunkView, m: Machine)
    requires
        holds(chunk, m.ip, OpCode::JUMP_IF_FALSE),
        m.stack.len() >= 1,
        m.ip + 3 + jump_distance(chunk.code, m.ip) <= chunk.code.len(),
    ensures
        step(chunk, m) == Effect::Continue(
            Machine {
                stack: m.stack,
                ip: if peek(m.stack, 0).truthy() {
                    m.ip + 3
                } else {
                    m.ip + 3 + jump_distance(chunk.code, m.ip)
                },
            },
        ),
{
}

/// A number and a boolean are never equal, whichever comes first.
pub proof fn lemma_number_never_equals_boolean(bits: u64, truth: bool)
    ensures
        !Value::Number(bits).equal_to(Value::Boolean(truth)),
        !Value::Boolean(truth).equal_to(Value::Number(bits)),
{
}

/// `EQUAL` on a number and a boolean pushes `false` and does not fail.
pub proof fn lemma_equal_across_kinds(chunk: ChunkView, m: Machine)
    requires
        holds(chunk, m.ip, OpCode::EQUAL),
        m.stack.len() >= 2,
        peek(m.stack, 0).kind_of() != peek(m.stack, 1).kind_of(),
    ensures
        step(chunk, m) == Effect::Continue(
            Machine { stack: below(m.stack, 2).push(Value::Boolean(false)), ip: m.ip + 1 },
        ),
{
}

/// An instruction whose operands are cut off is the last of its listing: it
/// is listed as incomplete and takes up what is left of the stream.
pub proof fn lemma_incomplete_is_last(chunk: ChunkView, at: nat)
    requires
        at < chunk.code.len(),
        !is_complete(chunk.code, at),
    ensures
        OpCode::decode(chunk.code[at as int]) is Some,
        operation_text(chunk, at) == OpCode::decode(chunk.code[at as int]).unwrap().mnemonic()
            + " (incomplete instruction)"@,
        at + extent(chunk.code, at) == chunk.code.len(),
{
}

/// Every run moves forward: an instruction that lets the run go on leaves
/// it at a later offset that is still within the stream or at its end.
pub proof fn lemma_step_moves_forward(chunk: ChunkView, m: Machine)
    ensures
        match step(chunk, m) {
            Effect::Continue(next) => m.ip < next.ip <= chunk.code.len(),
            Effect::Request(_, _, _, next) => m.ip < next.ip <= chunk.code.len(),
            _ => true,
        },
{
}

/// A run that has ended, with a result or a failure, leaves an empty stack.
pub proof fn lemma_ended_run_leaves_nothing(chunk: ChunkView, m: Machine)
    ensures
        !(run_from(chunk, m).progress is Arithmetic) ==> run_from(chunk, m).machine.stack.len() == 0,
    decreases chunk.code.len() - m.ip,
{
    match step(chunk, m) {
        Effect::Continue(next) => {
            lemma_ended_run_leaves_nothing(chunk, next);
        },
        _ => {},
    }
}

} // verus!
