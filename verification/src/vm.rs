//! The stack machine that runs a chunk.
//!
//! A run starts at offset 0 with an empty stack and goes on, one instruction
//! at a time, until `RETURN` hands out the result or an instruction fails.
//! Jumps only go forward, so every run ends.
//!
//! The machine decides everything about a number that its bit pattern shows
//! (sign, order, equality). The four arithmetic operations it does not carry
//! out: at `ADD`, `SUBTRACT`, `MULTIPLY` and `DIVIDE` the run is parked and
//! hands the two operands to the caller, who answers with the result's bit
//! pattern through `resume`. `run_with` does both for a caller who hands in
//! the arithmetic as a function.
use vstd::prelude::*;
use crate::chunk::line_of;
use crate::chunk::Chunk;
use crate::chunk::ChunkView;
use crate::layout::jump_distance;
use crate::number::bits_greater;
use crate::number::bits_less;
use crate::number::negate_bits;
use crate::number::negated;
use crate::number::number_gt;
use crate::number::number_lt;
use crate::opcode::OpCode;
use crate::value::Value;
use crate::value::ValueKind;

verus! {

/// One of the four operations that the caller of the machine carries out.
#[derive(Clone, Copy, Debug, PartialEq, Eq, Structural)]
pub enum ArithOp {
    Add,
    Subtract,
    Multiply,
    Divide,
}

/// Why a run failed. Each failure names the source line of the instruction
/// that failed.
#[derive(Clone, Copy, Debug, PartialEq, Eq, Structural)]
pub enum RuntimeError {
    /// An operand of this kind stood where a number was needed.
    TypeError { kind: ValueKind, line: u32 },
    /// The instruction needed more values than the stack held.
    StackUnderflow { line: u32 },
    /// The chunk broke the rules of its format: a byte that is no opcode, an
    /// operand that is cut off, a constant that is not in the pool, a jump
    /// out of the stream, a stream that ends without `RETURN`, a `RETURN`
    /// that leaves values behind; or `resume` was called on a machine that
    /// was not waiting.
    InvariantViolation { line: u32 },
}

/// Where a machine is in its life.
#[derive(Clone, Copy, Debug, PartialEq, Eq, Structural)]
pub enum Phase {
    /// Made, and not yet run.
    Ready,
    /// In the middle of a run, parked on an arithmetic operation.
    Running,
    /// The last run has ended, with a result or a failure.
    Halted,
}

/// What a call of `run` or `resume` came to.
#[derive(Clone, Copy, Debug, PartialEq, Eq, Structural)]
pub enum Progress {
    /// `RETURN` was reached, with this result.
    Finished(Value),
    /// An instruction failed.
    Failed(RuntimeError),
    /// The run is parked: the caller works out `left op right` on doubles
    /// and hands the result's bit pattern to `resume`.
    Arithmetic { op: ArithOp, left: u64, right: u64 },
}

/// The state of a run: the value stack, its top last, and the offset of the
/// next instruction.
pub struct Machine {
    pub stack: Seq<Value>,
    pub ip: nat,
}

/// What one instruction does to a run.
pub enum Effect {
    /// The run goes on in this state.
    Continue(Machine),
    /// The run is parked on this operation of these operands, and goes on
    /// from this state once the result has been pushed.
    Request(ArithOp, u64, u64, Machine),
    /// The run ends with this result.
    Finish(Value),
    /// The run ends with this failure.
    Fail(RuntimeError),
}

/// What a run came to, and the state it left the machine in.
pub struct Outcome {
    pub progress: Progress,
    pub machine: Machine,
}

/// The state at the start of a run.
pub open spec fn start() -> Machine {
    Machine { stack: Seq::<Value>::empty(), ip: 0 }
}

/// The state after a run has ended at the instruction at `m.ip`: the stack
/// is unwound.
pub open spec fn halted(m: Machine) -> Machine {
    Machine { stack: Seq::<Value>::empty(), ip: m.ip }
}

/// The arithmetic operation that an opcode asks for, if it asks for one.
pub open spec fn arithmetic_of(op: OpCode) -> Option<ArithOp> {
    match op {
        OpCode::ADD => Some(ArithOp::Add),
        OpCode::SUBTRACT => Some(ArithOp::Subtract),
        OpCode::MULTIPLY => Some(ArithOp::Multiply),
        OpCode::DIVIDE => Some(ArithOp::Divide),
        _ => None,
    }
}

/// The stack without its top `count` values.
pub open spec fn below(stack: Seq<Value>, count: nat) -> Seq<Value>
    recommends
        count <= stack.len(),
{
    stack.subrange(0, stack.len() - count)
}

/// The value `depth` places under the top of the stack; the top is at depth 0.
pub open spec fn peek(stack: Seq<Value>, depth: nat) -> Value
    recommends
        depth < stack.len(),
{
    stack[stack.len() - 1 - depth]
}

/// What a jump of the instruction at `m.ip` does: it lands `distance` bytes
/// behind its own operand, and fails where that is beyond the stream's end.
pub open spec fn jump(chunk: ChunkView, m: Machine, line: u32) -> Effect {
    let target = m.ip + 3 + jump_distance(chunk.code, m.ip);
    if target > chunk.code.len() {
        Effect::Fail(RuntimeError::InvariantViolation { line })
    } else {
        Effect::Continue(Machine { stack: m.stack, ip: target })
    }
}

/// The two numbers on top of the stack, the left one under the right one;
/// or the type error for the first of the two that is no number, the left
/// one before the right one.
pub open spec fn number_operands(stack: Seq<Value>, line: u32) -> Result<(u64, u64), RuntimeError>
    recommends
        stack.len() >= 2,
{
    match (peek(stack, 1), peek(stack, 0)) {
        (Value::Number(left), Value::Number(right)) => Ok((left, right)),
        (Value::Number(_), other) => Err(RuntimeError::TypeError { kind: other.kind_of(), line }),
        (other, _) => Err(RuntimeError::TypeError { kind: other.kind_of(), line }),
    }
}

/// What an arithmetic instruction does once the stack is known to hold two
/// values: it takes two numbers off the stack and parks the run on their
/// operation.
pub open spec fn arithmetic(operation: ArithOp, m: Machine, line: u32) -> Effect
    recommends
        m.stack.len() >= 2,
{
    match number_operands(m.stack, line) {
        Ok((left, right)) => Effect::Request(
            operation,
            left,
            right,
            Machine { stack: below(m.stack, 2), ip: m.ip + 1 },
        ),
        Err(error) => Effect::Fail(error),
    }
}

/// What `GREATER` and `LESS` do once the stack is known to hold two values:
/// they put the truth of the comparison in the place of two numbers.
pub open spec fn comparison(greater: bool, m: Machine, line: u32) -> Effect
    recommends
        m.stack.len() >= 2,
{
    match number_operands(m.stack, line) {
        Ok((left, right)) => Effect::Continue(
            Machine {
                stack: below(m.stack, 2).push(
                    Value::Boolean(
                        if greater {
                            number_gt(left, right)
                        } else {
                            number_lt(left, right)
                        },
                    ),
                ),
                ip: m.ip + 1,
            },
        ),
        Err(error) => Effect::Fail(error),
    }
}

/// How many values an opcode needs on the stack.
pub open spec fn demand(op: OpCode) -> nat {
    match op {
        OpCode::CONSTANT | OpCode::NIL | OpCode::TRUE | OpCode::FALSE | OpCode::JUMP => 0,
        OpCode::NEGATE | OpCode::NOT | OpCode::JUMP_IF_FALSE | OpCode::RETURN => 1,
        OpCode::ADD
        | OpCode::SUBTRACT
        | OpCode::MULTIPLY
        | OpCode::DIVIDE
        | OpCode::EQUAL
        | OpCode::GREATER
        | OpCode::LESS => 2,
    }
}

/// What the instruction at `m.ip` does to the run in state `m`.
pub open spec fn step(chunk: ChunkView, m: Machine) -> Effect {
    let line = line_of(chunk.lines, m.ip);
    let broken = Effect::Fail(RuntimeError::InvariantViolation { line });
    if m.ip >= chunk.code.len() {
        broken
    } else {
        match OpCode::decode(chunk.code[m.ip as int]) {
            None => broken,
            Some(op) => {
                let after = m.ip + 1 + op.operand_width();
                if after > chunk.code.len() {
                    broken
                } else if m.stack.len() < demand(op) {
                    Effect::Fail(RuntimeError::StackUnderflow { line })
                } else {
                    match op {
                        OpCode::CONSTANT => {
                            let index = chunk.code[m.ip as int + 1] as int;
                            if index < chunk.constants.len() {
                                Effect::Continue(
                                    Machine {
                                        stack: m.stack.push(chunk.constants[index]),
                                        ip: after,
                                    },
                                )
                            } else {
                                broken
                            }
                        },
                        OpCode::NIL => Effect::Continue(
                            Machine { stack: m.stack.push(Value::Nil), ip: after },
                        ),
                        OpCode::TRUE => Effect::Continue(
                            Machine { stack: m.stack.push(Value::Boolean(true)), ip: after },
                        ),
                        OpCode::FALSE => Effect::Continue(
                            Machine { stack: m.stack.push(Value::Boolean(false)), ip: after },
                        ),
                        OpCode::NEGATE => match peek(m.stack, 0) {
                            Value::Number(bits) => Effect::Continue(
                                Machine {
                                    stack: below(m.stack, 1).push(Value::Number(negated(bits))),
                                    ip: after,
                                },
                            ),
                            other => Effect::Fail(
                                RuntimeError::TypeError { kind: other.kind_of(), line },
                            ),
                        },
                        OpCode::NOT => Effect::Continue(
                            Machine {
                                stack: below(m.stack, 1).push(
                                    Value::Boolean(!peek(m.stack, 0).truthy()),
                                ),
                                ip: after,
                            },
                        ),
                        OpCode::EQUAL => Effect::Continue(
                            Machine {
                                stack: below(m.stack, 2).push(
                                    Value::Boolean(peek(m.stack, 1).equal_to(peek(m.stack, 0))),
                                ),
                                ip: after,
                            },
                        ),
                        OpCode::ADD => arithmetic(ArithOp::Add, m, line),
                        OpCode::SUBTRACT => arithmetic(ArithOp::Subtract, m, line),
                        OpCode::MULTIPLY => arithmetic(ArithOp::Multiply, m, line),
                        OpCode::DIVIDE => arithmetic(ArithOp::Divide, m, line),
                        OpCode::GREATER => comparison(true, m, line),
                        OpCode::LESS => comparison(false, m, line),
                        OpCode::JUMP => jump(chunk, m, line),
                        OpCode::JUMP_IF_FALSE => if peek(m.stack, 0).truthy() {
                            Effect::Continue(Machine { stack: m.stack, ip: after })
                        } else {
                            jump(chunk, m, line)
                        },
                        OpCode::RETURN => if m.stack.len() == 1 {
                            Effect::Finish(m.stack[0])
                        } else {
                            broken
                        },
                    }
                }
            },
        }
    }
}

/// What a run in state `m` comes to: the effect of the first instruction
/// that does not let it simply go on.
pub open spec fn run_from(chunk: ChunkView, m: Machine) -> Outcome
    decreases chunk.code.len() - m.ip,
{
    match step(chunk, m) {
        Effect::Continue(next) => run_from(chunk, next),
        Effect::Request(op, left, right, next) => Outcome {
            progress: Progress::Arithmetic { op, left, right },
            machine: next,
        },
        Effect::Finish(value) => Outcome { progress: Progress::Finished(value), machine: halted(m) },
        Effect::Fail(error) => Outcome { progress: Progress::Failed(error), machine: halted(m) },
    }
}

/// What a parked run in state `m` comes to once the caller has answered its
/// request with `bits`.
pub open spec fn resume_from(chunk: ChunkView, m: Machine, bits: u64) -> Outcome {
    run_from(chunk, Machine { stack: m.stack.push(Value::Number(bits)), ip: m.ip })
}

/// The state in which a parked run goes on once `bits` has been pushed as
/// the answer to its request.
pub open spec fn answered(m: Machine, bits: u64) -> Machine {
    Machine { stack: m.stack.push(Value::Number(bits)), ip: m.ip }
}

/// What a run in state `m` comes to where its requests are answered, one
/// after the other, with `answers`: the run's end where the answers are
/// enough, else the first request that they leave open.
pub open spec fn run_answered(chunk: ChunkView, m: Machine, answers: Seq<u64>) -> Outcome
    decreases answers.len(),
{
    let first = run_from(chunk, m);
    if answers.len() > 0 && first.progress is Arithmetic {
        run_answered(chunk, answered(first.machine, answers[0]), answers.drop_first())
    } else {
        first
    }
}

/// Whether `answers` are what `arith` may give to the requests of a run in
/// state `m`, one after the other, with no answer left over.
pub open spec fn answers_by<F: Fn(ArithOp, u64, u64) -> u64>(
    chunk: ChunkView,
    m: Machine,
    answers: Seq<u64>,
    arith: F,
) -> bool
    decreases answers.len(),
{
    if answers.len() == 0 {
        true
    } else {
        let first = run_from(chunk, m);
        match first.progress {
            Progress::Arithmetic { op, left, right } => call_ensures(
                arith,
                (op, left, right),
                answers[0],
            ) && answers_by(
                chunk,
                answered(first.machine, answers[0]),
                answers.drop_first(),
                arith,
            ),
            _ => false,
        }
    }
}

/// The result of a run that has ended.
pub open spec fn result_of(progress: Progress) -> Result<Value, RuntimeError>
    recommends
        !(progress is Arithmetic),
{
    match progress {
        Progress::Finished(value) => Ok(value),
        Progress::Failed(error) => Err(error),
        Progress::Arithmetic { .. } => Err(RuntimeError::InvariantViolation { line: 0 }),
    }
}

/// A run that parks has moved forward, and not beyond the stream's end.
pub proof fn lemma_parked_further(chunk: ChunkView, m: Machine)
    requires
        run_from(chunk, m).progress is Arithmetic,
    ensures
        m.ip < run_from(chunk, m).machine.ip <= chunk.code.len(),
    decreases chunk.code.len() - m.ip,
{
    match step(chunk, m) {
        Effect::Continue(next) => {
            lemma_parked_further(chunk, next);
        },
        _ => {},
    }
}

/// One more answer: where the answers so far leave a request open, the run
/// with that request answered too is the parked run taken up with the answer.
proof fn lemma_one_more_answer<F: Fn(ArithOp, u64, u64) -> u64>(
    chunk: ChunkView,
    m: Machine,
    answers: Seq<u64>,
    arith: F,
    bits: u64,
)
    requires
        answers_by(chunk, m, answers, arith),
        run_answered(chunk, m, answers).progress matches Progress::Arithmetic { op, left, right }
            && call_ensures(arith, (op, left, right), bits),
    ensures
        answers_by(chunk, m, answers.push(bits), arith),
        run_answered(chunk, m, answers.push(bits)) == resume_from(
            chunk,
            run_answered(chunk, m, answers).machine,
            bits,
        ),
    decreases answers.len(),
{
    let first = run_from(chunk, m);
    let more = answers.push(bits);
    if answers.len() == 0 {
        assert(more.drop_first() =~= Seq::<u64>::empty());
        assert(more[0] == bits);
        let next = answered(first.machine, bits);
        assert(run_answered(chunk, next, Seq::<u64>::empty()) == run_from(chunk, next));
        assert(answers_by(chunk, next, Seq::<u64>::empty(), arith));
    } else {
        assert(more.drop_first() =~= answers.drop_first().push(bits));
        assert(more[0] == answers[0]);
        lemma_one_more_answer(
            chunk,
            answered(first.machine, answers[0]),
            answers.drop_first(),
            arith,
            bits,
        );
    }
}

/// The machine. One machine serves any number of runs, one after another.
pub struct LoxState {
    stack: Vec<Value>,
    ip: usize,
    phase: Phase,
}

impl LoxState {
    /// The state of the run that the machine holds.
    pub closed spec fn machine(&self) -> Machine {
        Machine { stack: self.stack@, ip: self.ip as nat }
    }

    /// Where the machine is in its life.
    pub closed spec fn phase_of(&self) -> Phase {
        self.phase
    }

    /// A machine that has not run yet.
    pub fn new() -> (r: LoxState)
        ensures
            r.machine() == start(),
            r.phase_of() == Phase::Ready,
    {
        LoxState { stack: Vec::new(), ip: 0, phase: Phase::Ready }
    }

    /// Where the machine is in its life.
    pub fn phase(&self) -> (r: Phase)
        ensures
            r == self.phase_of(),
    {
        self.phase
    }

    /// How many values the stack holds.
    pub fn depth(&self) -> (r: usize)
        ensures
            r == self.machine().stack.len(),
    {
        self.stack.len()
    }

    /// The offset of the next instruction; after a run has ended, that of
    /// the instruction at which it ended.
    pub fn offset(&self) -> (r: usize)
        ensures
            r == self.machine().ip,
    {
        self.ip
    }

    /// Ends the run with a failure and unwinds the stack.
    fn fail(&mut self, error: RuntimeError) -> (r: Option<Progress>)
        ensures
            r == Some(Progress::Failed(error)),
            final(self).machine() == halted(old(self).machine()),
            final(self).phase_of() == old(self).phase_of(),
    {
        self.stack = Vec::new();
        Some(Progress::Failed(error))
    }

    /// Carries out the jump of the instruction at the current offset.
    fn take_jump(&mut self, chunk: &Chunk, line: u32) -> (r: Option<Progress>)
        requires
            old(self).machine().ip + 3 <= chunk@.code.len(),
        ensures
            step_result(jump(chunk@, old(self).machine(), line), old(self).machine(), r, final(self).machine()),
            final(self).phase_of() == old(self).phase_of(),
    {
        let code = chunk.bytes();
        let size: usize = code.len();
        let distance: usize = (code[self.ip + 1] as usize) * 256 + (code[self.ip + 2] as usize);
        let after: usize = self.ip + 3;
        if distance > size - after {
            self.fail(RuntimeError::InvariantViolation { line })
        } else {
            self.ip = after + distance;
            None
        }
    }

    /// Takes the two numbers off the top of the stack, or fails on the
    /// first of the two values there that is no number.
    fn take_numbers(&mut self, line: u32) -> (r: Result<(u64, u64), RuntimeError>)
        requires
            old(self).machine().stack.len() >= 2,
        ensures
            r == number_operands(old(self).machine().stack, line),
            final(self).machine().ip == old(self).machine().ip,
            final(self).machine().stack == if r is Ok {
                below(old(self).machine().stack, 2)
            } else {
                old(self).machine().stack
            },
            final(self).phase_of() == old(self).phase_of(),
    {
        let depth: usize = self.stack.len();
        let left: Value = self.stack[depth - 2];
        let right: Value = self.stack[depth - 1];
        match (left, right) {
            (Value::Number(a), Value::Number(b)) => {
                self.stack.pop();
                self.stack.pop();
                assert(self.stack@ =~= below(old(self).stack@, 2));
                Ok((a, b))
            },
            (Value::Number(_), other) => Err(RuntimeError::TypeError { kind: other.kind(), line }),
            (other, _) => Err(RuntimeError::TypeError { kind: other.kind(), line }),
        }
    }

    /// Carries out an arithmetic instruction: parks the run on the operation.
    fn take_arithmetic(&mut self, operation: ArithOp, line: u32) -> (r: Option<Progress>)
        requires
            old(self).machine().stack.len() >= 2,
            old(self).machine().ip < usize::MAX,
        ensures
            step_result(
                arithmetic(operation, old(self).machine(), line),
                old(self).machine(),
                r,
                final(self).machine(),
            ),
            final(self).phase_of() == old(self).phase_of(),
    {
        match self.take_numbers(line) {
            Ok((left, right)) => {
                self.ip = self.ip + 1;
                Some(Progress::Arithmetic { op: operation, left, right })
            },
            Err(error) => self.fail(error),
        }
    }

    /// Carries out `GREATER` or `LESS`.
    fn take_comparison(&mut self, greater: bool, line: u32) -> (r: Option<Progress>)
        requires
            old(self).machine().stack.len() >= 2,
            old(self).machine().ip < usize::MAX,
        ensures
            step_result(
                comparison(greater, old(self).machine(), line),
                old(self).machine(),
                r,
                final(self).machine(),
            ),
            final(self).phase_of() == old(self).phase_of(),
    {
        match self.take_numbers(line) {
            Ok((left, right)) => {
                let truth: bool = if greater {
                    bits_greater(left, right)
                } else {
                    bits_less(left, right)
                };
                self.stack.push(Value::Boolean(truth));
                self.ip = self.ip + 1;
                None
            },
            Err(error) => self.fail(error),
        }
    }

    /// Carries out the instruction at the current offset. `None` says that
    /// the run goes on.
    fn advance(&mut self, chunk: &Chunk) -> (r: Option<Progress>)
        ensures
            step_result(
                step(chunk@, old(self).machine()),
                old(self).machine(),
                r,
                final(self).machine(),
            ),
            final(self).phase_of() == old(self).phase_of(),
    {
        let code = chunk.bytes();
        let line: u32 = chunk.line_for(self.ip);
        let broken = RuntimeError::InvariantViolation { line };
        if self.ip >= code.len() {
            return self.fail(broken);
        }
        let op: OpCode = match OpCode::from_byte(code[self.ip]) {
            Some(op) => op,
            None => {
                return self.fail(broken);
            },
        };
        let width: usize = op.operands();
        if code.len() - self.ip < 1 + width {
            return self.fail(broken);
        }
        let depth: usize = self.stack.len();
        let needed: usize = match op {
            OpCode::CONSTANT | OpCode::NIL | OpCode::TRUE | OpCode::FALSE | OpCode::JUMP => 0,
            OpCode::NEGATE | OpCode::NOT | OpCode::JUMP_IF_FALSE | OpCode::RETURN => 1,
            _ => 2,
        };
        if depth < needed {
            return self.fail(RuntimeError::StackUnderflow { line });
        }
        let after: usize = self.ip + 1 + width;
        match op {
            OpCode::CONSTANT => {
                let index: usize = code[self.ip + 1] as usize;
                let constants = chunk.constants();
                if index < constants.len() {
                    self.stack.push(constants[index]);
                    self.ip = after;
                    None
                } else {
                    self.fail(broken)
                }
            },
            OpCode::NIL => {
                self.stack.push(Value::Nil);
                self.ip = after;
                None
            },
            OpCode::TRUE => {
                self.stack.push(Value::Boolean(true));
                self.ip = after;
                None
            },
            OpCode::FALSE => {
                self.stack.push(Value::Boolean(false));
                self.ip = after;
                None
            },
            OpCode::NEGATE => {
                let top: Value = self.stack[depth - 1];
                match top {
                    Value::Number(bits) => {
                        self.stack.pop();
                        self.stack.push(Value::Number(negate_bits(bits)));
                        self.ip = after;
                        assert(self.stack@ =~= below(old(self).stack@, 1).push(
                            Value::Number(negated(bits)),
                        ));
                        None
                    },
                    other => self.fail(RuntimeError::TypeError { kind: other.kind(), line }),
                }
            },
            OpCode::NOT => {
                let top: Value = self.stack[depth - 1];
                self.stack.pop();
                self.stack.push(Value::Boolean(!top.is_truthy()));
                self.ip = after;
                assert(self.stack@ =~= below(old(self).stack@, 1).push(
                    Value::Boolean(!top.truthy()),
                ));
                None
            },
            OpCode::EQUAL => {
                let left: Value = self.stack[depth - 2];
                let right: Value = self.stack[depth - 1];
                self.stack.pop();
                self.stack.pop();
                self.stack.push(Value::Boolean(left.equals(&right)));
                self.ip = after;
                assert(self.stack@ =~= below(old(self).stack@, 2).push(
                    Value::Boolean(left.equal_to(right)),
                ));
                None
            },
            OpCode::ADD => self.take_arithmetic(ArithOp::Add, line),
            OpCode::SUBTRACT => self.take_arithmetic(ArithOp::Subtract, line),
            OpCode::MULTIPLY => self.take_arithmetic(ArithOp::Multiply, line),
            OpCode::DIVIDE => self.take_arithmetic(ArithOp::Divide, line),
            OpCode::GREATER => self.take_comparison(true, line),
            OpCode::LESS => self.take_comparison(false, line),
            OpCode::JUMP => self.take_jump(chunk, line),
            OpCode::JUMP_IF_FALSE => {
                let top: Value = self.stack[depth - 1];
                if top.is_truthy() {
                    self.ip = after;
                    None
                } else {
                    self.take_jump(chunk, line)
                }
            },
            OpCode::RETURN => {
                if depth == 1 {
                    let result: Value = self.stack[0];
                    self.stack = Vec::new();
                    Some(Progress::Finished(result))
                } else {
                    self.fail(broken)
                }
            },
        }
    }

    /// Goes on with the run that the machine holds until it ends or parks.
    fn proceed(&mut self, chunk: &Chunk) -> (r: Progress)
        ensures
            r == run_from(chunk@, old(self).machine()).progress,
            final(self).machine() == run_from(chunk@, old(self).machine()).machine,
            final(self).phase_of() == phase_after(r),
    {
        loop
            invariant
                run_from(chunk@, self.machine()) == run_from(chunk@, old(self).machine()),
            decreases chunk@.code.len() - self.machine().ip,
        {
            match self.advance(chunk) {
                Some(progress) => {
                    self.phase = match progress {
                        Progress::Arithmetic { .. } => Phase::Running,
                        _ => Phase::Halted,
                    };
                    return progress;
                },
                None => {},
            }
        }
    }

    /// Runs a chunk from its start, on an empty stack, whatever the machine
    /// did before.
    pub fn run(&mut self, chunk: &Chunk) -> (r: Progress)
        ensures
            r == run_from(chunk@, start()).progress,
            final(self).machine() == run_from(chunk@, start()).machine,
            final(self).phase_of() == phase_after(r),
    {
        self.stack = Vec::new();
        self.ip = 0;
        self.proceed(chunk)
    }

    /// Runs a chunk from its start to its end, and has `arith` work out each
    /// arithmetic operation that the run comes to. What comes back is what
    /// the run comes to with the answers that `arith` gave.
    pub fn run_with<F: Fn(ArithOp, u64, u64) -> u64>(&mut self, chunk: &Chunk, arith: F) -> (r:
        Result<Value, RuntimeError>)
        requires
            forall|op: ArithOp, left: u64, right: u64| call_requires(arith, (op, left, right)),
        ensures
            exists|answers: Seq<u64>|
                {
                    &&& answers_by(chunk@, start(), answers, arith)
                    &&& !(#[trigger] run_answered(chunk@, start(), answers).progress is Arithmetic)
                    &&& r == result_of(run_answered(chunk@, start(), answers).progress)
                    &&& final(self).machine() == run_answered(chunk@, start(), answers).machine
                },
            final(self).phase_of() == Phase::Halted,
    {
        let mut progress: Progress = self.run(chunk);
        let ghost mut answers: Seq<u64> = Seq::empty();
        proof {
            if progress is Arithmetic {
                lemma_parked_further(chunk@, start());
            }
        }
        loop
            invariant
                forall|op: ArithOp, left: u64, right: u64| call_requires(arith, (op, left, right)),
                answers_by(chunk@, start(), answers, arith),
                run_answered(chunk@, start(), answers) == (Outcome {
                    progress,
                    machine: self.machine(),
                }),
                self.phase_of() == phase_after(progress),
                progress is Arithmetic ==> self.machine().ip <= chunk@.code.len(),
            decreases
                    if progress is Arithmetic {
                        chunk@.code.len() - self.machine().ip + 1
                    } else {
                        0
                    },
        {
            match progress {
                Progress::Finished(value) => {
                    return Ok(value);
                },
                Progress::Failed(error) => {
                    return Err(error);
                },
                Progress::Arithmetic { op, left, right } => {
                    let bits: u64 = arith(op, left, right);
                    proof {
                        lemma_one_more_answer(chunk@, start(), answers, arith, bits);
                        let parked = answered(self.machine(), bits);
                        if run_from(chunk@, parked).progress is Arithmetic {
                            lemma_parked_further(chunk@, parked);
                        }
                        answers = answers.push(bits);
                    }
                    progress = self.resume(chunk, bits);
                },
            }
        }
    }

    /// Answers the request on which the run is parked with the bit pattern
    /// of the result, and goes on with the run. On a machine that is not
    /// parked this is a failure, and ends whatever the machine held.
    pub fn resume(&mut self, chunk: &Chunk, bits: u64) -> (r: Progress)
        ensures
            old(self).phase_of() == Phase::Running ==> {
                &&& r == resume_from(chunk@, old(self).machine(), bits).progress
                &&& final(self).machine() == resume_from(chunk@, old(self).machine(), bits).machine
            },
            old(self).phase_of() != Phase::Running ==> {
                &&& r == Progress::Failed(
                    RuntimeError::InvariantViolation {
                        line: line_of(chunk@.lines, old(self).machine().ip),
                    },
                )
                &&& final(self).machine() == halted(old(self).machine())
            },
            final(self).phase_of() == phase_after(r),
    {
        match self.phase {
            Phase::Running => {
                self.stack.push(Value::Number(bits));
                self.proceed(chunk)
            },
            _ => {
                let line: u32 = chunk.line_for(self.ip);
                self.stack = Vec::new();
                self.phase = Phase::Halted;
                Progress::Failed(RuntimeError::InvariantViolation { line })
            },
        }
    }
}

/// The phase in which a call that came to `progress` leaves the machine.
pub open spec fn phase_after(progress: Progress) -> Phase {
    match progress {
        Progress::Arithmetic { .. } => Phase::Running,
        _ => Phase::Halted,
    }
}

/// Whether carrying out one instruction with effect `effect` in state
/// `before` is rightly reported as `report` and leaves the state `after`.
pub open spec fn step_result(
    effect: Effect,
    before: Machine,
    report: Option<Progress>,
    after: Machine,
) -> bool {
    match effect {
        Effect::Continue(next) => report is None && after == next,
        Effect::Request(op, left, right, next) => report == Some(
            Progress::Arithmetic { op, left, right },
        ) && after == next,
        Effect::Finish(value) => report == Some(Progress::Finished(value)) && after == halted(
            before,
        ),
        Effect::Fail(error) => report == Some(Progress::Failed(error)) && after == halted(before),
    }
}

} // verus!
