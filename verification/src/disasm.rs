//! The disassembler: a chunk as text, one line for each instruction.
//!
//! A listing starts with the header `=== name ===`. Each line after it gives
//! the instruction's offset in at least four digits, the source line (or
//! `   |` where it is that of the instruction before), the opcode's name and
//! its operand: for a constant its index and the value between quotes, for a
//! jump its distance and the offset at which it lands.
use vstd::prelude::*;
use crate::chunk::line_of;
use crate::chunk::Chunk;
use crate::chunk::ChunkView;
use crate::layout::extent;
use crate::layout::is_complete;
use crate::layout::jump_distance;
use crate::opcode::OpCode;
use crate::text::decimal;
use crate::text::padded;
use crate::text::push_decimal;
use crate::text::push_padded_decimal;
use crate::value::Value;

verus! {

/// The first line of a listing.
pub open spec fn header(name: Seq<char>) -> Seq<char> {
    "=== "@ + name + " ===\n"@
}

/// The column for the source line: the line in at least four characters, or
/// `   |` where the instruction before came from the same line.
pub open spec fn line_column(line: u32, previous: Option<u32>) -> Seq<char> {
    if previous == Some(line) {
        "   |"@
    } else {
        padded(decimal(line as nat), 4, ' ')
    }
}

/// The opcode's name and operand of the instruction at `at`.
pub open spec fn operation_text(chunk: ChunkView, at: nat) -> Seq<char>
    recommends
        at < chunk.code.len(),
{
    match OpCode::decode(chunk.code[at as int]) {
        None => "UNKNOWN "@ + decimal(chunk.code[at as int] as nat),
        Some(op) => if !is_complete(chunk.code, at) {
            op.mnemonic() + " (incomplete instruction)"@
        } else {
            match op {
                OpCode::CONSTANT => {
                    let index = chunk.code[at as int + 1] as nat;
                    op.mnemonic() + " "@ + decimal(index) + " "@ + (if index
                        < chunk.constants.len() {
                        "'"@ + chunk.constants[index as int].text() + "'"@
                    } else {
                        "(no such constant)"@
                    })
                },
                OpCode::JUMP | OpCode::JUMP_IF_FALSE => {
                    let distance = jump_distance(chunk.code, at);
                    op.mnemonic() + " "@ + decimal(distance) + " -> "@ + padded(
                        decimal(at + 3 + distance),
                        4,
                        '0',
                    )
                },
                _ => op.mnemonic(),
            }
        },
    }
}

/// The listing's line for the instruction at `at`, where the instruction
/// before it came from line `previous`.
pub open spec fn instruction_line(chunk: ChunkView, at: nat, previous: Option<u32>) -> Seq<char>
    recommends
        at < chunk.code.len(),
{
    padded(decimal(at), 4, '0') + " "@ + line_column(line_of(chunk.lines, at), previous) + " "@
        + operation_text(chunk, at) + "\n"@
}

/// The listing's lines from the instruction at `at` to the end of the stream.
pub open spec fn listing(chunk: ChunkView, at: nat, previous: Option<u32>) -> Seq<char>
    decreases chunk.code.len() - at,
{
    if at >= chunk.code.len() {
        Seq::<char>::empty()
    } else {
        instruction_line(chunk, at, previous) + listing(
            chunk,
            at + extent(chunk.code, at),
            Some(line_of(chunk.lines, at)),
        )
    }
}

/// The whole listing of a chunk under a name.
pub open spec fn disassembly(chunk: ChunkView, name: Seq<char>) -> Seq<char> {
    header(name) + listing(chunk, 0, None)
}

fn push_line_column(out: &mut String, line: u32, previous: Option<u32>)
    ensures
        final(out)@ == old(out)@ + line_column(line, previous),
{
    let same: bool = match previous {
        Some(before) => before == line,
        None => false,
    };
    if same {
        out.append("   |");
    } else {
        push_padded_decimal(out, line as u128, 4, ' ');
    }
}

fn push_operation(out: &mut String, chunk: &Chunk, at: usize) -> (taken: usize)
    requires
        at < chunk@.code.len(),
    ensures
        final(out)@ == old(out)@ + operation_text(chunk@, at as nat),
        taken == extent(chunk@.code, at as nat),
{
    let code = chunk.bytes();
    let left: usize = code.len() - at;
    let ghost start = out@;
    match OpCode::from_byte(code[at]) {
        None => {
            out.append("UNKNOWN ");
            push_decimal(out, code[at] as u128);
            assert(out@ =~= start + operation_text(chunk@, at as nat));
            1
        },
        Some(op) => {
            let width: usize = op.operands();
            out.append(op.name());
            if left < 1 + width {
                out.append(" (incomplete instruction)");
                assert(out@ =~= start + operation_text(chunk@, at as nat));
                left
            } else {
                match op {
                    OpCode::CONSTANT => {
                        let index: u8 = code[at + 1];
                        let constants = chunk.constants();
                        out.append(" ");
                        push_decimal(out, index as u128);
                        out.append(" ");
                        if (index as usize) < constants.len() {
                            let value: Value = constants[index as usize];
                            let shown: String = value.to_text();
                            out.append("'");
                            out.append(shown.as_str());
                            out.append("'");
                        } else {
                            out.append("(no such constant)");
                        }
                    },
                    OpCode::JUMP | OpCode::JUMP_IF_FALSE => {
                        let distance: u128 = (code[at + 1] as u128) * 256 + (code[at + 2] as u128);
                        out.append(" ");
                        push_decimal(out, distance);
                        out.append(" -> ");
                        push_padded_decimal(out, at as u128 + 3 + distance, 4, '0');
                    },
                    _ => {},
                }
                assert(out@ =~= start + operation_text(chunk@, at as nat));
                1 + width
            }
        },
    }
}

impl Chunk {
    /// Lists the chunk under `name`. The stream is only read: a byte that is
    /// no opcode, an operand that is cut off and a constant that is not in
    /// the pool each get a line that says so.
    pub fn disassemble(&self, name: &str) -> (r: String)
        ensures
            r@ == disassembly(self@, name@),
    {
        let mut out = String::from_str("=== ");
        out.append(name);
        out.append(" ===\n");
        let size: usize = self.size();
        let mut at: usize = 0;
        let mut previous: Option<u32> = None;
        while at < size
            invariant
                size == self@.code.len(),
                at <= size,
                out@ + listing(self@, at as nat, previous) == disassembly(self@, name@),
            decreases size - at,
        {
            let ghost before = out@;
            let ghost rest = listing(self@, at as nat, previous);
            let line: u32 = self.line_for(at);
            push_padded_decimal(&mut out, at as u128, 4, '0');
            out.append(" ");
            push_line_column(&mut out, line, previous);
            out.append(" ");
            let taken: usize = push_operation(&mut out, self, at);
            out.append("\n");
            proof {
                let tail = listing(self@, (at + taken) as nat, Some(line));
                assert(out@ =~= before + instruction_line(self@, at as nat, previous));
                assert(rest == instruction_line(self@, at as nat, previous) + tail);
                assert(out@ + tail =~= before + rest);
            }
            at += taken;
            previous = Some(line);
        }
        assert(out@ + Seq::<char>::empty() =~= out@);
        out
    }
}

} // verus!
