//! The bytecode container: an instruction stream, the constants it refers to
//! and the source lines it came from.
use vstd::prelude::*;
use crate::opcode::IntoByte;
use crate::value::Value;

verus! {

/// The most constants one chunk can hold: as many as one operand byte can name.
pub const MAX_CONSTANTS: usize = 256;

/// Why a chunk refused an addition.
#[derive(Clone, Copy, Debug, PartialEq, Eq, Structural)]
pub enum ChunkError {
    /// The constant pool already holds `MAX_CONSTANTS` values.
    ConstantPoolOverflow,
}

/// A note that the instruction starting at `offset` came from source line `line`.
#[derive(Clone, Copy, Debug, PartialEq, Eq, Structural)]
pub struct LineMark {
    pub offset: usize,
    pub line: u32,
}

/// What a chunk holds, as mathematical sequences.
pub struct ChunkView {
    /// The instruction stream.
    pub code: Seq<u8>,
    /// The constant pool, in the order of insertion.
    pub constants: Seq<Value>,
    /// The line marks, in the order in which they were recorded.
    pub lines: Seq<LineMark>,
}

/// The mark among the first `n` that governs `offset`, if any does: of the
/// marks at or before `offset` the one furthest along the stream, and of
/// several at the same place the one recorded last.
pub open spec fn governing_mark(lines: Seq<LineMark>, offset: nat, n: nat) -> Option<LineMark>
    decreases n,
{
    if n == 0 || n > lines.len() {
        None
    } else {
        let earlier = governing_mark(lines, offset, (n - 1) as nat);
        let mark = lines[n - 1];
        if mark.offset <= offset && (earlier is None || earlier.unwrap().offset <= mark.offset) {
            Some(mark)
        } else {
            earlier
        }
    }
}

/// The source line of the byte at `offset`: that of the mark that governs
/// it, and 0 where no mark stands at or before `offset`.
pub open spec fn line_of(lines: Seq<LineMark>, offset: nat) -> u32 {
    match governing_mark(lines, offset, lines.len()) {
        Some(mark) => mark.line,
        None => 0,
    }
}

/// An append-only container of bytecode.
pub struct Chunk {
    bytes: Vec<u8>,
    constants: Vec<Value>,
    lines: Vec<LineMark>,
}

impl View for Chunk {
    type V = ChunkView;

    closed spec fn view(&self) -> ChunkView {
        ChunkView { code: self.bytes@, constants: self.constants@, lines: self.lines@ }
    }
}

impl Chunk {
    /// An empty chunk.
    pub fn new() -> (r: Chunk)
        ensures
            r@.code == Seq::<u8>::empty(),
            r@.constants == Seq::<Value>::empty(),
            r@.lines == Seq::<LineMark>::empty(),
    {
        Chunk { bytes: Vec::new(), constants: Vec::new(), lines: Vec::new() }
    }

    /// The instruction stream.
    pub fn bytes(&self) -> (r: &[u8])
        ensures
            r@ == self@.code,
    {
        self.bytes.as_slice()
    }

    /// The length of the instruction stream in bytes.
    pub fn size(&self) -> (r: usize)
        ensures
            r == self@.code.len(),
    {
        self.bytes.len()
    }

    /// The constant pool.
    pub fn constants(&self) -> (r: &[Value])
        ensures
            r@ == self@.constants,
    {
        self.constants.as_slice()
    }

    /// The line marks, in the order in which they were recorded.
    pub fn line_marks(&self) -> (r: &[LineMark])
        ensures
            r@ == self@.lines,
    {
        self.lines.as_slice()
    }

    /// Appends one byte to the instruction stream and returns the offset at
    /// which it stands. The byte is not examined.
    pub fn append<B: IntoByte>(&mut self, byte: B) -> (r: usize)
        ensures
            r == old(self)@.code.len(),
            final(self)@.code == old(self)@.code.push(byte.byte_of()),
            final(self)@.constants == old(self)@.constants,
            final(self)@.lines == old(self)@.lines,
    {
        let offset: usize = self.bytes.len();
        self.bytes.push(byte.into_byte());
        offset
    }

    /// Adds a value to the constant pool and returns its index, or refuses
    /// where the pool is full and leaves the chunk as it was.
    pub fn add_constant(&mut self, value: Value) -> (r: Result<u8, ChunkError>)
        ensures
            old(self)@.constants.len() < MAX_CONSTANTS ==> {
                &&& r == Ok::<u8, ChunkError>(old(self)@.constants.len() as u8)
                &&& final(self)@.constants == old(self)@.constants.push(value)
            },
            old(self)@.constants.len() >= MAX_CONSTANTS ==> {
                &&& r == Err::<u8, ChunkError>(ChunkError::ConstantPoolOverflow)
                &&& final(self)@.constants == old(self)@.constants
            },
            final(self)@.code == old(self)@.code,
            final(self)@.lines == old(self)@.lines,
    {
        let count: usize = self.constants.len();
        if count >= MAX_CONSTANTS {
            Err(ChunkError::ConstantPoolOverflow)
        } else {
            self.constants.push(value);
            Ok(count as u8)
        }
    }

    /// Notes that the instruction starting at `offset` came from source line
    /// `line`. Any offset is taken, in any order.
    pub fn record_line(&mut self, offset: usize, line: u32)
        ensures
            final(self)@.lines == old(self)@.lines.push(LineMark { offset, line }),
            final(self)@.code == old(self)@.code,
            final(self)@.constants == old(self)@.constants,
    {
        self.lines.push(LineMark { offset, line });
    }

    /// The source line of the byte at `offset`, which may lie inside an
    /// instruction or beyond the stream; 0 where no mark governs it.
    pub fn line_for(&self, offset: usize) -> (r: u32)
        ensures
            r == line_of(self@.lines, offset as nat),
    {
        let mut best: Option<LineMark> = None;
        let mut i: usize = 0;
        while i < self.lines.len()
            invariant
                i <= self.lines@.len(),
                best == governing_mark(self.lines@, offset as nat, i as nat),
            decreases self.lines@.len() - i,
        {
            let mark: LineMark = self.lines[i];
            if mark.offset <= offset {
                match best {
                    None => {
                        best = Some(mark);
                    },
                    Some(earlier) => {
                        if earlier.offset <= mark.offset {
                            best = Some(mark);
                        }
                    },
                }
            }
            i += 1;
        }
        match best {
            Some(mark) => mark.line,
            None => 0,
        }
    }
}

/// Where some mark stands at or before `offset`, the line of `offset` is
/// that of the mark `i` that no such mark beats: none stands further along
/// the stream, and none at the same place was recorded after it.
pub proof fn lemma_line_of_governing(lines: Seq<LineMark>, offset: nat, i: int)
    requires
        0 <= i < lines.len(),
        lines[i].offset <= offset,
        forall|j: int|
            0 <= j < lines.len() && lines[j].offset <= offset ==> lines[j].offset < lines[i].offset
                || (lines[j].offset == lines[i].offset && j <= i),
    ensures
        line_of(lines, offset) == lines[i].line,
{
    lemma_governing_prefix(lines, offset, i, lines.len());
}

/// Where every mark stands after `offset`, the line of `offset` is 0.
pub proof fn lemma_line_of_unmarked(lines: Seq<LineMark>, offset: nat)
    requires
        forall|j: int| 0 <= j < lines.len() ==> lines[j].offset > offset,
    ensures
        line_of(lines, offset) == 0,
{
    lemma_no_mark_prefix(lines, offset, lines.len());
}

/// An offset inside an instruction has the line of the instruction: where
/// no mark stands behind `at` up to `inside`, both have the same line.
pub proof fn lemma_line_inside_instruction(lines: Seq<LineMark>, at: nat, inside: nat)
    requires
        at <= inside,
        forall|j: int| 0 <= j < lines.len() ==> lines[j].offset <= at || lines[j].offset > inside,
    ensures
        line_of(lines, inside) == line_of(lines, at),
{
    lemma_same_marks_govern(lines, at, inside, lines.len());
}

proof fn lemma_same_marks_govern(lines: Seq<LineMark>, at: nat, inside: nat, n: nat)
    requires
        at <= inside,
        n <= lines.len(),
        forall|j: int| 0 <= j < lines.len() ==> lines[j].offset <= at || lines[j].offset > inside,
    ensures
        governing_mark(lines, inside, n) == governing_mark(lines, at, n),
    decreases n,
{
    if n > 0 {
        lemma_same_marks_govern(lines, at, inside, (n - 1) as nat);
        let mark = lines[n - 1];
        assert(mark.offset <= inside <==> mark.offset <= at);
    }
}

proof fn lemma_no_mark_prefix(lines: Seq<LineMark>, offset: nat, n: nat)
    requires
        n <= lines.len(),
        forall|j: int| 0 <= j < lines.len() ==> lines[j].offset > offset,
    ensures
        governing_mark(lines, offset, n) is None,
    decreases n,
{
    if n > 0 {
        lemma_no_mark_prefix(lines, offset, (n - 1) as nat);
    }
}

/// What `governing_mark` gives for a prefix is a mark of that prefix at or
/// before `offset` that none of the prefix beats.
proof fn lemma_governing_is_best(lines: Seq<LineMark>, offset: nat, n: nat)
    requires
        n <= lines.len(),
    ensures
        governing_mark(lines, offset, n) matches Some(mark) ==> mark.offset <= offset && (exists|
            k: int,
        |
            0 <= k < n && lines[k] == mark) && (forall|j: int|
            0 <= j < n && lines[j].offset <= offset ==> lines[j].offset <= mark.offset),
        governing_mark(lines, offset, n) is None ==> (forall|j: int|
            0 <= j < n ==> lines[j].offset > offset),
    decreases n,
{
    if n > 0 {
        lemma_governing_is_best(lines, offset, (n - 1) as nat);
    }
}

proof fn lemma_governing_prefix(lines: Seq<LineMark>, offset: nat, i: int, n: nat)
    requires
        0 <= i < n <= lines.len(),
        lines[i].offset <= offset,
        forall|j: int|
            0 <= j < lines.len() && lines[j].offset <= offset ==> lines[j].offset < lines[i].offset
                || (lines[j].offset == lines[i].offset && j <= i),
    ensures
        governing_mark(lines, offset, n) == Some(lines[i]),
    decreases n,
{
    if n == i + 1 {
        lemma_governing_is_best(lines, offset, i as nat);
        if let Some(mark) = governing_mark(lines, offset, i as nat) {
            let k = choose|k: int| 0 <= k < i && lines[k] == mark;
            assert(lines[k].offset <= lines[i].offset);
        }
    } else {
        lemma_governing_prefix(lines, offset, i, (n - 1) as nat);
        let last = lines[n - 1];
        assert(last.offset <= offset ==> last.offset < lines[i].offset);
    }
}

} // verus!
