//! The decisions of a line-by-line session: when it ends, what part of a
//! line is run, and which line it counts as.
//!
//! Reading the lines, running them and printing are left to the caller.
use vstd::prelude::*;
use vstd::string::StringSliceAdditionalSpecFns;

verus! {

/// Whether a byte is ASCII whitespace: a space, a tab, a line feed, a form
/// feed or a carriage return.
pub open spec fn is_blank(byte: u8) -> bool {
    byte == 32 || byte == 9 || byte == 10 || byte == 12 || byte == 13
}

/// The offset of the first byte at or after `at` that is not blank; the
/// length of the line where there is none.
pub open spec fn first_kept(bytes: Seq<u8>, at: nat) -> nat
    decreases bytes.len() - at,
{
    if at < bytes.len() && is_blank(bytes[at as int]) {
        first_kept(bytes, at + 1)
    } else {
        at
    }
}

/// The offset behind the last byte before `to` that is not blank, looking
/// no further back than `from`.
pub open spec fn last_kept(bytes: Seq<u8>, from: nat, to: nat) -> nat
    decreases to,
{
    if from < to <= bytes.len() && is_blank(bytes[to - 1]) {
        last_kept(bytes, from, (to - 1) as nat)
    } else {
        to
    }
}

/// Where the line starts once the blanks before it are left out.
pub open spec fn trim_start(bytes: Seq<u8>) -> nat {
    first_kept(bytes, 0)
}

/// Where the line ends once the blanks behind it are left out.
pub open spec fn trim_end(bytes: Seq<u8>) -> nat {
    last_kept(bytes, trim_start(bytes), bytes.len())
}

/// The line without the blanks around it.
pub open spec fn trimmed(bytes: Seq<u8>) -> Seq<u8> {
    bytes.subrange(trim_start(bytes) as int, trim_end(bytes) as int)
}

/// The bytes of `.exit`.
pub open spec fn exit_word() -> Seq<u8> {
    seq![46u8, 101u8, 120u8, 105u8, 116u8]
}

/// Whether a line asks for the end of the session: it is `.exit`, or starts
/// with the end-of-transmission character, blanks around it left out.
pub open spec fn asks_to_quit(bytes: Seq<u8>) -> bool {
    let kept = trimmed(bytes);
    kept == exit_word() || (kept.len() > 0 && kept[0] == 4)
}

/// What the session does with what it has read.
#[derive(Clone, Copy, Debug, PartialEq, Eq, Structural)]
pub enum ReplStep {
    /// The session ends.
    Quit,
    /// The bytes of the line from `from` up to `to` are run, as line
    /// `number` of the session.
    Evaluate { from: usize, to: usize, number: u64 },
}

/// A session: it counts the lines that it has had run.
pub struct Repl {
    line_no: u64,
}

impl Repl {
    /// The number of the line that is run next.
    pub closed spec fn next_line(&self) -> u64 {
        self.line_no
    }

    /// A session before its first line, which is line 1.
    pub fn new() -> (r: Repl)
        ensures
            r.next_line() == 1,
    {
        Repl { line_no: 1 }
    }

    /// The number of the line that is run next.
    pub fn line_number(&self) -> (r: u64)
        ensures
            r == self.next_line(),
    {
        self.line_no
    }

    /// Decides what to do with what was read: `None` where nothing could be
    /// read. The session ends there and on a line that asks for it. Any
    /// other line is run, blanks around it left out, and counted; the count
    /// stops at the largest number it can hold.
    pub fn read(&mut self, line: Option<&str>) -> (r: ReplStep)
        ensures
            match line {
                Some(text) if !asks_to_quit(text.spec_bytes()) => {
                    &&& r == (ReplStep::Evaluate {
                        from: trim_start(text.spec_bytes()) as usize,
                        to: trim_end(text.spec_bytes()) as usize,
                        number: old(self).next_line(),
                    })
                    &&& final(self).next_line() == if old(self).next_line() < u64::MAX {
                        (old(self).next_line() + 1) as u64
                    } else {
                        u64::MAX
                    }
                },
                _ => r == ReplStep::Quit && final(self).next_line() == old(self).next_line(),
            },
    {
        let text: &str = match line {
            Some(text) => text,
            None => {
                return ReplStep::Quit;
            },
        };
        let bytes = text.as_bytes();
        let (from, to) = trim_range(bytes);
        if is_quit(bytes, from, to) {
            return ReplStep::Quit;
        }
        let number: u64 = self.line_no;
        if self.line_no < u64::MAX {
            self.line_no = self.line_no + 1;
        }
        ReplStep::Evaluate { from, to, number }
    }
}

/// Tells whether a byte is ASCII whitespace.
pub fn blank(byte: u8) -> (r: bool)
    ensures
        r == is_blank(byte),
{
    byte == 32 || byte == 9 || byte == 10 || byte == 12 || byte == 13
}

/// Finds the part of a line that is left once the blanks around it are
/// left out: where it starts and where it ends.
pub fn trim_range(bytes: &[u8]) -> (r: (usize, usize))
    ensures
        r.0 == trim_start(bytes@),
        r.1 == trim_end(bytes@),
        r.0 <= r.1 <= bytes@.len(),
{
    let mut from: usize = 0;
    while from < bytes.len() && blank(bytes[from])
        invariant
            from <= bytes@.len(),
            first_kept(bytes@, from as nat) == first_kept(bytes@, 0),
        decreases bytes@.len() - from,
    {
        from += 1;
    }
    let mut to: usize = bytes.len();
    while from < to && blank(bytes[to - 1])
        invariant
            from <= to <= bytes@.len(),
            last_kept(bytes@, from as nat, to as nat) == last_kept(
                bytes@,
                from as nat,
                bytes@.len(),
            ),
        decreases to,
    {
        to -= 1;
    }
    (from, to)
}

/// Tells whether the part of a line between `from` and `to` asks for the
/// end of the session.
fn is_quit(bytes: &[u8], from: usize, to: usize) -> (r: bool)
    requires
        from == trim_start(bytes@),
        to == trim_end(bytes@),
        from <= to <= bytes@.len(),
    ensures
        r == asks_to_quit(bytes@),
{
    let ghost kept = trimmed(bytes@);
    if from < to && bytes[from] == 4 {
        assert(kept[0] == bytes@[from as int]);
        true
    } else if to - from == 5 {
        let same: bool = bytes[from] == 46 && bytes[from + 1] == 101 && bytes[from + 2] == 120
            && bytes[from + 3] == 105 && bytes[from + 4] == 116;
        proof {
            assert(kept.len() == 5);
            assert(forall|i: int| 0 <= i < 5 ==> kept[i] == bytes@[from + i]);
            if same {
                assert(kept =~= exit_word());
            } else {
                assert(exit_word()[0] == 46 && exit_word()[1] == 101 && exit_word()[2] == 120
                    && exit_word()[3] == 105 && exit_word()[4] == 116);
            }
        }
        same
    } else {
        proof {
            assert(kept.len() == to - from);
            assert(exit_word().len() == 5);
            if from < to {
                assert(kept[0] == bytes@[from as int]);
            }
        }
        false
    }
}

} // verus!
