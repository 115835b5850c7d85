//! The instruction set: one byte per opcode, each with a fixed operand width.
use vstd::prelude::*;

verus! {

/// An instruction's tag. Its byte is the contract between whoever writes a
/// chunk and whoever runs it, so the bytes below never change.
#[allow(non_camel_case_types)]
#[derive(Clone, Copy, Debug, PartialEq, Eq, Structural)]
pub enum OpCode {
    /// Pops the result and ends the run.
    RETURN,
    /// Pushes a constant; one operand byte, the constant's index.
    CONSTANT,
    NIL,
    TRUE,
    FALSE,
    NEGATE,
    ADD,
    SUBTRACT,
    MULTIPLY,
    DIVIDE,
    EQUAL,
    GREATER,
    LESS,
    NOT,
    /// Jumps forward; two operand bytes, the distance, high byte first.
    JUMP,
    /// Jumps forward if the top of the stack is falsy; two operand bytes.
    JUMP_IF_FALSE,
}

impl OpCode {
    /// The byte that stands for this opcode in an instruction stream.
    pub open spec fn code(self) -> u8 {
        match self {
            OpCode::RETURN => 0,
            OpCode::CONSTANT => 1,
            OpCode::NIL => 2,
            OpCode::TRUE => 3,
            OpCode::FALSE => 4,
            OpCode::NEGATE => 5,
            OpCode::ADD => 6,
            OpCode::SUBTRACT => 7,
            OpCode::MULTIPLY => 8,
            OpCode::DIVIDE => 9,
            OpCode::EQUAL => 10,
            OpCode::GREATER => 11,
            OpCode::LESS => 12,
            OpCode::NOT => 13,
            OpCode::JUMP => 14,
            OpCode::JUMP_IF_FALSE => 15,
        }
    }

    /// The opcode that a byte stands for, if any.
    pub open spec fn decode(byte: u8) -> Option<OpCode> {
        if byte == 0 {
            Some(OpCode::RETURN)
        } else if byte == 1 {
            Some(OpCode::CONSTANT)
        } else if byte == 2 {
            Some(OpCode::NIL)
        } else if byte == 3 {
            Some(OpCode::TRUE)
        } else if byte == 4 {
            Some(OpCode::FALSE)
        } else if byte == 5 {
            Some(OpCode::NEGATE)
        } else if byte == 6 {
            Some(OpCode::ADD)
        } else if byte == 7 {
            Some(OpCode::SUBTRACT)
        } else if byte == 8 {
            Some(OpCode::MULTIPLY)
        } else if byte == 9 {
            Some(OpCode::DIVIDE)
        } else if byte == 10 {
            Some(OpCode::EQUAL)
        } else if byte == 11 {
            Some(OpCode::GREATER)
        } else if byte == 12 {
            Some(OpCode::LESS)
        } else if byte == 13 {
            Some(OpCode::NOT)
        } else if byte == 14 {
            Some(OpCode::JUMP)
        } else if byte == 15 {
            Some(OpCode::JUMP_IF_FALSE)
        } else {
            None
        }
    }

    /// How many operand bytes follow the opcode byte.
    pub open spec fn operand_width(self) -> nat {
        match self {
            OpCode::CONSTANT => 1,
            OpCode::JUMP | OpCode::JUMP_IF_FALSE => 2,
            _ => 0,
        }
    }

    /// The name under which the opcode is listed.
    pub open spec fn mnemonic(self) -> Seq<char> {
        match self {
            OpCode::RETURN => "RETURN"@,
            OpCode::CONSTANT => "CONSTANT"@,
            OpCode::NIL => "NIL"@,
            OpCode::TRUE => "TRUE"@,
            OpCode::FALSE => "FALSE"@,
            OpCode::NEGATE => "NEGATE"@,
            OpCode::ADD => "ADD"@,
            OpCode::SUBTRACT => "SUBTRACT"@,
            OpCode::MULTIPLY => "MULTIPLY"@,
            OpCode::DIVIDE => "DIVIDE"@,
            OpCode::EQUAL => "EQUAL"@,
            OpCode::GREATER => "GREATER"@,
            OpCode::LESS => "LESS"@,
            OpCode::NOT => "NOT"@,
            OpCode::JUMP => "JUMP"@,
            OpCode::JUMP_IF_FALSE => "JUMP_IF_FALSE"@,
        }
    }

    pub fn to_byte(self) -> (r: u8)
        ensures
            r == self.code(),
    {
        match self {
            OpCode::RETURN => 0,
            OpCode::CONSTANT => 1,
            OpCode::NIL => 2,
            OpCode::TRUE => 3,
            OpCode::FALSE => 4,
            OpCode::NEGATE => 5,
            OpCode::ADD => 6,
            OpCode::SUBTRACT => 7,
            OpCode::MULTIPLY => 8,
            OpCode::DIVIDE => 9,
            OpCode::EQUAL => 10,
            OpCode::GREATER => 11,
            OpCode::LESS => 12,
            OpCode::NOT => 13,
            OpCode::JUMP => 14,
            OpCode::JUMP_IF_FALSE => 15,
        }
    }

    /// Reads a byte as an opcode; `None` for a byte that stands for none.
    pub fn from_byte(byte: u8) -> (r: Option<OpCode>)
        ensures
            r == OpCode::decode(byte),
    {
        match byte {
            0 => Some(OpCode::RETURN),
            1 => Some(OpCode::CONSTANT),
            2 => Some(OpCode::NIL),
            3 => Some(OpCode::TRUE),
            4 => Some(OpCode::FALSE),
            5 => Some(OpCode::NEGATE),
            6 => Some(OpCode::ADD),
            7 => Some(OpCode::SUBTRACT),
            8 => Some(OpCode::MULTIPLY),
            9 => Some(OpCode::DIVIDE),
            10 => Some(OpCode::EQUAL),
            11 => Some(OpCode::GREATER),
            12 => Some(OpCode::LESS),
            13 => Some(OpCode::NOT),
            14 => Some(OpCode::JUMP),
            15 => Some(OpCode::JUMP_IF_FALSE),
            _ => None,
        }
    }

    pub fn operands(self) -> (r: usize)
        ensures
            r == self.operand_width(),
            r <= 2,
    {
        match self {
            OpCode::CONSTANT => 1,
            OpCode::JUMP | OpCode::JUMP_IF_FALSE => 2,
            _ => 0,
        }
    }

    pub fn name(self) -> (r: &'static str)
        ensures
            r@ == self.mnemonic(),
    {
        match self {
            OpCode::RETURN => "RETURN",
            OpCode::CONSTANT => "CONSTANT",
            OpCode::NIL => "NIL",
            OpCode::TRUE => "TRUE",
            OpCode::FALSE => "FALSE",
            OpCode::NEGATE => "NEGATE",
            OpCode::ADD => "ADD",
            OpCode::SUBTRACT => "SUBTRACT",
            OpCode::MULTIPLY => "MULTIPLY",
            OpCode::DIVIDE => "DIVIDE",
            OpCode::EQUAL => "EQUAL",
            OpCode::GREATER => "GREATER",
            OpCode::LESS => "LESS",
            OpCode::NOT => "NOT",
            OpCode::JUMP => "JUMP",
            OpCode::JUMP_IF_FALSE => "JUMP_IF_FALSE",
        }
    }
}

impl From<OpCode> for u8 {
    fn from(value: OpCode) -> (r: u8) {
        value.to_byte()
    }
}

impl vstd::std_specs::convert::FromSpecImpl<OpCode> for u8 {
    open spec fn obeys_from_spec() -> bool {
        true
    }

    open spec fn from_spec(value: OpCode) -> u8 {
        value.code()
    }
}

/// What can be written into an instruction stream as one byte: an opcode,
/// or a raw byte such as an operand.
pub trait IntoByte: Sized {
    /// The byte that is written.
    spec fn byte_of(self) -> u8;

    fn into_byte(self) -> (r: u8)
        ensures
            r == self.byte_of(),
    ;
}

impl IntoByte for u8 {
    open spec fn byte_of(self) -> u8 {
        self
    }

    fn into_byte(self) -> (r: u8) {
        self
    }
}

impl IntoByte for OpCode {
    open spec fn byte_of(self) -> u8 {
        self.code()
    }

    fn into_byte(self) -> (r: u8) {
        self.to_byte()
    }
}

/// An opcode's byte decodes to that opcode.
pub proof fn lemma_decode_code(op: OpCode)
    ensures
        OpCode::decode(op.code()) == Some(op),
{
}

/// A byte that decodes to an opcode is that opcode's byte, so no two opcodes
/// share a byte and no byte above 15 is an opcode.
pub proof fn lemma_code_decode(byte: u8)
    ensures
        OpCode::decode(byte) matches Some(op) ==> op.code() == byte,
        OpCode::decode(byte) is Some <==> byte <= 15,
{
}

} // verus!
