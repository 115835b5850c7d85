//! A bytecode container, its disassembler and a stack machine that runs it.
//!
//! - `value`, `number`: runtime values; a number is the bit pattern of a double.
//! - `opcode`, `layout`: the instruction set and how instructions lie in a stream.
//! - `chunk`: the container of instructions, constants and source lines.
//! - `validate`: telling whether a chunk keeps the rules of its format.
//! - `disasm`, `text`: a chunk as text.
//! - `vm`: the machine; `behaviour`: what it does on streams of given shapes.
//! - `cli`, `repl`, `location`: what a command line asks for, the decisions
//!   of a line-by-line session, and the URLs under which code is reported.
pub mod behaviour;
pub mod chunk;
pub mod cli;
pub mod disasm;
pub mod layout;
pub mod location;
pub mod number;
pub mod opcode;
pub mod repl;
pub mod text;
pub mod validate;
pub mod value;
pub mod vm;
