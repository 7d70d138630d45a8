//! Execution core of a small stack-based bytecode interpreter.
//!
//! The crate offers an instruction representation ([`bytecode`]), an
//! append-only constant pool ([`value`]), a pure disassembler that renders an
//! instruction stream as trace text ([`disassembler`]), the fetch-decode-execute
//! machine itself ([`vm`]), and the lexical scanner for the surface language
//! ([`scanner`]).
//!
//! Values are IEEE-754 double-precision numbers carried as their 64-bit
//! patterns; the machine never inspects them, it only moves them between the
//! pool and its evaluation stack.  Binary arithmetic is handed back to the
//! caller through [`vm::Outcome::NeedsBinary`], so a host that owns floating
//! point runs the loop: perform the operation, hand the result back with
//! [`vm::VirtualMachine::resume`], and continue.

pub mod bytecode;
pub mod disassembler;
pub mod scanner;
pub mod value;
pub mod vm;

pub use crate::bytecode::{ByteCode, ByteCodeView, Chunk, OpCode};
pub use crate::disassembler::{disassemble_instruction, disassembler};
pub use crate::scanner::{Scanner, Token, TokenType};
pub use crate::value::{ConstantPool, Value};
pub use crate::vm::{BinaryOperation, InterpretError, Outcome, Stack, VirtualMachine};
