//! The instruction representation.
//!
//! An instruction stream is an ordered sequence of [`Chunk`] words.  A word is
//! either the encoding of an [`OpCode`] or, immediately after a
//! `Constant` opcode word, one operand word holding an index into the
//! constant pool.  A parallel sequence of the same length records the source
//! line that produced each word.

use vstd::prelude::*;

use crate::value::{ConstantPool, Value};

verus! {

/// One word of the instruction stream: an opcode encoding or an operand.
pub type Chunk = usize;

/// The closed set of operations.  Each opcode has a fixed, stable integer
/// encoding given by [`OpCode::encoding`]; decoding any other integer is a
/// failure, never undefined behaviour.
#[derive(PartialEq, Eq, Clone, Copy, Debug, Structural)]
pub enum OpCode {
    /// Push the pool value named by the operand word that follows.
    Constant,
    Add,
    Subtract,
    Multiply,
    Divide,
    Negate,
    Return,
}

impl OpCode {
    /// The stable integer encoding of this opcode.
    pub open spec fn encoding(self) -> Chunk {
        match self {
            OpCode::Constant => 0,
            OpCode::Add => 1,
            OpCode::Subtract => 2,
            OpCode::Multiply => 3,
            OpCode::Divide => 4,
            OpCode::Negate => 5,
            OpCode::Return => 6,
        }
    }

    /// The opcode a word decodes to, or `None` for an unassigned encoding.
    pub open spec fn spec_decode(word: Chunk) -> Option<OpCode> {
        if word == 0 {
            Some(OpCode::Constant)
        } else if word == 1 {
            Some(OpCode::Add)
        } else if word == 2 {
            Some(OpCode::Subtract)
        } else if word == 3 {
            Some(OpCode::Multiply)
        } else if word == 4 {
            Some(OpCode::Divide)
        } else if word == 5 {
            Some(OpCode::Negate)
        } else if word == 6 {
            Some(OpCode::Return)
        } else {
            None
        }
    }

    /// Fallible decoding of a raw word: the only way a stored integer becomes
    /// an opcode.
    pub fn try_from(word: Chunk) -> (r: Result<OpCode, ()>)
        ensures
            r matches Ok(op) ==> Self::spec_decode(word) == Some(op),
            r is Err <==> Self::spec_decode(word) is None,
    {
        match word {
            0 => Ok(OpCode::Constant),
            1 => Ok(OpCode::Add),
            2 => Ok(OpCode::Subtract),
            3 => Ok(OpCode::Multiply),
            4 => Ok(OpCode::Divide),
            5 => Ok(OpCode::Negate),
            6 => Ok(OpCode::Return),
            _ => Err(()),
        }
    }

    /// The word that encodes this opcode; the inverse of [`OpCode::try_from`].
    pub fn to_chunk(self) -> (word: Chunk)
        ensures
            word == self.encoding(),
            Self::spec_decode(word) == Some(self),
    {
        match self {
            OpCode::Constant => 0,
            OpCode::Add => 1,
            OpCode::Subtract => 2,
            OpCode::Multiply => 3,
            OpCode::Divide => 4,
            OpCode::Negate => 5,
            OpCode::Return => 6,
        }
    }

    /// How many words an instruction beginning with this opcode occupies:
    /// `Constant` carries one operand word, every other opcode stands alone.
    pub open spec fn spec_width(self) -> nat {
        if self == OpCode::Constant {
            2
        } else {
            1
        }
    }
}

/// Decoding is a left inverse of encoding: every opcode survives the round
/// trip through its stored integer form.
pub proof fn lemma_opcode_round_trip(op: OpCode)
    ensures
        OpCode::spec_decode(op.encoding()) == Some(op),
{
}

/// The mathematical content of a [`ByteCode`]: the instruction words, the
/// parallel line numbers, and the constant pool.
pub struct ByteCodeView {
    pub chunks: Seq<Chunk>,
    pub lines: Seq<usize>,
    pub constants: Seq<Value>,
}

impl ByteCodeView {
    /// The line sequence mirrors the instruction stream word for word.
    pub open spec fn wf(self) -> bool {
        self.lines.len() == self.chunks.len()
    }
}

/// An instruction stream, its per-word source lines, and the constant pool
/// the instructions refer to.  Built once by an assembler, then read — never
/// mutated — by the disassembler and the interpreter.
pub struct ByteCode {
    chunks: Vec<Chunk>,
    constants: ConstantPool,
    lines: Vec<usize>,
}

impl View for ByteCode {
    type V = ByteCodeView;

    closed spec fn view(&self) -> ByteCodeView {
        ByteCodeView { chunks: self.chunks@, lines: self.lines@, constants: self.constants@ }
    }
}

impl ByteCode {
    /// Creates an empty stream with an empty pool.
    pub fn new() -> (bytecode: Self)
        ensures
            bytecode@.wf(),
            bytecode@.chunks == Seq::<Chunk>::empty(),
            bytecode@.lines == Seq::<usize>::empty(),
            bytecode@.constants == Seq::<Value>::empty(),
    {
        Self { chunks: Vec::new(), constants: ConstantPool::new(), lines: Vec::new() }
    }

    /// Appends one word together with the source line that produced it: the
    /// stream and the line sequence grow atomically and stay parallel.
    pub fn push_chunk(&mut self, chunk: Chunk, line: usize)
        ensures
            final(self)@.chunks == old(self)@.chunks.push(chunk),
            final(self)@.lines == old(self)@.lines.push(line),
            final(self)@.constants == old(self)@.constants,
            old(self)@.wf() ==> final(self)@.wf(),
    {
        self.chunks.push(chunk);
        self.lines.push(line);
    }

    /// Bounds-checked word accessor: `Some` exactly when `index` is within
    /// the stream.
    pub fn get_chunk(&self, index: usize) -> (r: Option<&Chunk>)
        ensures
            index < self@.chunks.len() ==> (r matches Some(c) && *c == self@.chunks[index as int]),
            index >= self@.chunks.len() ==> r is None,
    {
        self.chunks.get(index)
    }

    /// The whole instruction stream, read-only.
    pub fn get_chunks(&self) -> (r: &Vec<Chunk>)
        ensures
            r@ == self@.chunks,
    {
        &self.chunks
    }

    /// Total number of words in the stream.
    pub fn chunk_count(&self) -> (n: usize)
        ensures
            n == self@.chunks.len(),
    {
        self.chunks.len()
    }

    /// Appends a value to the constant pool and returns its index.
    pub fn push_constant(&mut self, constant: Value) -> (index: usize)
        ensures
            final(self)@.constants == old(self)@.constants.push(constant),
            index == old(self)@.constants.len(),
            final(self)@.chunks == old(self)@.chunks,
            final(self)@.lines == old(self)@.lines,
            old(self)@.wf() ==> final(self)@.wf(),
    {
        self.constants.push_value(constant)
    }

    /// Bounds-checked pool lookup, as [`ConstantPool::get`].
    pub fn get_constant(&self, index: usize) -> (r: Option<&Value>)
        ensures
            index < self@.constants.len() ==> (r matches Some(v) && *v == self@.constants[index as int]),
            index >= self@.constants.len() ==> r is None,
    {
        self.constants.get(index)
    }

    /// Bounds-checked accessor for the source line recorded at a word offset.
    pub fn get_line(&self, index: usize) -> (r: Option<&usize>)
        ensures
            index < self@.lines.len() ==> (r matches Some(l) && *l == self@.lines[index as int]),
            index >= self@.lines.len() ==> r is None,
    {
        self.lines.get(index)
    }
}

impl Default for ByteCode {
    fn default() -> (bytecode: Self)
        ensures
            bytecode@.wf(),
            bytecode@.chunks == Seq::<Chunk>::empty(),
            bytecode@.lines == Seq::<usize>::empty(),
            bytecode@.constants == Seq::<Value>::empty(),
    {
        Self::new()
    }
}

} // verus!
