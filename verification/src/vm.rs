//! The interpreter: a virtual machine with one instruction pointer and one
//! evaluation stack, driven by a fetch-decode-execute loop.
//!
//! The machine owns every decision — decoding, bounds checks, stack
//! discipline, pointer bookkeeping — but it does not own floating-point
//! arithmetic.  When it meets `Add`, `Subtract`, `Multiply` or `Divide` it
//! pops the two operands, advances past the instruction, and returns
//! [`Outcome::NeedsBinary`]; the host computes the IEEE-754 result and hands
//! it back through [`VirtualMachine::resume`], then calls
//! [`VirtualMachine::run`] again.  `Negate` is the one arithmetic instruction
//! the machine performs itself, because IEEE-754 negation is exactly a flip
//! of the sign bit.
//!
//! `Return` pops a value and emits it, but does not halt: the machine halts
//! only when the pointer reaches the end of the stream or a fault occurs.

use vstd::prelude::*;
use vstd::string::StringExecFns;

use crate::bytecode::{ByteCode, ByteCodeView, OpCode};
use crate::disassembler::{dec_digits, push_dec};
use crate::value::Value;

verus! {

/// The four run-time faults.  Each aborts the current run deterministically
/// at the point of detection and is reported as a typed result, never as a
/// crash.
#[derive(PartialEq, Eq, Clone, Copy, Debug, Structural)]
pub enum InterpretError {
    /// A word decoded to no known opcode: the stream is corrupted or
    /// malformed.
    InvalidOpcode,
    /// A `Constant` operand named a pool slot that was never assigned.
    ConstantIndexOutOfRange,
    /// An operation needed operands the evaluation stack does not have.
    StackUnderflow,
    /// A word or line was read past the end of the stream.
    OffsetOutOfRange,
}

/// The binary arithmetic operation a [`Outcome::NeedsBinary`] asks the host
/// to perform on two IEEE-754 doubles.
#[derive(PartialEq, Eq, Clone, Copy, Debug, Structural)]
pub enum BinaryOperation {
    Add,
    Subtract,
    Multiply,
    Divide,
}

/// What a successful call of [`VirtualMachine::run`] reports.
#[derive(PartialEq, Eq, Clone, Copy, Debug, Structural)]
pub enum Outcome {
    /// The instruction pointer reached the end of the stream.
    Halted,
    /// The machine popped `left` and `right` for the operation and advanced
    /// past the instruction; it now waits for
    /// [`VirtualMachine::resume`] with the computed result.  The fields are
    /// the operation, the left operand, and the right operand.
    NeedsBinary(BinaryOperation, Value, Value),
}

/// A LIFO stack.
pub struct Stack<T> {
    stack: Vec<T>,
}

impl<T> View for Stack<T> {
    type V = Seq<T>;

    closed spec fn view(&self) -> Seq<T> {
        self.stack@
    }
}

impl<T> Stack<T> {
    /// Creates an empty stack.
    pub fn new() -> (stack: Self)
        ensures
            stack@ == Seq::<T>::empty(),
    {
        Stack { stack: Vec::new() }
    }

    /// Removes and returns the top of the stack, or `None` if it is empty.
    pub fn pop(&mut self) -> (r: Option<T>)
        ensures
            old(self)@.len() == 0 ==> r is None && final(self)@ == old(self)@,
            old(self)@.len() > 0 ==> (r matches Some(item) && item == old(self)@.last()
                && final(self)@ == old(self)@.drop_last()),
    {
        self.stack.pop()
    }

    /// Pushes `item` on top of the stack.
    pub fn push(&mut self, item: T)
        ensures
            final(self)@ == old(self)@.push(item),
    {
        self.stack.push(item)
    }

    /// Number of items on the stack.
    pub fn len(&self) -> (n: usize)
        ensures
            n == self@.len(),
    {
        self.stack.len()
    }
}

/// The debug-trace rendering of a stack of values, bottom first: one
/// `[ value ]` frame per entry, the value as its stored 64-bit pattern.
pub open spec fn stack_text(values: Seq<Value>) -> Seq<char>
    decreases values.len(),
{
    if values.len() == 0 {
        Seq::<char>::empty()
    } else {
        stack_text(values.drop_last()) + seq!['[', ' '] + dec_digits(values.last() as nat)
            + seq![' ', ']']
    }
}

impl Stack<Value> {
    /// Renders the stack for a debug trace, bottom first; exactly
    /// [`stack_text`].
    pub fn render(&self) -> (s: String)
        ensures
            s@ == stack_text(self@),
    {
        let mut s = String::new();
        let mut i: usize = 0;
        while i < self.stack.len()
            invariant
                i <= self@.len(),
                s@ == stack_text(self@.take(i as int)),
            decreases self@.len() - i,
        {
            s.append("[ ");
            push_dec(&mut s, self.stack[i]);
            s.append(" ]");
            i = i + 1;
            proof {
                reveal_strlit("[ ");
                reveal_strlit(" ]");
                assert(self@.take(i as int).drop_last() =~= self@.take(i - 1));
                assert(self@.take(i as int).last() == self@[i - 1]);
                assert(s@ =~= stack_text(self@.take(i as int)));
            }
        }
        proof {
            assert(self@.take(self@.len() as int) =~= self@);
        }
        s
    }
}

/// IEEE-754 negation of a double: the sign bit flips and nothing else moves.
pub open spec fn negate_value(value: Value) -> Value {
    value ^ 0x8000_0000_0000_0000u64
}

/// Negating twice restores every bit pattern — in particular every finite
/// double — exactly.
pub proof fn lemma_negate_involution(value: Value)
    ensures
        negate_value(negate_value(value)) == value,
{
    assert((value ^ 0x8000_0000_0000_0000u64) ^ 0x8000_0000_0000_0000u64 == value)
        by (bit_vector);
}

/// The observable state of a machine: instruction pointer, evaluation stack,
/// and the values emitted by `Return` so far.
#[verifier::ext_equal]
pub struct VmState {
    pub ip: nat,
    pub stack: Seq<Value>,
    pub emitted: Seq<Value>,
}

/// Where a run starting from a given state ends up: halted at the end of the
/// stream, paused for one binary arithmetic result, or failed.
pub enum RunResult {
    /// The pointer reached the end of the stream; the carried state is the
    /// state at the halt.
    Halted(VmState),
    /// The machine waits for `left op right`; the carried state already has
    /// the operands popped and the pointer advanced.
    NeedsBinary(BinaryOperation, Value, Value, VmState),
    /// A fault; the carried state is the state just before the faulting
    /// instruction.
    Failed(InterpretError, VmState),
}

/// The [`BinaryOperation`] an arithmetic opcode asks for.  Meaningful only
/// for `Add`, `Subtract`, `Multiply` and `Divide`.
pub open spec fn binary_operation_of(op: OpCode) -> BinaryOperation {
    match op {
        OpCode::Subtract => BinaryOperation::Subtract,
        OpCode::Multiply => BinaryOperation::Multiply,
        OpCode::Divide => BinaryOperation::Divide,
        _ => BinaryOperation::Add,
    }
}

/// The step semantics of the machine, iterated until it halts, faults, or
/// needs one binary arithmetic result.  This is the specification that
/// [`VirtualMachine::run`] is proved to implement.
pub open spec fn run_from(s: VmState, bytecode: ByteCodeView) -> RunResult
    decreases bytecode.chunks.len() - s.ip,
{
    if s.ip >= bytecode.chunks.len() {
        RunResult::Halted(s)
    } else {
        match OpCode::spec_decode(bytecode.chunks[s.ip as int]) {
            None => RunResult::Failed(InterpretError::InvalidOpcode, s),
            Some(op) => match op {
                OpCode::Constant => {
                    if s.ip + 1 >= bytecode.chunks.len() {
                        RunResult::Failed(InterpretError::OffsetOutOfRange, s)
                    } else {
                        let index = bytecode.chunks[s.ip + 1 as int];
                        if index >= bytecode.constants.len() {
                            RunResult::Failed(InterpretError::ConstantIndexOutOfRange, s)
                        } else {
                            run_from(
                                VmState {
                                    ip: s.ip + 2,
                                    stack: s.stack.push(bytecode.constants[index as int]),
                                    emitted: s.emitted,
                                },
                                bytecode,
                            )
                        }
                    }
                },
                OpCode::Add | OpCode::Subtract | OpCode::Multiply | OpCode::Divide => {
                    if s.stack.len() < 2 {
                        RunResult::Failed(InterpretError::StackUnderflow, s)
                    } else {
                        RunResult::NeedsBinary(
                            binary_operation_of(op),
                            s.stack[s.stack.len() - 2],
                            s.stack[s.stack.len() - 1],
                            VmState {
                                ip: s.ip + 1,
                                stack: s.stack.drop_last().drop_last(),
                                emitted: s.emitted,
                            },
                        )
                    }
                },
                OpCode::Negate => {
                    if s.stack.len() == 0 {
                        RunResult::Failed(InterpretError::StackUnderflow, s)
                    } else {
                        run_from(
                            VmState {
                                ip: s.ip + 1,
                                stack: s.stack.drop_last().push(negate_value(s.stack.last())),
                                emitted: s.emitted,
                            },
                            bytecode,
                        )
                    }
                },
                OpCode::Return => {
                    if s.stack.len() == 0 {
                        RunResult::Failed(InterpretError::StackUnderflow, s)
                    } else {
                        run_from(
                            VmState {
                                ip: s.ip + 1,
                                stack: s.stack.drop_last(),
                                emitted: s.emitted.push(s.stack.last()),
                            },
                            bytecode,
                        )
                    }
                },
            },
        }
    }
}

/// A stream whose first word decodes to no opcode makes a fresh run fail with
/// [`InterpretError::InvalidOpcode`], whatever the word's value and whatever
/// else the stream holds.
pub proof fn lemma_invalid_first_word_faults(s: VmState, bytecode: ByteCodeView)
    requires
        s.ip == 0,
        bytecode.chunks.len() > 0,
        OpCode::spec_decode(bytecode.chunks[0]) is None,
    ensures
        run_from(s, bytecode) == RunResult::Failed(InterpretError::InvalidOpcode, s),
{
}

/// A stream that begins with `Return` makes a run starting on an empty stack
/// fail with [`InterpretError::StackUnderflow`]: there is no value to emit.
pub proof fn lemma_return_on_empty_stack_faults(s: VmState, bytecode: ByteCodeView)
    requires
        s.ip == 0,
        s.stack.len() == 0,
        bytecode.chunks.len() > 0,
        bytecode.chunks[0] == OpCode::Return.encoding(),
    ensures
        run_from(s, bytecode) == RunResult::Failed(InterpretError::StackUnderflow, s),
{
}

/// One interpreter instance: the instruction pointer, the evaluation stack it
/// exclusively owns, and the values emitted by `Return` so far.  The
/// bytecode it reads is borrowed and never mutated.
pub struct VirtualMachine {
    ip: usize,
    stack: Stack<Value>,
    emitted: Vec<Value>,
}

impl View for VirtualMachine {
    type V = VmState;

    closed spec fn view(&self) -> VmState {
        VmState { ip: self.ip as nat, stack: self.stack@, emitted: self.emitted@ }
    }
}

impl VirtualMachine {
    /// A fresh machine: pointer at offset 0, empty stack, nothing emitted.
    pub fn new() -> (vm: Self)
        ensures
            vm@ == (VmState {
                ip: 0,
                stack: Seq::<Value>::empty(),
                emitted: Seq::<Value>::empty(),
            }),
    {
        Self { ip: 0, stack: Stack::new(), emitted: Vec::new() }
    }

    /// The values emitted by `Return` instructions so far, oldest first.
    pub fn emitted_values(&self) -> (r: &Vec<Value>)
        ensures
            r@ == self@.emitted,
    {
        &self.emitted
    }

    /// Renders the evaluation stack for a debug trace, bottom first.
    pub fn stack_trace(&self) -> (s: String)
        ensures
            s@ == stack_text(self@.stack),
    {
        self.stack.render()
    }

    /// Hands the machine the result of the binary operation it asked for in
    /// an [`Outcome::NeedsBinary`]: the value is pushed and the machine is
    /// ready for the next [`VirtualMachine::run`].
    pub fn resume(&mut self, result: Value)
        ensures
            final(self)@ == (VmState {
                stack: old(self)@.stack.push(result),
                ..old(self)@
            }),
    {
        self.stack.push(result);
    }

    /// Pops the two operands for `operation` — right first, then left — and
    /// advances past the instruction, or reports underflow leaving the
    /// machine untouched.
    fn binary_op(&mut self, operation: BinaryOperation) -> (r: Result<Outcome, InterpretError>)
        requires
            old(self)@.ip + 1 <= usize::MAX,
        ensures
            old(self)@.stack.len() < 2 ==> r == Err::<Outcome, _>(InterpretError::StackUnderflow)
                && final(self)@ == old(self)@,
            old(self)@.stack.len() >= 2 ==> r == Ok::<_, InterpretError>(
                Outcome::NeedsBinary(
                    operation,
                    old(self)@.stack[old(self)@.stack.len() - 2],
                    old(self)@.stack[old(self)@.stack.len() - 1],
                ),
            ) && final(self)@ == (VmState {
                ip: old(self)@.ip + 1,
                stack: old(self)@.stack.drop_last().drop_last(),
                emitted: old(self)@.emitted,
            }),
    {
        if self.stack.len() < 2 {
            return Err(InterpretError::StackUnderflow);
        }
        let b = self.stack.pop().unwrap();
        let a = self.stack.pop().unwrap();
        self.ip = self.ip + 1;
        Ok(Outcome::NeedsBinary(operation, a, b))
    }

    /// Runs the fetch-decode-execute loop from the current state until the
    /// pointer reaches the end of the stream (`Ok(Outcome::Halted)`), a fault
    /// is detected (`Err`), or one binary arithmetic result is needed from
    /// the host (`Ok(Outcome::NeedsBinary)`); see [`run_from`] for the exact
    /// step semantics.
    pub fn run(&mut self, bytecode: &ByteCode) -> (r: Result<Outcome, InterpretError>)
        ensures
            (match run_from(old(self)@, bytecode@) {
                RunResult::Halted(s) => r == Ok::<_, InterpretError>(Outcome::Halted)
                    && final(self)@ == s,
                RunResult::NeedsBinary(op, left, right, s) => r == Ok::<_, InterpretError>(
                    Outcome::NeedsBinary(op, left, right),
                ) && final(self)@ == s,
                RunResult::Failed(e, s) => r == Err::<Outcome, _>(e) && final(self)@ == s,
            }),
    {
        while self.ip < bytecode.chunk_count()
            invariant
                run_from(self@, bytecode@) == run_from(old(self)@, bytecode@),
            decreases bytecode@.chunks.len() - self@.ip,
        {
            let ghost pre = self@;
            let chunk = *bytecode.get_chunk(self.ip).unwrap();
            match OpCode::try_from(chunk) {
                Err(_) => {
                    return Err(InterpretError::InvalidOpcode);
                },
                Ok(opcode) => match opcode {
                    OpCode::Constant => {
                        let operand_offset = self.ip + 1;
                        if operand_offset >= bytecode.chunk_count() {
                            return Err(InterpretError::OffsetOutOfRange);
                        }
                        let index = *bytecode.get_chunk(operand_offset).unwrap();
                        match bytecode.get_constant(index) {
                            None => {
                                return Err(InterpretError::ConstantIndexOutOfRange);
                            },
                            Some(constant) => {
                                let constant = *constant;
                                self.stack.push(constant);
                                self.ip = self.ip + 2;
                            },
                        }
                    },
                    OpCode::Add => {
                        return self.binary_op(BinaryOperation::Add);
                    },
                    OpCode::Subtract => {
                        return self.binary_op(BinaryOperation::Subtract);
                    },
                    OpCode::Multiply => {
                        return self.binary_op(BinaryOperation::Multiply);
                    },
                    OpCode::Divide => {
                        return self.binary_op(BinaryOperation::Divide);
                    },
                    OpCode::Negate => {
                        match self.stack.pop() {
                            None => {
                                return Err(InterpretError::StackUnderflow);
                            },
                            Some(element) => {
                                self.stack.push(element ^ 0x8000_0000_0000_0000u64);
                                self.ip = self.ip + 1;
                            },
                        }
                    },
                    OpCode::Return => {
                        match self.stack.pop() {
                            None => {
                                return Err(InterpretError::StackUnderflow);
                            },
                            Some(element) => {
                                self.emitted.push(element);
                                self.ip = self.ip + 1;
                            },
                        }
                    },
                },
            }
            proof {
                assert(run_from(pre, bytecode@) == run_from(self@, bytecode@));
            }
        }
        Ok(Outcome::Halted)
    }
}

impl Default for VirtualMachine {
    fn default() -> (vm: Self)
        ensures
            vm@ == (VmState {
                ip: 0,
                stack: Seq::<Value>::empty(),
                emitted: Seq::<Value>::empty(),
            }),
    {
        Self::new()
    }
}

} // verus!
