//! A pure, read-only disassembler: it walks an instruction stream and renders
//! one line of trace text per instruction, without mutating anything.
//!
//! Each line starts with the word offset zero-padded to four columns, then
//! the source line number right-aligned to four columns — or the filler
//! `   | ` when the line repeats the previous word's line, pure presentation
//! with no semantic weight — then the opcode's mnemonic.  A `Constant`
//! instruction also shows its operand index and the pool value it names (as
//! the stored 64-bit pattern), and advances two words; every other opcode
//! advances one.  Decoding an invalid opcode, reading past the end of the
//! stream, or an operand pointing outside the pool is a fatal diagnostic
//! error for the pass, reported as a typed result.

use vstd::prelude::*;
use vstd::string::StringExecFns;

use crate::bytecode::{ByteCode, ByteCodeView, OpCode};
use crate::value::Value;
use crate::vm::InterpretError;

verus! {

/// The character for one decimal digit.
pub open spec fn digit_char(d: nat) -> char {
    if d == 0 {
        '0'
    } else if d == 1 {
        '1'
    } else if d == 2 {
        '2'
    } else if d == 3 {
        '3'
    } else if d == 4 {
        '4'
    } else if d == 5 {
        '5'
    } else if d == 6 {
        '6'
    } else if d == 7 {
        '7'
    } else if d == 8 {
        '8'
    } else {
        '9'
    }
}

/// The decimal rendering of `n`, most significant digit first, no sign and
/// no padding.
pub open spec fn dec_digits(n: nat) -> Seq<char>
    decreases n,
{
    if n < 10 {
        seq![digit_char(n)]
    } else {
        dec_digits(n / 10).push(digit_char(n % 10))
    }
}

/// `count` copies of `fill`.
pub open spec fn fill_chars(fill: char, count: nat) -> Seq<char> {
    Seq::new(count, |i: int| fill)
}

/// `text` left-padded with `fill` to `width` columns; text already that wide
/// is kept as it is.
pub open spec fn padded(fill: char, width: nat, text: Seq<char>) -> Seq<char> {
    if text.len() >= width {
        text
    } else {
        fill_chars(fill, (width - text.len()) as nat) + text
    }
}

/// The mnemonic of an opcode.
pub open spec fn mnemonic(op: OpCode) -> Seq<char> {
    match op {
        OpCode::Constant => seq!['C', 'O', 'N', 'S', 'T', 'A', 'N', 'T'],
        OpCode::Add => seq!['A', 'D', 'D'],
        OpCode::Subtract => seq!['S', 'U', 'B', 'T', 'R', 'A', 'C', 'T'],
        OpCode::Multiply => seq!['M', 'U', 'L', 'T', 'I', 'P', 'L', 'Y'],
        OpCode::Divide => seq!['D', 'I', 'V', 'I', 'D', 'E'],
        OpCode::Negate => seq!['N', 'E', 'G', 'A', 'T', 'E'],
        OpCode::Return => seq!['R', 'E', 'T', 'U', 'R', 'N'],
    }
}

/// The line-number column for a word offset: the number itself for offset 0,
/// the filler when the line repeats the previous word's, the number
/// otherwise; always five columns including the trailing separator.
pub open spec fn line_marker(lines: Seq<usize>, offset: nat) -> Seq<char> {
    if offset > 0 && lines[offset as int] == lines[offset - 1] {
        seq![' ', ' ', ' ', '|', ' ']
    } else {
        padded(' ', 4, dec_digits(lines[offset as int] as nat)) + seq![' ']
    }
}

/// The tail of a `Constant` trace line: the padded mnemonic, the operand
/// index, and the quoted pool value.
pub open spec fn constant_tail(index: nat, value: Value) -> Seq<char> {
    mnemonic(OpCode::Constant) + fill_chars(' ', 8) + seq![' '] + dec_digits(index)
        + seq![' ', '\''] + dec_digits(value as nat) + seq!['\'', '\n']
}

/// What disassembling the single instruction at `offset` produces: its trace
/// line and the offset of the next instruction, or the fault that stops the
/// pass.  This is the specification [`disassemble_instruction`] is proved to
/// implement.
pub open spec fn disasm_one(bytecode: ByteCodeView, offset: nat) -> Result<
    (Seq<char>, nat),
    InterpretError,
> {
    if offset >= bytecode.chunks.len() {
        Err(InterpretError::OffsetOutOfRange)
    } else {
        let prefix = padded('0', 4, dec_digits(offset)) + seq![' '] + line_marker(
            bytecode.lines,
            offset,
        );
        match OpCode::spec_decode(bytecode.chunks[offset as int]) {
            None => Err(InterpretError::InvalidOpcode),
            Some(OpCode::Constant) => {
                if offset + 1 >= bytecode.chunks.len() {
                    Err(InterpretError::OffsetOutOfRange)
                } else {
                    let index = bytecode.chunks[offset + 1 as int];
                    if index >= bytecode.constants.len() {
                        Err(InterpretError::ConstantIndexOutOfRange)
                    } else {
                        Ok(
                            (
                                prefix + constant_tail(
                                    index as nat,
                                    bytecode.constants[index as int],
                                ),
                                offset + 2,
                            ),
                        )
                    }
                }
            },
            Some(op) => Ok((prefix + mnemonic(op) + seq!['\n'], offset + 1)),
        }
    }
}

/// The trace text of the whole stream from `offset` on: the concatenation of
/// one line per instruction, or the first fault met.
pub open spec fn disasm_stream(bytecode: ByteCodeView, offset: nat) -> Result<
    Seq<char>,
    InterpretError,
>
    decreases bytecode.chunks.len() - offset,
{
    if offset >= bytecode.chunks.len() {
        Ok(Seq::<char>::empty())
    } else {
        match disasm_one(bytecode, offset) {
            Err(e) => Err(e),
            Ok((text, next)) => match disasm_stream(bytecode, next) {
                Err(e) => Err(e),
                Ok(rest) => Ok(text + rest),
            },
        }
    }
}

/// The header of a whole-stream trace.
pub open spec fn header_text(label: Seq<char>) -> Seq<char> {
    seq!['=', '=', ' '] + label + seq![' ', '=', '=', '\n']
}

/// Appends the character for decimal digit `d`.
fn push_digit(out: &mut String, d: u64)
    requires
        d < 10,
    ensures
        final(out)@ == old(out)@ + seq![digit_char(d as nat)],
{
    if d == 0 {
        out.append("0");
        proof {
            reveal_strlit("0");
            assert(out@ =~= old(out)@ + seq![digit_char(d as nat)]);
        }
    } else if d == 1 {
        out.append("1");
        proof {
            reveal_strlit("1");
            assert(out@ =~= old(out)@ + seq![digit_char(d as nat)]);
        }
    } else if d == 2 {
        out.append("2");
        proof {
            reveal_strlit("2");
            assert(out@ =~= old(out)@ + seq![digit_char(d as nat)]);
        }
    } else if d == 3 {
        out.append("3");
        proof {
            reveal_strlit("3");
            assert(out@ =~= old(out)@ + seq![digit_char(d as nat)]);
        }
    } else if d == 4 {
        out.append("4");
        proof {
            reveal_strlit("4");
            assert(out@ =~= old(out)@ + seq![digit_char(d as nat)]);
        }
    } else if d == 5 {
        out.append("5");
        proof {
            reveal_strlit("5");
            assert(out@ =~= old(out)@ + seq![digit_char(d as nat)]);
        }
    } else if d == 6 {
        out.append("6");
        proof {
            reveal_strlit("6");
            assert(out@ =~= old(out)@ + seq![digit_char(d as nat)]);
        }
    } else if d == 7 {
        out.append("7");
        proof {
            reveal_strlit("7");
            assert(out@ =~= old(out)@ + seq![digit_char(d as nat)]);
        }
    } else if d == 8 {
        out.append("8");
        proof {
            reveal_strlit("8");
            assert(out@ =~= old(out)@ + seq![digit_char(d as nat)]);
        }
    } else {
        out.append("9");
        proof {
            reveal_strlit("9");
            assert(out@ =~= old(out)@ + seq![digit_char(d as nat)]);
        }
    }
}

/// Appends the decimal rendering of `n`.
pub(crate) fn push_dec(out: &mut String, n: u64)
    ensures
        final(out)@ == old(out)@ + dec_digits(n as nat),
    decreases n,
{
    if n >= 10 {
        push_dec(out, n / 10);
        push_digit(out, n % 10);
        proof {
            assert(out@ =~= old(out)@ + dec_digits(n as nat));
        }
    } else {
        push_digit(out, n);
        proof {
            assert(out@ =~= old(out)@ + dec_digits(n as nat));
        }
    }
}

/// The decimal rendering of `n` has one character per digit: one up to 9,
/// two up to 99, three up to 999, and at least four from 1000 on.
proof fn lemma_dec_digits_len(n: nat)
    ensures
        n < 10 ==> dec_digits(n).len() == 1,
        10 <= n < 100 ==> dec_digits(n).len() == 2,
        100 <= n < 1000 ==> dec_digits(n).len() == 3,
        n >= 1000 ==> dec_digits(n).len() >= 4,
    decreases n,
{
    if n >= 10 {
        lemma_dec_digits_len(n / 10);
    }
}

/// Appends the decimal rendering of `n` left-padded to four columns, with
/// zeros or with spaces.
fn push_dec_pad4(out: &mut String, n: u64, zero: bool)
    ensures
        final(out)@ == old(out)@ + padded(if zero { '0' } else { ' ' }, 4, dec_digits(n as nat)),
{
    proof {
        lemma_dec_digits_len(n as nat);
    }
    if zero {
        if n < 10 {
            out.append("000");
        } else if n < 100 {
            out.append("00");
        } else if n < 1000 {
            out.append("0");
        }
        proof {
            reveal_strlit("000");
            reveal_strlit("00");
            reveal_strlit("0");
        }
    } else {
        if n < 10 {
            out.append("   ");
        } else if n < 100 {
            out.append("  ");
        } else if n < 1000 {
            out.append(" ");
        }
        proof {
            reveal_strlit("   ");
            reveal_strlit("  ");
            reveal_strlit(" ");
        }
    }
    push_dec(out, n);
    proof {
        assert(out@ =~= old(out)@ + padded(
            if zero { '0' } else { ' ' },
            4,
            dec_digits(n as nat),
        ));
    }
}

/// Appends the mnemonic of `op`.
fn push_mnemonic(out: &mut String, op: OpCode)
    ensures
        final(out)@ == old(out)@ + mnemonic(op),
{
    match op {
        OpCode::Constant => {
            out.append("CONSTANT");
            proof {
                reveal_strlit("CONSTANT");
                assert(out@ =~= old(out)@ + mnemonic(op));
            }
        },
        OpCode::Add => {
            out.append("ADD");
            proof {
                reveal_strlit("ADD");
                assert(out@ =~= old(out)@ + mnemonic(op));
            }
        },
        OpCode::Subtract => {
            out.append("SUBTRACT");
            proof {
                reveal_strlit("SUBTRACT");
                assert(out@ =~= old(out)@ + mnemonic(op));
            }
        },
        OpCode::Multiply => {
            out.append("MULTIPLY");
            proof {
                reveal_strlit("MULTIPLY");
                assert(out@ =~= old(out)@ + mnemonic(op));
            }
        },
        OpCode::Divide => {
            out.append("DIVIDE");
            proof {
                reveal_strlit("DIVIDE");
                assert(out@ =~= old(out)@ + mnemonic(op));
            }
        },
        OpCode::Negate => {
            out.append("NEGATE");
            proof {
                reveal_strlit("NEGATE");
                assert(out@ =~= old(out)@ + mnemonic(op));
            }
        },
        OpCode::Return => {
            out.append("RETURN");
            proof {
                reveal_strlit("RETURN");
                assert(out@ =~= old(out)@ + mnemonic(op));
            }
        },
    }
}

/// Renders the single instruction at `offset` and reports where the next one
/// starts — one word further for a plain opcode, two for `Constant` — or the
/// fault that stops the pass; exactly [`disasm_one`].
pub fn disassemble_instruction(bytecode: &ByteCode, offset: usize) -> (r: Result<
    (String, usize),
    InterpretError,
>)
    requires
        bytecode@.wf(),
    ensures
        (match disasm_one(bytecode@, offset as nat) {
            Ok(text_next) => r matches Ok(p) && p.0@ == text_next.0 && p.1 == text_next.1,
            Err(e) => r == Err::<(String, usize), _>(e),
        }),
{
    let count = bytecode.chunk_count();
    if offset >= count {
        return Err(InterpretError::OffsetOutOfRange);
    }
    let mut out = String::new();
    push_dec_pad4(&mut out, offset as u64, true);
    out.append(" ");
    proof {
        reveal_strlit(" ");
        assert(out@ =~= padded('0', 4, dec_digits(offset as nat)) + seq![' ']);
    }
    let line = *bytecode.get_line(offset).unwrap();
    if offset > 0 && line == *bytecode.get_line(offset - 1).unwrap() {
        out.append("   | ");
        proof {
            reveal_strlit("   | ");
        }
    } else {
        push_dec_pad4(&mut out, line as u64, false);
        out.append(" ");
        proof {
            reveal_strlit(" ");
        }
    }
    let ghost prefix = padded('0', 4, dec_digits(offset as nat)) + seq![' '] + line_marker(
        bytecode@.lines,
        offset as nat,
    );
    proof {
        assert(out@ =~= prefix);
    }
    let chunk = *bytecode.get_chunk(offset).unwrap();
    match OpCode::try_from(chunk) {
        Err(_) => Err(InterpretError::InvalidOpcode),
        Ok(OpCode::Constant) => {
            if offset + 1 >= count {
                return Err(InterpretError::OffsetOutOfRange);
            }
            let index = *bytecode.get_chunk(offset + 1).unwrap();
            match bytecode.get_constant(index) {
                None => Err(InterpretError::ConstantIndexOutOfRange),
                Some(value) => {
                    let value = *value;
                    push_mnemonic(&mut out, OpCode::Constant);
                    out.append("         ");
                    push_dec(&mut out, index as u64);
                    out.append(" '");
                    push_dec(&mut out, value);
                    out.append("'\n");
                    proof {
                        reveal_strlit("         ");
                        reveal_strlit(" '");
                        reveal_strlit("'\n");
                        assert(out@ =~= prefix + constant_tail(index as nat, value));
                    }
                    Ok((out, offset + 2))
                },
            }
        },
        Ok(opcode) => {
            push_mnemonic(&mut out, opcode);
            out.append("\n");
            proof {
                reveal_strlit("\n");
                assert(out@ =~= prefix + mnemonic(opcode) + seq!['\n']);
            }
            Ok((out, offset + 1))
        },
    }
}

/// Disassembles the whole stream: a header line carrying `label`, then one
/// trace line per instruction from offset 0 to the end; exactly
/// [`disasm_stream`] under [`header_text`].
pub fn disassembler(bytecode: &ByteCode, label: &str) -> (r: Result<String, InterpretError>)
    requires
        bytecode@.wf(),
    ensures
        (match disasm_stream(bytecode@, 0) {
            Ok(text) => r matches Ok(s) && s@ == header_text(label@) + text,
            Err(e) => r == Err::<String, _>(e),
        }),
{
    let mut out = String::new();
    out.append("== ");
    out.append(label);
    out.append(" ==\n");
    proof {
        reveal_strlit("== ");
        reveal_strlit(" ==\n");
        assert(out@ =~= header_text(label@));
    }
    let mut offset: usize = 0;
    while offset < bytecode.chunk_count()
        invariant
            bytecode@.wf(),
            offset <= bytecode@.chunks.len(),
            (match disasm_stream(bytecode@, offset as nat) {
                Ok(rest) => disasm_stream(bytecode@, 0) matches Ok(whole) && header_text(label@)
                    + whole == out@ + rest,
                Err(e) => disasm_stream(bytecode@, 0) == Err::<Seq<char>, _>(e),
            }),
        decreases bytecode@.chunks.len() - offset,
    {
        let ghost pre_offset = offset as nat;
        let ghost pre_out = out@;
        match disassemble_instruction(bytecode, offset) {
            Err(e) => {
                return Err(e);
            },
            Ok(step) => {
                let (text, next) = step;
                out.append(text.as_str());
                offset = next;
                proof {
                    assert(next as nat <= bytecode@.chunks.len());
                    assert(out@ =~= pre_out + text@);
                }
            },
        }
    }
    Ok(out)
}

/// The instruction starts the disassembly walk visits from `offset` on, the
/// final offset it returns appended last.
pub open spec fn walk_offsets(bytecode: ByteCodeView, offset: nat) -> Seq<nat>
    decreases bytecode.chunks.len() - offset,
{
    if offset >= bytecode.chunks.len() {
        seq![offset]
    } else {
        match disasm_one(bytecode, offset) {
            Err(_) => seq![offset],
            Ok((text, next)) => seq![offset] + walk_offsets(bytecode, next),
        }
    }
}

/// A disassembly pass that succeeds visits each instruction exactly once —
/// the visited offsets grow strictly, each being one instruction past the
/// previous — and its final returned offset is exactly the stream's total
/// word length.
pub proof fn lemma_disassembly_covers_stream(bytecode: ByteCodeView, offset: nat)
    requires
        offset <= bytecode.chunks.len(),
        disasm_stream(bytecode, offset) is Ok,
    ensures
        walk_offsets(bytecode, offset).len() >= 1,
        walk_offsets(bytecode, offset)[0] == offset,
        walk_offsets(bytecode, offset).last() == bytecode.chunks.len(),
        forall|i: int|
            0 <= i < walk_offsets(bytecode, offset).len() - 1 ==> #[trigger] walk_offsets(
                bytecode,
                offset,
            )[i] < walk_offsets(bytecode, offset)[i + 1],
        forall|i: int|
            0 <= i < walk_offsets(bytecode, offset).len() - 1 ==> (disasm_one(
                bytecode,
                #[trigger] walk_offsets(bytecode, offset)[i],
            ) matches Ok(p) && p.1 == walk_offsets(bytecode, offset)[i + 1]),
    decreases bytecode.chunks.len() - offset,
{
    if offset >= bytecode.chunks.len() {
    } else {
        let step = disasm_one(bytecode, offset);
        match step {
            Err(_) => {
                assert(false);
            },
            Ok((text, next)) => {
                assert(next <= bytecode.chunks.len());
                lemma_disassembly_covers_stream(bytecode, next);
                let tail = walk_offsets(bytecode, next);
                assert(walk_offsets(bytecode, offset) == seq![offset] + tail);
            },
        }
    }
}

} // verus!
