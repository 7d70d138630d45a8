use raven_lang::{disassemble_instruction, disassembler, ByteCode, InterpretError, OpCode};

fn sample_stream() -> ByteCode {
    let mut bytecode = ByteCode::new();
    let index = bytecode.push_constant(1.5f64.to_bits());
    bytecode.push_chunk(OpCode::Constant.to_chunk(), 1);
    bytecode.push_chunk(index, 1);
    bytecode.push_chunk(OpCode::Add.to_chunk(), 2);
    bytecode.push_chunk(OpCode::Negate.to_chunk(), 2);
    bytecode.push_chunk(OpCode::Return.to_chunk(), 3);
    bytecode
}

#[test]
fn walk_visits_each_instruction_once_and_ends_at_length() {
    let bytecode = sample_stream();
    let mut offset = 0;
    let mut visits = 0;
    while offset < bytecode.chunk_count() {
        let (_, next) = disassemble_instruction(&bytecode, offset).unwrap();
        assert!(next > offset);
        offset = next;
        visits += 1;
    }
    // Four instructions over five words, the final offset exactly the length.
    assert_eq!(visits, 4);
    assert_eq!(offset, bytecode.chunk_count());
}

#[test]
fn renders_the_exact_trace_text() {
    let bytecode = sample_stream();
    let text = disassembler(&bytecode, "sample").unwrap();
    let expected = format!(
        "== sample ==\n\
         0000    1 CONSTANT         0 '{}'\n\
         0002    2 ADD\n\
         0003    | NEGATE\n\
         0004    3 RETURN\n",
        1.5f64.to_bits()
    );
    assert_eq!(text, expected);
}

#[test]
fn line_repeats_render_the_filler_marker() {
    let mut bytecode = ByteCode::new();
    bytecode.push_chunk(OpCode::Add.to_chunk(), 7);
    bytecode.push_chunk(OpCode::Add.to_chunk(), 7);
    bytecode.push_chunk(OpCode::Add.to_chunk(), 8);
    let text = disassembler(&bytecode, "t").unwrap();
    assert_eq!(text, "== t ==\n0000    7 ADD\n0001    | ADD\n0002    8 ADD\n");
}

#[test]
fn offsets_pad_to_four_columns_with_zeros() {
    let (line, next) = disassemble_instruction(&sample_stream(), 2).unwrap();
    assert_eq!(line, "0002    2 ADD\n");
    assert_eq!(next, 3);
}

#[test]
fn reading_past_the_end_reports_offset_out_of_range() {
    let bytecode = sample_stream();
    assert_eq!(
        disassemble_instruction(&bytecode, bytecode.chunk_count()),
        Err(InterpretError::OffsetOutOfRange)
    );
}

#[test]
fn invalid_opcode_is_a_fatal_diagnostic() {
    let mut bytecode = ByteCode::new();
    bytecode.push_chunk(42, 1);
    assert_eq!(
        disassembler(&bytecode, "bad"),
        Err(InterpretError::InvalidOpcode)
    );
}

#[test]
fn constant_operand_outside_the_pool_is_a_fatal_diagnostic() {
    let mut bytecode = ByteCode::new();
    bytecode.push_chunk(OpCode::Constant.to_chunk(), 1);
    bytecode.push_chunk(3, 1);
    assert_eq!(
        disassembler(&bytecode, "bad"),
        Err(InterpretError::ConstantIndexOutOfRange)
    );
}

#[test]
fn empty_stream_disassembles_to_the_header_alone() {
    let bytecode = ByteCode::new();
    assert_eq!(disassembler(&bytecode, "empty").unwrap(), "== empty ==\n");
}
