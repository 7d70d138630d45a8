use raven_lang::{BinaryOperation, ByteCode, InterpretError, OpCode, Outcome, VirtualMachine};

/// Drives the machine to completion: performs each requested IEEE-754
/// binary operation on the operand bit patterns and hands the result back.
fn interpret(vm: &mut VirtualMachine, bytecode: &ByteCode) -> Result<(), InterpretError> {
    loop {
        match vm.run(bytecode)? {
            Outcome::Halted => return Ok(()),
            Outcome::NeedsBinary(op, left, right) => {
                let a = f64::from_bits(left);
                let b = f64::from_bits(right);
                let r = match op {
                    BinaryOperation::Add => a + b,
                    BinaryOperation::Subtract => a - b,
                    BinaryOperation::Multiply => a * b,
                    BinaryOperation::Divide => a / b,
                };
                vm.resume(r.to_bits());
            }
        }
    }
}

fn load_constant(bytecode: &mut ByteCode, value: f64, line: usize) {
    let index = bytecode.push_constant(value.to_bits());
    bytecode.push_chunk(OpCode::Constant.to_chunk(), line);
    bytecode.push_chunk(index, line);
}

#[test]
fn add_two_constants_reports_sum() {
    let mut bytecode = ByteCode::new();
    load_constant(&mut bytecode, 1.2, 1);
    load_constant(&mut bytecode, 3.4, 1);
    bytecode.push_chunk(OpCode::Add.to_chunk(), 1);
    bytecode.push_chunk(OpCode::Return.to_chunk(), 1);

    let mut vm = VirtualMachine::new();
    assert_eq!(interpret(&mut vm, &bytecode), Ok(()));
    let emitted = vm.emitted_values();
    assert_eq!(emitted.len(), 1);
    assert!((f64::from_bits(emitted[0]) - 4.6).abs() < 1e-9);
}

#[test]
fn divide_by_zero_reports_infinity_not_an_error() {
    let mut bytecode = ByteCode::new();
    load_constant(&mut bytecode, 1.0, 1);
    load_constant(&mut bytecode, 0.0, 1);
    bytecode.push_chunk(OpCode::Divide.to_chunk(), 1);
    bytecode.push_chunk(OpCode::Return.to_chunk(), 1);

    let mut vm = VirtualMachine::new();
    assert_eq!(interpret(&mut vm, &bytecode), Ok(()));
    let emitted = vm.emitted_values();
    assert_eq!(emitted.len(), 1);
    assert_eq!(f64::from_bits(emitted[0]), f64::INFINITY);
}

#[test]
fn negate_twice_restores_the_value() {
    let mut bytecode = ByteCode::new();
    load_constant(&mut bytecode, 2.75, 1);
    bytecode.push_chunk(OpCode::Negate.to_chunk(), 1);
    bytecode.push_chunk(OpCode::Negate.to_chunk(), 1);
    bytecode.push_chunk(OpCode::Return.to_chunk(), 1);

    let mut vm = VirtualMachine::new();
    assert_eq!(interpret(&mut vm, &bytecode), Ok(()));
    let emitted = vm.emitted_values();
    assert_eq!(emitted.len(), 1);
    assert_eq!(f64::from_bits(emitted[0]), 2.75);
}

#[test]
fn negate_flips_the_sign() {
    let mut bytecode = ByteCode::new();
    load_constant(&mut bytecode, 2.5, 1);
    bytecode.push_chunk(OpCode::Negate.to_chunk(), 1);
    bytecode.push_chunk(OpCode::Return.to_chunk(), 1);

    let mut vm = VirtualMachine::new();
    assert_eq!(interpret(&mut vm, &bytecode), Ok(()));
    assert_eq!(f64::from_bits(vm.emitted_values()[0]), -2.5);
}

#[test]
fn end_to_end_expression_evaluates_and_halts() {
    // -((1.2 + 2.0) / 5.6)
    let mut bytecode = ByteCode::new();
    load_constant(&mut bytecode, 1.2, 1);
    load_constant(&mut bytecode, 2.0, 1);
    bytecode.push_chunk(OpCode::Add.to_chunk(), 1);
    load_constant(&mut bytecode, 5.6, 2);
    bytecode.push_chunk(OpCode::Divide.to_chunk(), 2);
    bytecode.push_chunk(OpCode::Negate.to_chunk(), 2);
    bytecode.push_chunk(OpCode::Return.to_chunk(), 2);

    let mut vm = VirtualMachine::new();
    assert_eq!(interpret(&mut vm, &bytecode), Ok(()));
    let emitted = vm.emitted_values();
    assert_eq!(emitted.len(), 1);
    assert!((f64::from_bits(emitted[0]) - (-0.5714285714285714)).abs() < 1e-12);
}

#[test]
fn unassigned_discriminant_reports_invalid_opcode() {
    let mut bytecode = ByteCode::new();
    bytecode.push_chunk(99, 1);

    let mut vm = VirtualMachine::new();
    assert_eq!(interpret(&mut vm, &bytecode), Err(InterpretError::InvalidOpcode));
}

#[test]
fn return_on_empty_stack_reports_underflow() {
    let mut bytecode = ByteCode::new();
    bytecode.push_chunk(OpCode::Return.to_chunk(), 1);

    let mut vm = VirtualMachine::new();
    assert_eq!(interpret(&mut vm, &bytecode), Err(InterpretError::StackUnderflow));
}

#[test]
fn binary_operation_on_short_stack_reports_underflow() {
    let mut bytecode = ByteCode::new();
    load_constant(&mut bytecode, 1.0, 1);
    bytecode.push_chunk(OpCode::Add.to_chunk(), 1);

    let mut vm = VirtualMachine::new();
    assert_eq!(interpret(&mut vm, &bytecode), Err(InterpretError::StackUnderflow));
}

#[test]
fn constant_without_operand_reports_offset_out_of_range() {
    let mut bytecode = ByteCode::new();
    bytecode.push_chunk(OpCode::Constant.to_chunk(), 1);

    let mut vm = VirtualMachine::new();
    assert_eq!(interpret(&mut vm, &bytecode), Err(InterpretError::OffsetOutOfRange));
}

#[test]
fn constant_with_unassigned_index_reports_index_out_of_range() {
    let mut bytecode = ByteCode::new();
    bytecode.push_chunk(OpCode::Constant.to_chunk(), 1);
    bytecode.push_chunk(5, 1);

    let mut vm = VirtualMachine::new();
    assert_eq!(
        interpret(&mut vm, &bytecode),
        Err(InterpretError::ConstantIndexOutOfRange)
    );
}

#[test]
fn return_does_not_halt_the_machine() {
    let mut bytecode = ByteCode::new();
    load_constant(&mut bytecode, 1.0, 1);
    bytecode.push_chunk(OpCode::Return.to_chunk(), 1);
    load_constant(&mut bytecode, 2.0, 2);
    bytecode.push_chunk(OpCode::Return.to_chunk(), 2);

    let mut vm = VirtualMachine::new();
    assert_eq!(interpret(&mut vm, &bytecode), Ok(()));
    let emitted = vm.emitted_values();
    assert_eq!(emitted.len(), 2);
    assert_eq!(f64::from_bits(emitted[0]), 1.0);
    assert_eq!(f64::from_bits(emitted[1]), 2.0);
}

#[test]
fn subtract_and_multiply_use_operand_order() {
    // 10 - 4 = 6, then 6 * 2 = 12
    let mut bytecode = ByteCode::new();
    load_constant(&mut bytecode, 10.0, 1);
    load_constant(&mut bytecode, 4.0, 1);
    bytecode.push_chunk(OpCode::Subtract.to_chunk(), 1);
    load_constant(&mut bytecode, 2.0, 1);
    bytecode.push_chunk(OpCode::Multiply.to_chunk(), 1);
    bytecode.push_chunk(OpCode::Return.to_chunk(), 1);

    let mut vm = VirtualMachine::new();
    assert_eq!(interpret(&mut vm, &bytecode), Ok(()));
    assert_eq!(f64::from_bits(vm.emitted_values()[0]), 12.0);
}

#[test]
fn opcode_encoding_round_trips() {
    let opcodes = [
        OpCode::Constant,
        OpCode::Add,
        OpCode::Subtract,
        OpCode::Multiply,
        OpCode::Divide,
        OpCode::Negate,
        OpCode::Return,
    ];
    for (i, op) in opcodes.iter().enumerate() {
        assert_eq!(op.to_chunk(), i);
        assert_eq!(OpCode::try_from(op.to_chunk()), Ok(*op));
    }
    assert_eq!(OpCode::try_from(7), Err(()));
    assert_eq!(OpCode::try_from(99), Err(()));
}
