use raven_lang::{ByteCode, ConstantPool, OpCode, Stack, VirtualMachine};

#[test]
fn chunks_and_lines_grow_together() {
    let mut bytecode = ByteCode::new();
    assert_eq!(bytecode.chunk_count(), 0);
    bytecode.push_chunk(OpCode::Add.to_chunk(), 3);
    bytecode.push_chunk(OpCode::Return.to_chunk(), 4);
    assert_eq!(bytecode.chunk_count(), 2);
    assert_eq!(bytecode.get_chunk(0), Some(&OpCode::Add.to_chunk()));
    assert_eq!(bytecode.get_chunk(1), Some(&OpCode::Return.to_chunk()));
    assert_eq!(bytecode.get_chunk(2), None);
    assert_eq!(bytecode.get_line(0), Some(&3));
    assert_eq!(bytecode.get_line(1), Some(&4));
    assert_eq!(bytecode.get_line(2), None);
    assert_eq!(bytecode.get_chunks().len(), 2);
}

#[test]
fn constants_live_in_the_stream_owned_pool() {
    let mut bytecode = ByteCode::new();
    let first = bytecode.push_constant(1.25f64.to_bits());
    let second = bytecode.push_constant(2.5f64.to_bits());
    assert_eq!(first, 0);
    assert_eq!(second, 1);
    assert_eq!(bytecode.get_constant(0), Some(&1.25f64.to_bits()));
    assert_eq!(bytecode.get_constant(1), Some(&2.5f64.to_bits()));
    assert_eq!(bytecode.get_constant(2), None);
    // Pushing constants leaves the instruction words alone.
    assert_eq!(bytecode.chunk_count(), 0);
}

#[test]
fn stack_pops_in_reverse_push_order() {
    let mut stack: Stack<u64> = Stack::new();
    assert_eq!(stack.len(), 0);
    assert_eq!(stack.pop(), None);
    stack.push(10);
    stack.push(20);
    stack.push(30);
    assert_eq!(stack.len(), 3);
    assert_eq!(stack.pop(), Some(30));
    assert_eq!(stack.pop(), Some(20));
    assert_eq!(stack.pop(), Some(10));
    assert_eq!(stack.pop(), None);
}

#[test]
fn stack_trace_renders_one_frame_per_value() {
    let mut bytecode = ByteCode::new();
    let first = bytecode.push_constant(1.5f64.to_bits());
    let second = bytecode.push_constant(2.5f64.to_bits());
    bytecode.push_chunk(OpCode::Constant.to_chunk(), 1);
    bytecode.push_chunk(first, 1);
    bytecode.push_chunk(OpCode::Constant.to_chunk(), 1);
    bytecode.push_chunk(second, 1);

    let mut vm = VirtualMachine::new();
    assert_eq!(vm.stack_trace(), "");
    vm.run(&bytecode).unwrap();
    assert_eq!(
        vm.stack_trace(),
        format!("[ {} ][ {} ]", 1.5f64.to_bits(), 2.5f64.to_bits())
    );
}

#[test]
fn default_values_are_empty() {
    let bytecode = ByteCode::default();
    assert_eq!(bytecode.chunk_count(), 0);
    let pool = ConstantPool::default();
    assert_eq!(pool.len(), 0);
    let vm = VirtualMachine::default();
    assert_eq!(vm.emitted_values().len(), 0);
}
