use raven_lang::ConstantPool;

#[test]
fn push_assigns_indices_in_append_order_from_zero() {
    let mut pool = ConstantPool::new();
    assert_eq!(pool.push_value(1.5f64.to_bits()), 0);
    assert_eq!(pool.push_value(2.5f64.to_bits()), 1);
    assert_eq!(pool.push_value(1.5f64.to_bits()), 2);
    assert_eq!(pool.len(), 3);
}

#[test]
fn get_returns_what_push_stored() {
    let mut pool = ConstantPool::new();
    let values = [0.0f64, -1.25, 3.5, f64::INFINITY];
    for v in values {
        let index = pool.push_value(v.to_bits());
        assert_eq!(pool.get(index), Some(&v.to_bits()));
    }
    // Earlier indices still name what they named before.
    assert_eq!(pool.get(0).map(|b| f64::from_bits(*b)), Some(0.0));
    assert_eq!(pool.get(1).map(|b| f64::from_bits(*b)), Some(-1.25));
}

#[test]
fn get_of_unassigned_index_is_none() {
    let mut pool = ConstantPool::new();
    assert_eq!(pool.get(0), None);
    pool.push_value(1.0f64.to_bits());
    assert_eq!(pool.get(1), None);
    assert_eq!(pool.get(usize::MAX), None);
}
