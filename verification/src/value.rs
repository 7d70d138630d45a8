//! Runtime values and the constant pool.
//!
//! A [`Value`] is an IEEE-754 double-precision number carried as its 64-bit
//! pattern.  The execution core never computes with values — it only stores
//! them, moves them, and flips the sign bit for negation — so the bit pattern
//! is the whole truth about a value as far as this crate is concerned.

use vstd::prelude::*;

verus! {

/// One runtime value: the 64-bit pattern of an IEEE-754 double.
pub type Value = u64;

/// Append-only ordered table of literal values, referenced by index from
/// `LoadConstant` instructions.  Once a value is pushed, its index never
/// changes: there is no removal, no update, and no reordering.
pub struct ConstantPool {
    constants: Vec<Value>,
}

impl View for ConstantPool {
    type V = Seq<Value>;

    closed spec fn view(&self) -> Seq<Value> {
        self.constants@
    }
}

impl ConstantPool {
    /// Creates an empty pool.
    pub fn new() -> (pool: Self)
        ensures
            pool@ == Seq::<Value>::empty(),
    {
        Self { constants: Vec::new() }
    }

    /// Appends `value` and returns the index it was assigned: the next free
    /// slot, counted from 0.  Every previously assigned index still names the
    /// value it named before.
    pub fn push_value(&mut self, value: Value) -> (index: usize)
        ensures
            final(self)@ == old(self)@.push(value),
            index == old(self)@.len(),
    {
        let index = self.constants.len();
        self.constants.push(value);
        index
    }

    /// Looks an index up: `Some` of the stored value exactly when the index
    /// was assigned, `None` past the end of the pool.
    pub fn get(&self, index: usize) -> (r: Option<&Value>)
        ensures
            index < self@.len() ==> (r matches Some(v) && *v == self@[index as int]),
            index >= self@.len() ==> r is None,
    {
        self.constants.get(index)
    }

    /// Number of values pushed so far; equivalently, the next index that
    /// `push_value` will assign.
    pub fn len(&self) -> (n: usize)
        ensures
            n == self@.len(),
    {
        self.constants.len()
    }
}

impl Default for ConstantPool {
    fn default() -> (pool: Self)
        ensures
            pool@ == Seq::<Value>::empty(),
    {
        Self::new()
    }
}

/// A value fetched back from the pool is the value that was pushed, at the
/// index `push_value` reported, and pushing never disturbs what an earlier
/// index names: indices are assigned in strict append order starting at 0.
pub proof fn lemma_pool_push_get(pool: Seq<Value>, value: Value)
    ensures
        pool.push(value).len() == pool.len() + 1,
        pool.push(value)[pool.len() as int] == value,
        forall|i: int| 0 <= i < pool.len() ==> pool.push(value)[i] == pool[i],
{
}

} // verus!
