//! A fixed-arity collection builder: the engine fills repeated layouts and
//! accessors one slot at a time, in order, and may finish only when every
//! slot has been written exactly once.
//!
//! This keeps generic array construction honest without default values:
//! a slot that was never written does not exist, and a builder with missing
//! slots refuses to finalize.

use vstd::prelude::*;

verus! {

/// Builds a collection of exactly `arity` elements, slot by slot.
pub struct ArrayHelper<T> {
    arity: usize,
    slots: Vec<T>,
}

impl<T> View for ArrayHelper<T> {
    type V = Seq<T>;

    closed spec fn view(&self) -> Seq<T> {
        self.slots@
    }
}

impl<T> ArrayHelper<T> {
    /// The fixed number of slots this builder must fill.
    pub closed spec fn spec_arity(&self) -> int {
        self.arity as int
    }

    /// A builder with `arity` slots, none of them written yet.
    pub fn new(arity: usize) -> (r: ArrayHelper<T>)
        ensures
            r.spec_arity() == arity,
            r@ == Seq::<T>::empty(),
    {
        ArrayHelper { arity, slots: Vec::new() }
    }

    /// The fixed number of slots.
    pub fn arity(&self) -> (r: usize)
        ensures
            r == self.spec_arity(),
    {
        self.arity
    }

    /// How many slots have been written so far.
    pub fn len(&self) -> (r: usize)
        ensures
            r == self@.len(),
    {
        self.slots.len()
    }

    /// Move `value` into the next unwritten slot. Fails once every slot has
    /// been written; each slot takes exactly one value.
    pub fn write(&mut self, value: T) -> (r: bool)
        ensures
            final(self).spec_arity() == old(self).spec_arity(),
            r <==> old(self)@.len() < old(self).spec_arity(),
            r ==> final(self)@ == old(self)@.push(value),
            !r ==> final(self)@ == old(self)@,
    {
        if self.slots.len() < self.arity {
            self.slots.push(value);
            true
        } else {
            false
        }
    }

    /// Hand the finished collection out, or `None` while any slot is still
    /// unwritten.
    pub fn into_array(self) -> (r: Option<Vec<T>>)
        ensures
            r is Some <==> self@.len() == self.spec_arity(),
            r matches Some(v) ==> v@ == self@,
    {
        if self.slots.len() == self.arity {
            Some(self.slots)
        } else {
            None
        }
    }
}

} // verus!
