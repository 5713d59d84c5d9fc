//! The pool of live managed values.
//!
//! A managed field's bytes hold only a handle; the value itself lives in a
//! slot of this pool. Overwriting a managed field releases its old slot
//! before a fresh slot is allocated, which models the
//! destroy-before-overwrite obligation of managed kinds.

use vstd::prelude::*;

use crate::value::Value;
use crate::value::ValueModel;

verus! {

/// Slot storage for managed values. One pool serves every record whose
/// accessors were created against it.
pub struct ManagedPool {
    pub slots: Vec<Option<Value>>,
}

impl View for ManagedPool {
    type V = Seq<Option<ValueModel>>;

    open spec fn view(&self) -> Seq<Option<ValueModel>> {
        Seq::new(
            self.slots@.len(),
            |i: int|
                match self.slots@[i] {
                    Some(v) => Some(v@),
                    None => None,
                },
        )
    }
}

/// The value held by an occupied slot; the empty value for a free one.
pub open spec fn slot_value(s: Option<ValueModel>) -> ValueModel {
    match s {
        Some(v) => v,
        None => ValueModel::Nil,
    }
}

impl ManagedPool {
    /// A pool with no slots.
    pub fn new() -> (p: ManagedPool)
        ensures
            p@ =~= Seq::<Option<ValueModel>>::empty(),
    {
        ManagedPool { slots: Vec::new() }
    }

    /// Construct a fresh slot holding `v`; its handle is the old slot count.
    pub fn acquire(&mut self, v: Value) -> (h: u64)
        requires
            old(self)@.len() < u64::MAX,
        ensures
            h == old(self)@.len(),
            final(self)@ =~= old(self)@.push(Some(v@)),
    {
        let h = self.slots.len() as u64;
        self.slots.push(Some(v));
        h
    }

    /// Destroy the value in slot `h`, leaving the slot free.
    pub fn release(&mut self, h: u64)
        requires
            h < old(self)@.len(),
        ensures
            final(self)@ =~= old(self)@.update(h as int, None),
    {
        let n = self.slots.len();
        proof {
            assert(h < n);
        }
        let i = h as usize;
        self.slots[i] = None;
    }

    /// Copy the value out of occupied slot `h`.
    pub fn fetch(&self, h: u64) -> (r: Value)
        requires
            h < self@.len(),
            self@[h as int] is Some,
        ensures
            r@ == slot_value(self@[h as int]),
    {
        let n = self.slots.len();
        proof {
            assert(h < n);
        }
        let i = h as usize;
        match &self.slots[i] {
            Some(v) => v.duplicate(),
            None => {
                proof {
                    assert(false);
                }
                Value::Nil
            },
        }
    }

    /// Number of slots ever allocated, free ones included.
    pub fn slot_count(&self) -> (n: usize)
        ensures
            n == self@.len(),
    {
        self.slots.len()
    }
}

} // verus!
