//! The chunk: code bytes and the pool of constants they refer to.

use vstd::prelude::*;
use crate::value::{views, Value, ValueRepr, ValueView};

verus! {

/// A compiled unit: an append-only sequence of code bytes and a pool of
/// constants, which instructions name by a one-byte index.
#[derive(Debug)]
pub struct Bytecodes {
    pub code: Vec<u8>,
    pub values: Vec<Value>,
}

impl Clone for Bytecodes {
    fn clone(&self) -> (r: Self)
        ensures
            r.code@ == self.code@,
            r.constants() == self.constants(),
    {
        let mut values: Vec<Value> = Vec::new();
        let mut i: usize = 0;
        while i < self.values.len()
            invariant
                i <= self.values@.len(),
                values@.len() == i,
                forall|k: int| 0 <= k < i ==> values@[k]@ == self.values@[k]@,
            decreases self.values@.len() - i,
        {
            values.push(self.values[i].clone());
            i += 1;
        }
        assert(views(values@) =~= views(self.values@));
        Bytecodes { code: self.code.clone(), values }
    }
}

impl Bytecodes {
    /// The constants of the chunk, each by its view.
    pub open spec fn constants(&self) -> Seq<ValueView> {
        views(self.values@)
    }

    /// An empty chunk.
    pub fn new() -> (r: Bytecodes)
        ensures
            r.code@ == Seq::<u8>::empty(),
            r.constants() == Seq::<ValueView>::empty(),
    {
        let r = Self { code: Vec::new(), values: Vec::new() };
        assert(r.constants() =~= Seq::<ValueView>::empty());
        r
    }

    /// Appends a byte to the code and returns its offset.
    pub fn write(&mut self, byte: u8) -> (offset: usize)
        ensures
            final(self).code@ == old(self).code@.push(byte),
            final(self).values@ == old(self).values@,
            offset == old(self).code@.len(),
    {
        self.code.push(byte);
        self.code.len() - 1
    }

    /// Appends two bytes to the code and returns the offset of the second.
    pub fn write2(&mut self, byte1: u8, byte2: u8) -> (offset: usize)
        ensures
            final(self).code@ == old(self).code@.push(byte1).push(byte2),
            final(self).values@ == old(self).values@,
            offset == old(self).code@.len() + 1,
    {
        self.write(byte1);
        self.write(byte2)
    }

    /// Appends a number, given by its bit pattern, to the constants and
    /// returns its index.
    pub fn add_const_val(&mut self, val: u64) -> (index: usize)
        ensures
            final(self).code@ == old(self).code@,
            final(self).constants() == old(self).constants().push(ValueView::Number(val)),
            index == old(self).constants().len(),
    {
        self.add_const(Value(ValueRepr::Number(val)))
    }

    /// Appends a value to the constants and returns its index.
    pub fn add_const(&mut self, value: Value) -> (index: usize)
        ensures
            final(self).code@ == old(self).code@,
            final(self).values@ == old(self).values@.push(value),
            final(self).constants() == old(self).constants().push(value@),
            index == old(self).constants().len(),
    {
        self.values.push(value);
        assert(views(self.values@) =~= views(old(self).values@).push(value@));
        self.values.len() - 1
    }

    /// Empties the chunk.
    pub fn free(&mut self)
        ensures
            final(self).code@ == Seq::<u8>::empty(),
            final(self).constants() == Seq::<ValueView>::empty(),
    {
        self.code.clear();
        self.values.clear();
        assert(self.constants() =~= Seq::<ValueView>::empty());
    }
}

impl Default for Bytecodes {
    fn default() -> (r: Bytecodes)
        ensures
            r.code@ == Seq::<u8>::empty(),
            r.constants() == Seq::<ValueView>::empty(),
    {
        Bytecodes::new()
    }
}

} // verus!
