//! The emitter: typed helpers that write instructions, operands and jump
//! placeholders into a chunk.

use vstd::prelude::*;
use crate::bytecodes::Bytecodes;
use crate::opcode::{opcode_byte, OpCode};
use crate::value::{Value, ValueRepr, ValueView};

verus! {

/// The most constants that a chunk can hold: an instruction names a
/// constant by one byte.
pub const MAX_CONSTANTS: usize = 256;

/// The longest distance that a jump can cover: its operand has 16 bits.
pub const MAX_JUMP: usize = 65535;

/// The high byte of a 16-bit operand.
pub open spec fn high_byte(distance: int) -> u8 {
    (distance / 256) as u8
}

/// The low byte of a 16-bit operand.
pub open spec fn low_byte(distance: int) -> u8 {
    (distance % 256) as u8
}

/// The 16-bit operand that two bytes hold, high byte first.
pub open spec fn operand16(hi: u8, lo: u8) -> int {
    hi as int * 256 + lo as int
}

/// The 16-bit operand that the code holds at an offset.
pub open spec fn jump_field(code: Seq<u8>, offset: int) -> int {
    operand16(code[offset], code[offset + 1])
}

pub struct Codegen {
    pub bytecodes: Bytecodes,
}

impl Codegen {
    /// The code written so far.
    pub open spec fn code(&self) -> Seq<u8> {
        self.bytecodes.code@
    }

    /// The constants added so far.
    pub open spec fn constants(&self) -> Seq<ValueView> {
        self.bytecodes.constants()
    }

    pub fn new() -> (r: Self)
        ensures
            r.code() == Seq::<u8>::empty(),
            r.constants() == Seq::<ValueView>::empty(),
    {
        Codegen { bytecodes: Bytecodes::new() }
    }

    /// Appends an instruction with two operand bytes; returns the offset of
    /// the last byte.
    pub fn emit_op_operand2(&mut self, op: OpCode, o1: u8, o2: u8) -> (offset: usize)
        ensures
            final(self).code() == old(self).code().push(opcode_byte(op)).push(o1).push(o2),
            final(self).bytecodes.values@ == old(self).bytecodes.values@,
            offset == old(self).code().len() + 2,
    {
        self.emit_op(op);
        self.emit_byte(o1);
        self.emit_byte(o2)
    }

    /// Appends an instruction with one operand byte; returns the offset of
    /// the operand.
    pub fn emit_op_operand(&mut self, op: OpCode, o: u8) -> (offset: usize)
        ensures
            final(self).code() == old(self).code().push(opcode_byte(op)).push(o),
            final(self).bytecodes.values@ == old(self).bytecodes.values@,
            offset == old(self).code().len() + 1,
    {
        self.emit_op(op);
        self.emit_byte(o)
    }

    /// Appends two instructions without operands; returns the offset of the
    /// second.
    pub fn emit_op2(&mut self, op1: OpCode, op2: OpCode) -> (offset: usize)
        ensures
            final(self).code() == old(self).code().push(opcode_byte(op1)).push(opcode_byte(op2)),
            final(self).bytecodes.values@ == old(self).bytecodes.values@,
            offset == old(self).code().len() + 1,
    {
        self.emit_op(op1);
        self.emit_op(op2)
    }

    /// Appends an instruction; returns its offset.
    pub fn emit_op(&mut self, op: OpCode) -> (offset: usize)
        ensures
            final(self).code() == old(self).code().push(opcode_byte(op)),
            final(self).bytecodes.values@ == old(self).bytecodes.values@,
            offset == old(self).code().len(),
    {
        self.emit_byte(op.into())
    }

    /// Appends a byte; returns its offset.
    pub fn emit_byte(&mut self, b: u8) -> (offset: usize)
        ensures
            final(self).code() == old(self).code().push(b),
            final(self).bytecodes.values@ == old(self).bytecodes.values@,
            offset == old(self).code().len(),
    {
        self.bytecodes.write(b)
    }

    /// Appends bytes; returns the offset of the last one, or 0 where there
    /// are none.
    pub fn emit_bytes(&mut self, bytes: &[u8]) -> (offset: usize)
        ensures
            final(self).code() == old(self).code() + bytes@,
            final(self).bytecodes.values@ == old(self).bytecodes.values@,
            offset == if bytes@.len() == 0 {
                0
            } else {
                old(self).code().len() + bytes@.len() - 1
            },
    {
        let mut size: usize = 0;
        let mut i: usize = 0;
        while i < bytes.len()
            invariant
                i <= bytes@.len(),
                self.code() == old(self).code() + bytes@.subrange(0, i as int),
                self.bytecodes.values@ == old(self).bytecodes.values@,
                size == if i == 0 {
                    0
                } else {
                    old(self).code().len() + i - 1
                },
            decreases bytes@.len() - i,
        {
            size = self.bytecodes.write(bytes[i]);
            assert(bytes@.subrange(0, i + 1) =~= bytes@.subrange(0, i as int).push(bytes@[i as int]));
            assert(self.code() =~= old(self).code() + bytes@.subrange(0, i + 1));
            i += 1;
        }
        assert(bytes@.subrange(0, i as int) =~= bytes@);
        size
    }

    /// Appends the instruction that ends a program; returns its offset.
    pub fn emit_return(&mut self) -> (offset: usize)
        ensures
            final(self).code() == old(self).code().push(opcode_byte(OpCode::OpReturn)),
            final(self).bytecodes.values@ == old(self).bytecodes.values@,
            offset == old(self).code().len(),
    {
        self.bytecodes.write(OpCode::OpReturn.into())
    }

    /// Adds a number, given by its bit pattern, to the constants and appends
    /// the instruction that loads it; returns the constant's index.
    pub fn emit_const_f64(&mut self, value: u64) -> (index: usize)
        requires
            old(self).constants().len() < MAX_CONSTANTS,
        ensures
            index == old(self).constants().len(),
            final(self).constants() == old(self).constants().push(ValueView::Number(value)),
            final(self).code() == old(self).code().push(opcode_byte(OpCode::OpConstant)).push(
                index as u8,
            ),
    {
        let addr = self.bytecodes.add_const_val(value);
        self.bytecodes.write2(OpCode::OpConstant.into(), addr as u8);
        addr
    }

    /// Adds a text to the constants and appends the instruction that loads
    /// it; returns the constant's index.
    pub fn emit_const_string(&mut self, str: String) -> (index: usize)
        requires
            old(self).constants().len() < MAX_CONSTANTS,
        ensures
            index == old(self).constants().len(),
            final(self).constants() == old(self).constants().push(ValueView::Text(str@)),
            final(self).code() == old(self).code().push(opcode_byte(OpCode::OpConstant)).push(
                index as u8,
            ),
    {
        let addr = self.bytecodes.add_const(Value(ValueRepr::String(str)));
        self.bytecodes.write2(OpCode::OpConstant.into(), addr as u8);
        addr
    }

    /// Appends a jump whose distance is not yet known: the instruction and a
    /// two-byte placeholder. Returns the offset of the placeholder, to be
    /// handed to [`Codegen::patch_jump`].
    pub fn emit_jump(&mut self, op: OpCode) -> (offset: usize)
        ensures
            final(self).code() == old(self).code().push(opcode_byte(op)).push(0xff).push(0xff),
            final(self).bytecodes.values@ == old(self).bytecodes.values@,
            offset == old(self).code().len() + 1,
    {
        self.emit_op(op);
        self.emit_byte(0xff);
        self.emit_byte(0xff);
        self.bytecodes.code.len() - 2
    }

    /// Makes the jump whose placeholder is at `offset` land at the end of
    /// the code written so far: the placeholder receives the distance from
    /// the byte after it to that end, high byte first.
    pub fn patch_jump(&mut self, offset: usize)
        requires
            offset + 2 <= old(self).code().len(),
            old(self).code().len() - offset - 2 <= MAX_JUMP,
        ensures
            final(self).code() == old(self).code().update(
                offset as int,
                high_byte(old(self).code().len() - offset - 2),
            ).update(offset + 1, low_byte(old(self).code().len() - offset - 2)),
            jump_field(final(self).code(), offset as int) == old(self).code().len() - offset - 2,
            final(self).bytecodes.values@ == old(self).bytecodes.values@,
    {
        let jump = self.bytecodes.code.len() - offset - 2;
        self.bytecodes.code.set(offset, (jump / 256) as u8);
        self.bytecodes.code.set(offset + 1, (jump % 256) as u8);
    }

    /// Appends a jump back to `start`: the loop instruction and the distance
    /// from the byte after its operand back to `start`, high byte first.
    pub fn emit_loop(&mut self, start: usize)
        requires
            start <= old(self).code().len(),
            old(self).code().len() + 3 - start <= MAX_JUMP,
        ensures
            final(self).code() == old(self).code().push(opcode_byte(OpCode::OpLoop)).push(
                high_byte(old(self).code().len() + 3 - start),
            ).push(low_byte(old(self).code().len() + 3 - start)),
            jump_field(final(self).code(), old(self).code().len() as int + 1) == old(self).code().len()
                + 3 - start,
            final(self).bytecodes.values@ == old(self).bytecodes.values@,
    {
        self.emit_op(OpCode::OpLoop);
        let offset = self.bytecodes.code.len() - start + 2;
        self.emit_byte((offset / 256) as u8);
        self.emit_byte((offset % 256) as u8);
    }
}

} // verus!
