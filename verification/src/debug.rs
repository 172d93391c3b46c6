//! What a listing of a chunk needs to know about its instructions.

use vstd::prelude::*;
use vstd::string::StrSliceExecFns;
use crate::bytecodes::Bytecodes;
use crate::codegen::operand16;
use crate::opcode::{opcode_of, operand_width, OpCode};

verus! {

/// The width of the column in which a listing shows the mnemonics.
pub const MNEMONIC_COLUMN: usize = 16;

/// The number of characters that pad the mnemonic of an instruction to the
/// width of its column.
pub fn calc_str_op_padding(op: &OpCode) -> (pad: usize)
    ensures
        pad == if op.mnemonic().len() > MNEMONIC_COLUMN {
            0
        } else {
            MNEMONIC_COLUMN - op.mnemonic().len()
        },
{
    let str_len = op.to_string().as_str().unicode_len();
    let str_pad = if str_len > MNEMONIC_COLUMN {
        0
    } else {
        MNEMONIC_COLUMN - str_len
    };
    str_pad
}

/// The offset of the instruction that follows the one at `offset`: an
/// instruction takes one byte and its operand bytes.
pub open spec fn following(code: Seq<u8>, offset: int) -> int {
    offset + 1 + operand_width(opcode_of(code[offset]))
}

/// The offset of the instruction that follows the one at `offset`.
pub fn next_instruction(bytecodes: &Bytecodes, offset: usize) -> (next: usize)
    requires
        offset < bytecodes.code@.len(),
        offset <= usize::MAX - 3,
    ensures
        next == following(bytecodes.code@, offset as int),
{
    let op = OpCode::from(bytecodes.code[offset]);
    offset + 1 + op.operands()
}

/// Where the jump at `offset` lands: its distance is counted from the
/// instruction that follows it, forwards, or backwards for a loop.
pub open spec fn landing(code: Seq<u8>, offset: int, backwards: bool) -> int {
    let distance = operand16(code[offset + 1], code[offset + 2]);
    if backwards {
        offset + 3 - distance
    } else {
        offset + 3 + distance
    }
}

/// Where the jump at `offset` lands; `None` where that is before the start
/// of the code or beyond what an offset can hold.
pub fn jump_target(bytecodes: &Bytecodes, offset: usize, backwards: bool) -> (target: Option<usize>)
    requires
        offset + 3 <= bytecodes.code@.len(),
    ensures
        match target {
            Some(t) => t == landing(bytecodes.code@, offset as int, backwards),
            None => !(0 <= landing(bytecodes.code@, offset as int, backwards) <= usize::MAX),
        },
{
    let len = bytecodes.code.len();
    let hi = bytecodes.code[offset + 1] as usize;
    let lo = bytecodes.code[offset + 2] as usize;
    let distance = hi * 256 + lo;
    if backwards {
        if distance > offset + 3 {
            None
        } else {
            Some(offset + 3 - distance)
        }
    } else {
        if distance > usize::MAX - offset - 3 {
            None
        } else {
            Some(offset + 3 + distance)
        }
    }
}

} // verus!
