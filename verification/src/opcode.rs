//! The instruction set of the virtual machine.

use vstd::prelude::*;
use vstd::string::StringExecFns;

verus! {

/// One instruction of the virtual machine.
///
/// An instruction occupies one byte in a chunk, followed by its operand
/// bytes (see [`OpCode::operand_width`]).
#[derive(PartialEq, Eq, Structural, PartialOrd, Copy, Clone, Debug)]
pub enum OpCode {
    OpReturn,
    OpConstant,
    OpNegate,
    OpAdd,
    OpSubtract,
    OpMultiple,
    OpDivide,
    OpNil,
    OpTrue,
    OpFalse,
    OpNot,
    OpEqual,
    OpGreater,
    OpLess,
    OpPrint,
    OpPop,
    OpDefineGlobal,
    OpGetGlobal,
    OpSetGlobal,
    OpJumpIfFalse,
    OpPopN,
    OpGetLocal,
    OpSetLocal,
    OpJump,
    OpLoop,
    OpUnKnown,
}

/// The byte that stands for an instruction in a chunk.
pub open spec fn opcode_byte(op: OpCode) -> u8 {
    match op {
        OpCode::OpReturn => 0,
        OpCode::OpConstant => 1,
        OpCode::OpNegate => 2,
        OpCode::OpAdd => 3,
        OpCode::OpSubtract => 4,
        OpCode::OpMultiple => 5,
        OpCode::OpDivide => 6,
        OpCode::OpNil => 7,
        OpCode::OpTrue => 8,
        OpCode::OpFalse => 9,
        OpCode::OpNot => 10,
        OpCode::OpEqual => 11,
        OpCode::OpGreater => 12,
        OpCode::OpLess => 13,
        OpCode::OpPrint => 14,
        OpCode::OpPop => 15,
        OpCode::OpDefineGlobal => 16,
        OpCode::OpGetGlobal => 17,
        OpCode::OpSetGlobal => 18,
        OpCode::OpJumpIfFalse => 19,
        OpCode::OpPopN => 20,
        OpCode::OpGetLocal => 21,
        OpCode::OpSetLocal => 22,
        OpCode::OpJump => 23,
        OpCode::OpLoop => 24,
        OpCode::OpUnKnown => 99,
    }
}

/// The instruction that a byte stands for; every byte that is no
/// instruction decodes to `OpUnKnown`.
pub open spec fn opcode_of(byte: u8) -> OpCode {
    if byte == 0 {
        OpCode::OpReturn
    } else if byte == 1 {
        OpCode::OpConstant
    } else if byte == 2 {
        OpCode::OpNegate
    } else if byte == 3 {
        OpCode::OpAdd
    } else if byte == 4 {
        OpCode::OpSubtract
    } else if byte == 5 {
        OpCode::OpMultiple
    } else if byte == 6 {
        OpCode::OpDivide
    } else if byte == 7 {
        OpCode::OpNil
    } else if byte == 8 {
        OpCode::OpTrue
    } else if byte == 9 {
        OpCode::OpFalse
    } else if byte == 10 {
        OpCode::OpNot
    } else if byte == 11 {
        OpCode::OpEqual
    } else if byte == 12 {
        OpCode::OpGreater
    } else if byte == 13 {
        OpCode::OpLess
    } else if byte == 14 {
        OpCode::OpPrint
    } else if byte == 15 {
        OpCode::OpPop
    } else if byte == 16 {
        OpCode::OpDefineGlobal
    } else if byte == 17 {
        OpCode::OpGetGlobal
    } else if byte == 18 {
        OpCode::OpSetGlobal
    } else if byte == 19 {
        OpCode::OpJumpIfFalse
    } else if byte == 20 {
        OpCode::OpPopN
    } else if byte == 21 {
        OpCode::OpGetLocal
    } else if byte == 22 {
        OpCode::OpSetLocal
    } else if byte == 23 {
        OpCode::OpJump
    } else if byte == 24 {
        OpCode::OpLoop
    } else {
        OpCode::OpUnKnown
    }
}

/// The number of operand bytes that follow an instruction.
pub open spec fn operand_width(op: OpCode) -> nat {
    match op {
        OpCode::OpConstant
        | OpCode::OpDefineGlobal
        | OpCode::OpGetGlobal
        | OpCode::OpSetGlobal
        | OpCode::OpPopN
        | OpCode::OpGetLocal
        | OpCode::OpSetLocal => 1,
        OpCode::OpJumpIfFalse | OpCode::OpJump | OpCode::OpLoop => 2,
        _ => 0,
    }
}

impl From<u8> for OpCode {
    fn from(op: u8) -> (ret: Self) {
        match op {
            0 => OpCode::OpReturn,
            1 => OpCode::OpConstant,
            2 => OpCode::OpNegate,
            3 => OpCode::OpAdd,
            4 => OpCode::OpSubtract,
            5 => OpCode::OpMultiple,
            6 => OpCode::OpDivide,
            7 => OpCode::OpNil,
            8 => OpCode::OpTrue,
            9 => OpCode::OpFalse,
            10 => OpCode::OpNot,
            11 => OpCode::OpEqual,
            12 => OpCode::OpGreater,
            13 => OpCode::OpLess,
            14 => OpCode::OpPrint,
            15 => OpCode::OpPop,
            16 => OpCode::OpDefineGlobal,
            17 => OpCode::OpGetGlobal,
            18 => OpCode::OpSetGlobal,
            19 => OpCode::OpJumpIfFalse,
            20 => OpCode::OpPopN,
            21 => OpCode::OpGetLocal,
            22 => OpCode::OpSetLocal,
            23 => OpCode::OpJump,
            24 => OpCode::OpLoop,
            _ => OpCode::OpUnKnown,
        }
    }
}

impl vstd::std_specs::convert::FromSpecImpl<u8> for OpCode {
    open spec fn obeys_from_spec() -> bool {
        true
    }

    open spec fn from_spec(op: u8) -> OpCode {
        opcode_of(op)
    }
}

impl From<OpCode> for u8 {
    fn from(op: OpCode) -> (ret: Self) {
        match op {
            OpCode::OpReturn => 0,
            OpCode::OpConstant => 1,
            OpCode::OpNegate => 2,
            OpCode::OpAdd => 3,
            OpCode::OpSubtract => 4,
            OpCode::OpMultiple => 5,
            OpCode::OpDivide => 6,
            OpCode::OpNil => 7,
            OpCode::OpTrue => 8,
            OpCode::OpFalse => 9,
            OpCode::OpNot => 10,
            OpCode::OpEqual => 11,
            OpCode::OpGreater => 12,
            OpCode::OpLess => 13,
            OpCode::OpPrint => 14,
            OpCode::OpPop => 15,
            OpCode::OpDefineGlobal => 16,
            OpCode::OpGetGlobal => 17,
            OpCode::OpSetGlobal => 18,
            OpCode::OpJumpIfFalse => 19,
            OpCode::OpPopN => 20,
            OpCode::OpGetLocal => 21,
            OpCode::OpSetLocal => 22,
            OpCode::OpJump => 23,
            OpCode::OpLoop => 24,
            OpCode::OpUnKnown => 99,
        }
    }
}

impl vstd::std_specs::convert::FromSpecImpl<OpCode> for u8 {
    open spec fn obeys_from_spec() -> bool {
        true
    }

    open spec fn from_spec(op: OpCode) -> u8 {
        opcode_byte(op)
    }
}

/// Decoding undoes encoding: every instruction is read back from its own
/// byte.
pub proof fn lemma_opcode_round_trip(op: OpCode)
    ensures
        opcode_of(opcode_byte(op)) == op,
{
}

impl OpCode {
    /// The number of operand bytes that follow this instruction in a chunk.
    pub fn operands(&self) -> (n: usize)
        ensures
            n == operand_width(*self),
    {
        match self {
            OpCode::OpConstant
            | OpCode::OpDefineGlobal
            | OpCode::OpGetGlobal
            | OpCode::OpSetGlobal
            | OpCode::OpPopN
            | OpCode::OpGetLocal
            | OpCode::OpSetLocal => 1,
            OpCode::OpJumpIfFalse | OpCode::OpJump | OpCode::OpLoop => 2,
            _ => 0,
        }
    }

    /// The mnemonic under which a listing shows this instruction.
    pub open spec fn mnemonic(self) -> Seq<char> {
        match self {
            OpCode::OpReturn => "OP_RETURN"@,
            OpCode::OpConstant => "OP_CONSTANT"@,
            OpCode::OpNegate => "OP_NEGATE"@,
            OpCode::OpUnKnown => "OP_UNKNOWN"@,
            OpCode::OpAdd => "OP_ADD"@,
            OpCode::OpSubtract => "OP_SUBTRACT"@,
            OpCode::OpMultiple => "OP_MULTIPLE"@,
            OpCode::OpDivide => "OP_DIVIDE"@,
            OpCode::OpNil => "OP_NIL"@,
            OpCode::OpTrue => "OP_TRUE"@,
            OpCode::OpFalse => "OP_FALSE"@,
            OpCode::OpNot => "OP_NOT"@,
            OpCode::OpEqual => "OP_EQUAL"@,
            OpCode::OpGreater => "OP_GREATER"@,
            OpCode::OpLess => "OP_LESS"@,
            OpCode::OpPrint => "OP_PRINT"@,
            OpCode::OpPop => "OP_POP"@,
            OpCode::OpDefineGlobal => "OP_DEFINE_GLOBAL"@,
            OpCode::OpGetGlobal => "OP_GET_GLOBAL"@,
            OpCode::OpSetGlobal => "OP_SET_GLOBAL"@,
            OpCode::OpGetLocal => "OP_GET_LOCAL"@,
            OpCode::OpSetLocal => "OP_SET_LOCAL"@,
            OpCode::OpJumpIfFalse => "OP_JUMP_IF_FALSE"@,
            OpCode::OpPopN => "OP_POP_N"@,
            OpCode::OpJump => "OP_JUMP"@,
            OpCode::OpLoop => "OP_LOOP"@,
        }
    }

    /// The mnemonic of this instruction as text.
    pub fn to_string(&self) -> (s: String)
        ensures
            s@ == self.mnemonic(),
    {
        let text: &str = match self {
            OpCode::OpReturn => "OP_RETURN",
            OpCode::OpConstant => "OP_CONSTANT",
            OpCode::OpNegate => "OP_NEGATE",
            OpCode::OpUnKnown => "OP_UNKNOWN",
            OpCode::OpAdd => "OP_ADD",
            OpCode::OpSubtract => "OP_SUBTRACT",
            OpCode::OpMultiple => "OP_MULTIPLE",
            OpCode::OpDivide => "OP_DIVIDE",
            OpCode::OpNil => "OP_NIL",
            OpCode::OpTrue => "OP_TRUE",
            OpCode::OpFalse => "OP_FALSE",
            OpCode::OpNot => "OP_NOT",
            OpCode::OpEqual => "OP_EQUAL",
            OpCode::OpGreater => "OP_GREATER",
            OpCode::OpLess => "OP_LESS",
            OpCode::OpPrint => "OP_PRINT",
            OpCode::OpPop => "OP_POP",
            OpCode::OpDefineGlobal => "OP_DEFINE_GLOBAL",
            OpCode::OpGetGlobal => "OP_GET_GLOBAL",
            OpCode::OpSetGlobal => "OP_SET_GLOBAL",
            OpCode::OpGetLocal => "OP_GET_LOCAL",
            OpCode::OpSetLocal => "OP_SET_LOCAL",
            OpCode::OpJumpIfFalse => "OP_JUMP_IF_FALSE",
            OpCode::OpPopN => "OP_POP_N",
            OpCode::OpJump => "OP_JUMP",
            OpCode::OpLoop => "OP_LOOP",
        };
        String::from_str(text)
    }
}

} // verus!
