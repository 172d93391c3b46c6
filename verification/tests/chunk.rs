use apoloo::bytecodes::Bytecodes;
use apoloo::codegen::Codegen;
use apoloo::debug::{calc_str_op_padding, jump_target, next_instruction};
use apoloo::opcode::OpCode;
use apoloo::value::{Value, ValueRepr};

const ALL: [OpCode; 26] = [
    OpCode::OpReturn,
    OpCode::OpConstant,
    OpCode::OpNegate,
    OpCode::OpAdd,
    OpCode::OpSubtract,
    OpCode::OpMultiple,
    OpCode::OpDivide,
    OpCode::OpNil,
    OpCode::OpTrue,
    OpCode::OpFalse,
    OpCode::OpNot,
    OpCode::OpEqual,
    OpCode::OpGreater,
    OpCode::OpLess,
    OpCode::OpPrint,
    OpCode::OpPop,
    OpCode::OpDefineGlobal,
    OpCode::OpGetGlobal,
    OpCode::OpSetGlobal,
    OpCode::OpJumpIfFalse,
    OpCode::OpPopN,
    OpCode::OpGetLocal,
    OpCode::OpSetLocal,
    OpCode::OpJump,
    OpCode::OpLoop,
    OpCode::OpUnKnown,
];

#[test]
fn opcodes_have_their_byte_values() {
    let bytes: Vec<u8> = ALL.iter().map(|op| u8::from(*op)).collect();
    let mut expected: Vec<u8> = (0..=24).collect();
    expected.push(99);
    assert_eq!(bytes, expected);
}

#[test]
fn opcodes_are_read_back_from_their_bytes() {
    for op in ALL {
        assert_eq!(OpCode::from(u8::from(op)), op);
    }
    for byte in 25..=255u8 {
        assert_eq!(OpCode::from(byte), OpCode::OpUnKnown);
    }
}

#[test]
fn opcodes_have_mnemonics() {
    let names: Vec<String> = ALL.iter().map(|op| op.to_string()).collect();
    assert_eq!(names, vec![
        "OP_RETURN",
        "OP_CONSTANT",
        "OP_NEGATE",
        "OP_ADD",
        "OP_SUBTRACT",
        "OP_MULTIPLE",
        "OP_DIVIDE",
        "OP_NIL",
        "OP_TRUE",
        "OP_FALSE",
        "OP_NOT",
        "OP_EQUAL",
        "OP_GREATER",
        "OP_LESS",
        "OP_PRINT",
        "OP_POP",
        "OP_DEFINE_GLOBAL",
        "OP_GET_GLOBAL",
        "OP_SET_GLOBAL",
        "OP_JUMP_IF_FALSE",
        "OP_POP_N",
        "OP_GET_LOCAL",
        "OP_SET_LOCAL",
        "OP_JUMP",
        "OP_LOOP",
        "OP_UNKNOWN",
    ]);
}

#[test]
fn opcodes_know_their_operands() {
    for op in ALL {
        let expected = match op {
            OpCode::OpConstant
            | OpCode::OpDefineGlobal
            | OpCode::OpGetGlobal
            | OpCode::OpSetGlobal
            | OpCode::OpPopN
            | OpCode::OpGetLocal
            | OpCode::OpSetLocal => 1,
            OpCode::OpJump | OpCode::OpJumpIfFalse | OpCode::OpLoop => 2,
            _ => 0,
        };
        assert_eq!(op.operands(), expected);
    }
}

#[test]
fn chunk_grows_by_writes() {
    let mut chunk = Bytecodes::new();
    assert!(chunk.code.is_empty());
    assert!(chunk.values.is_empty());
    assert_eq!(chunk.write(7), 0);
    assert_eq!(chunk.write(8), 1);
    assert_eq!(chunk.write2(9, 10), 3);
    assert_eq!(chunk.code, vec![7, 8, 9, 10]);
    assert_eq!(chunk.add_const_val(42), 0);
    assert_eq!(chunk.add_const(Value(ValueRepr::String("s".to_string()))), 1);
    assert!(matches!(chunk.values[0].0, ValueRepr::Number(42)));
    assert!(matches!(&chunk.values[1].0, ValueRepr::String(s) if s == "s"));
    let copy = chunk.clone();
    assert_eq!(copy.code, chunk.code);
    assert_eq!(copy.values.len(), 2);
    chunk.free();
    assert!(chunk.code.is_empty());
    assert!(chunk.values.is_empty());
    assert_eq!(copy.code, vec![7, 8, 9, 10]);
    let empty = Bytecodes::default();
    assert!(empty.code.is_empty());
}

#[test]
fn emitter_writes_instructions() {
    let mut gen = Codegen::new();
    assert_eq!(gen.emit_op(OpCode::OpNil), 0);
    assert_eq!(gen.emit_byte(200), 1);
    assert_eq!(gen.emit_op_operand(OpCode::OpPopN, 3), 3);
    assert_eq!(gen.emit_op_operand2(OpCode::OpJump, 1, 2), 6);
    assert_eq!(gen.emit_op2(OpCode::OpEqual, OpCode::OpNot), 8);
    assert_eq!(gen.emit_bytes(&[5, 6, 7]), 11);
    assert_eq!(gen.emit_bytes(&[]), 0);
    assert_eq!(gen.emit_return(), 12);
    assert_eq!(gen.bytecodes.code, vec![7, 200, 20, 3, 23, 1, 2, 11, 10, 5, 6, 7, 0]);
}

#[test]
fn emitter_adds_constants() {
    let mut gen = Codegen::new();
    assert_eq!(gen.emit_const_f64(1.5f64.to_bits()), 0);
    assert_eq!(gen.emit_const_string("name".to_string()), 1);
    assert_eq!(gen.bytecodes.code, vec![1, 0, 1, 1]);
    assert!(matches!(gen.bytecodes.values[0].0, ValueRepr::Number(b) if f64::from_bits(b) == 1.5));
    assert!(matches!(&gen.bytecodes.values[1].0, ValueRepr::String(s) if s == "name"));
}

#[test]
fn forward_jump_is_patched_to_the_end_of_the_code() {
    let mut gen = Codegen::new();
    gen.emit_op(OpCode::OpTrue);
    let offset = gen.emit_jump(OpCode::OpJumpIfFalse);
    assert_eq!(offset, 2);
    assert_eq!(gen.bytecodes.code, vec![8, 19, 0xff, 0xff]);
    for _ in 0..300 {
        gen.emit_op(OpCode::OpNil);
    }
    gen.patch_jump(offset);
    // target - offset - 2 = 304 - 2 - 2 = 300 = 0x012c
    assert_eq!(gen.bytecodes.code[2], 0x01);
    assert_eq!(gen.bytecodes.code[3], 0x2c);
    assert_eq!(gen.bytecodes.code.len(), 304);
    assert_eq!(jump_target(&gen.bytecodes, 1, false), Some(304));
}

#[test]
fn jump_over_nothing_has_distance_zero() {
    let mut gen = Codegen::new();
    let offset = gen.emit_jump(OpCode::OpJump);
    gen.patch_jump(offset);
    assert_eq!(gen.bytecodes.code, vec![23, 0, 0]);
}

#[test]
fn backward_jump_counts_from_after_its_operand() {
    let mut gen = Codegen::new();
    gen.emit_op(OpCode::OpNil);
    let start = gen.bytecodes.code.len();
    for _ in 0..258 {
        gen.emit_op(OpCode::OpPop);
    }
    gen.emit_loop(start);
    // offset + 2 - target = 260 + 2 - 1 = 261 = 0x0105
    assert_eq!(&gen.bytecodes.code[259..], &[24, 0x01, 0x05]);
    assert_eq!(jump_target(&gen.bytecodes, 259, true), Some(1));
}

#[test]
fn longest_jumps_fit() {
    let mut gen = Codegen::new();
    let offset = gen.emit_jump(OpCode::OpJump);
    for _ in 0..65535 {
        gen.emit_op(OpCode::OpNil);
    }
    gen.patch_jump(offset);
    assert_eq!(&gen.bytecodes.code[..3], &[23, 0xff, 0xff]);
    let mut gen = Codegen::new();
    for _ in 0..65532 {
        gen.emit_op(OpCode::OpNil);
    }
    gen.emit_loop(0);
    assert_eq!(&gen.bytecodes.code[65532..], &[24, 0xff, 0xff]);
}

#[test]
fn listing_helpers() {
    assert_eq!(calc_str_op_padding(&OpCode::OpReturn), 7);
    assert_eq!(calc_str_op_padding(&OpCode::OpJumpIfFalse), 0);
    assert_eq!(calc_str_op_padding(&OpCode::OpDefineGlobal), 0);
    assert_eq!(calc_str_op_padding(&OpCode::OpAdd), 10);
    let mut chunk = Bytecodes::new();
    for byte in [1u8, 0, 3, 23, 0, 2, 0, 99] {
        chunk.write(byte);
    }
    assert_eq!(next_instruction(&chunk, 0), 2);
    assert_eq!(next_instruction(&chunk, 2), 3);
    assert_eq!(next_instruction(&chunk, 3), 6);
    assert_eq!(next_instruction(&chunk, 6), 7);
    assert_eq!(next_instruction(&chunk, 7), 8);
    assert_eq!(jump_target(&chunk, 3, false), Some(8));
    assert_eq!(jump_target(&chunk, 3, true), Some(4));
    let mut chunk = Bytecodes::new();
    for byte in [24u8, 0, 9] {
        chunk.write(byte);
    }
    assert_eq!(jump_target(&chunk, 0, true), None);
}

#[test]
fn opcodes_are_ordered_as_their_bytes() {
    for a in ALL {
        for b in ALL {
            assert_eq!(a < b, u8::from(a) < u8::from(b));
            assert_eq!(a >= b, u8::from(a) >= u8::from(b));
        }
    }
}
