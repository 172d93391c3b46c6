//! The stack discipline of compiled code.
//!
//! A chunk is balanced by an assignment of stack heights to its
//! instructions: every instruction leads from its own height to the height
//! of each instruction that may run next. The machine keeps to such an
//! assignment: as long as no runtime error ends the run, the height of the
//! stack is the height assigned to the next instruction.

use vstd::prelude::*;
use crate::codegen::{high_byte, jump_field, low_byte, operand16, MAX_JUMP};
use crate::machine::{MachineView, StepView};
use crate::vm::InterpretResult;
use crate::opcode::{opcode_byte, opcode_of, operand_width, OpCode};

verus! {

/// Stack heights: `heights[pc]` is the height of the stack before the
/// instruction that starts at `pc`, and `None` where no instruction
/// starts. The entry after the last byte of the code is the height at the
/// end of the code.
pub type Heights = Seq<Option<int>>;

/// The change of the height of the stack by an instruction that goes on
/// to the next one. For the arithmetic instructions this counts the result
/// that the host hands back.
pub open spec fn effect(op: OpCode, operand: u8) -> int {
    match op {
        OpCode::OpConstant
        | OpCode::OpNil
        | OpCode::OpTrue
        | OpCode::OpFalse
        | OpCode::OpGetLocal
        | OpCode::OpGetGlobal => 1,
        OpCode::OpPop
        | OpCode::OpDefineGlobal
        | OpCode::OpEqual
        | OpCode::OpGreater
        | OpCode::OpLess
        | OpCode::OpAdd
        | OpCode::OpSubtract
        | OpCode::OpMultiple
        | OpCode::OpDivide
        | OpCode::OpPrint => -1,
        OpCode::OpPopN => -(operand as int),
        _ => 0,
    }
}

/// An instruction starts at `pc`, between `lo` and `hi`, and the stack has
/// the given height before it.
pub open spec fn lands(h: Heights, pc: int, height: int, lo: int, hi: int) -> bool {
    lo <= pc <= hi && pc < h.len() && h[pc] == Some(height)
}

/// The instruction at `pc` is whole, and each instruction that may run
/// after it starts between `lo` and `hi` at the height that the
/// instruction leaves.
pub open spec fn typed_within(code: Seq<u8>, h: Heights, pc: int, lo: int, hi: int) -> bool {
    let op = opcode_of(code[pc]);
    let next = pc + 1 + operand_width(op);
    let height = h[pc]->0;
    &&& 0 <= pc < code.len()
    &&& next <= hi
    &&& next <= code.len()
    &&& next < h.len()
    &&& h[next] is Some
    &&& (pc + 1 < next ==> h[pc + 1] is None)
    &&& (pc + 2 < next ==> h[pc + 2] is None)
    &&& match op {
        OpCode::OpReturn => false,
        OpCode::OpUnKnown => false,
        OpCode::OpJump => lands(h, pc + 3 + jump_field(code, pc + 1), height, lo, hi),
        OpCode::OpJumpIfFalse => lands(h, next, height, lo, hi) && lands(
            h,
            pc + 3 + jump_field(code, pc + 1),
            height,
            lo,
            hi,
        ),
        OpCode::OpLoop => lands(h, pc + 3 - jump_field(code, pc + 1), height, lo, hi),
        _ => lands(h, next, height + effect(op, code[pc + 1]), lo, hi),
    }
}

/// Every instruction that starts in `[from, to)` is typed within
/// `[lo, hi]`.
pub open spec fn covered(code: Seq<u8>, h: Heights, from: int, to: int, lo: int, hi: int) -> bool {
    forall|pc: int|
        from <= pc < to && 0 <= pc < h.len() && (#[trigger] h[pc]) is Some ==> typed_within(
            code,
            h,
            pc,
            lo,
            hi,
        )
}

/// The code between `lo` and `hi` keeps to the heights, and never leaves
/// `[lo, hi]`.
pub open spec fn closed(code: Seq<u8>, h: Heights, lo: int, hi: int) -> bool {
    &&& 0 <= lo <= hi <= code.len()
    &&& hi < h.len()
    &&& covered(code, h, lo, hi, lo, hi)
}

/// The whole chunk keeps to the heights: its last byte is the instruction
/// that ends a program, and the code before it keeps to the heights, holds
/// no other such instruction, and never leaves the chunk: every instruction
/// of it goes on, and every jump of it lands, at an instruction at or
/// before the last one.
pub open spec fn balanced(code: Seq<u8>, h: Heights) -> bool {
    &&& code.len() >= 1
    &&& h.len() == code.len() + 1
    &&& closed(code, h, 0, code.len() - 1)
    &&& code[code.len() - 1] == opcode_byte(OpCode::OpReturn)
    &&& h[code.len() - 1] is Some
}

/// The height at which a balanced chunk ends.
pub open spec fn final_height(code: Seq<u8>, h: Heights) -> int {
    h[code.len() - 1]->0
}

/// Reading instruction after instruction from `pc`, each with its operand
/// bytes, ends exactly at the end of the code.
pub open spec fn decodes(code: Seq<u8>, pc: int) -> bool
    decreases code.len() - pc,
{
    if pc == code.len() {
        true
    } else if pc < 0 || pc > code.len() {
        false
    } else {
        let next = pc + 1 + operand_width(opcode_of(code[pc]));
        if next > code.len() {
            false
        } else {
            decodes(code, next)
        }
    }
}

/// In a balanced chunk the instructions follow one another without a gap
/// up to the end of the code: the last byte is an instruction, not an
/// operand.
pub proof fn lemma_balanced_decodes(code: Seq<u8>, h: Heights, pc: int)
    requires
        balanced(code, h),
        0 <= pc < code.len(),
        h[pc] is Some,
    ensures
        decodes(code, pc),
    decreases code.len() - pc,
{
    if pc < code.len() - 1 {
        assert(typed_within(code, h, pc, 0, code.len() - 1));
        lemma_balanced_decodes(code, h, pc + 1 + operand_width(opcode_of(code[pc])));
    } else {
        assert(decodes(code, pc + 1));
    }
}

/// In a balanced chunk every jump lands on an instruction at or before the
/// instruction that ends the program, and only that last instruction ends
/// a program.
pub proof fn lemma_jumps_land(code: Seq<u8>, h: Heights, pc: int)
    requires
        balanced(code, h),
        0 <= pc < code.len() - 1,
        h[pc] is Some,
    ensures
        opcode_of(code[pc]) != OpCode::OpReturn,
        opcode_of(code[pc]) == OpCode::OpJump || opcode_of(code[pc]) == OpCode::OpJumpIfFalse ==> {
            let target = pc + 3 + jump_field(code, pc + 1);
            0 <= target <= code.len() - 1 && h[target] is Some
        },
        opcode_of(code[pc]) == OpCode::OpLoop ==> {
            let target = pc + 3 - jump_field(code, pc + 1);
            0 <= target <= code.len() - 1 && h[target] is Some
        },
{
    assert(typed_within(code, h, pc, 0, code.len() - 1));
}

/// What the machine does with one instruction when the host answers an
/// arithmetic instruction at once with `answer`.
pub open spec fn settle(m: MachineView, answer: u64) -> (MachineView, StepView) {
    let (next, step) = m.step();
    match step {
        StepView::Arithmetic(..) => next.resume(answer),
        _ => (next, step),
    }
}

/// The machine is about to run an instruction of a balanced chunk, and its
/// stack has the height of that instruction.
pub open spec fn keeps_to(m: MachineView, h: Heights) -> bool {
    &&& balanced(m.code, h)
    &&& 0 <= m.ip < m.code.len()
    &&& h[m.ip] == Some(m.stack.len() as int)
}

/// The machine keeps to the heights of a balanced chunk: after an
/// instruction that does not end the run, the stack has the height of the
/// next instruction.
pub proof fn lemma_step_keeps_height(m: MachineView, h: Heights, answer: u64)
    requires
        keeps_to(m, h),
    ensures
        !(settle(m, answer).1 is Done) ==> keeps_to(settle(m, answer).0, h),
        settle(m, answer).0.code == m.code,
{
    if m.ip < m.code.len() - 1 {
        lemma_inner_step(m, h, answer);
    } else {
        crate::opcode::lemma_opcode_round_trip(OpCode::OpReturn);
        assert(m.can_fetch());
        assert(m.step().1 == StepView::Done(InterpretResult::InterpretOk));
    }
}

/// An instruction before the last one leads to an instruction of the
/// chunk, at the height of that instruction.
proof fn lemma_inner_step(m: MachineView, h: Heights, answer: u64)
    requires
        0 <= m.ip < m.code.len() - 1,
        h.len() == m.code.len() + 1,
        typed_within(m.code, h, m.ip, 0, m.code.len() - 1),
        h[m.ip] == Some(m.stack.len() as int),
    ensures
        !(settle(m, answer).1 is Done) ==> {
            &&& 0 <= settle(m, answer).0.ip < m.code.len()
            &&& h[settle(m, answer).0.ip] == Some(settle(m, answer).0.stack.len() as int)
        },
        settle(m, answer).0.code == m.code,
{
    assert(m.can_fetch());
    assert(m.stack.take(m.stack.len() - 0) =~= m.stack);
}

/// A run of a balanced chunk ends with success only at the last
/// instruction of the chunk; the stack and the globals are then as that
/// instruction found them.
pub proof fn lemma_step_ends(m: MachineView, h: Heights, answer: u64)
    requires
        keeps_to(m, h),
        settle(m, answer).1 == StepView::Done(InterpretResult::InterpretOk),
    ensures
        m.ip == m.code.len() - 1,
        settle(m, answer).0.ip == m.code.len(),
        settle(m, answer).0.stack == m.stack,
        settle(m, answer).0.globals == m.globals,
{
    if m.ip < m.code.len() - 1 {
        assert(typed_within(m.code, h, m.ip, 0, m.code.len() - 1));
        assert(opcode_of(m.code[m.ip]) != OpCode::OpReturn);
        lemma_only_return_succeeds(m, answer);
    } else {
        crate::opcode::lemma_opcode_round_trip(OpCode::OpReturn);
    }
}

/// Only the instruction that ends a program ends a run with success.
pub proof fn lemma_only_return_succeeds(m: MachineView, answer: u64)
    requires
        settle(m, answer).1 == StepView::Done(InterpretResult::InterpretOk),
    ensures
        m.can_fetch(),
        opcode_of(m.code[m.ip]) == OpCode::OpReturn,
{
}

/// The state after `n` instructions, where the host answers the `i`-th
/// instruction with `answers(i)` if it is an arithmetic instruction. A run
/// that has ended stays as it is.
pub open spec fn after(m: MachineView, answers: spec_fn(nat) -> u64, n: nat) -> (
    MachineView,
    StepView,
)
    decreases n,
{
    if n == 0 {
        (m, StepView::Continue)
    } else {
        let (before, step) = after(m, answers, (n - 1) as nat);
        if step is Done {
            (before, step)
        } else {
            settle(before, answers((n - 1) as nat))
        }
    }
}

/// In a run of a balanced chunk that starts at the height of its first
/// instruction, the stack has the height of the next instruction after
/// every instruction, until the run ends. A run that ends with success ends
/// on the last instruction of the chunk, with the stack at the height of
/// that instruction.
pub proof fn lemma_run_keeps_height(
    m: MachineView,
    h: Heights,
    answers: spec_fn(nat) -> u64,
    n: nat,
)
    requires
        keeps_to(m, h),
    ensures
        !(after(m, answers, n).1 is Done) ==> keeps_to(after(m, answers, n).0, h),
        after(m, answers, n).1 == StepView::Done(InterpretResult::InterpretOk) ==> {
            &&& after(m, answers, n).0.ip == m.code.len()
            &&& after(m, answers, n).0.stack.len() == final_height(m.code, h)
        },
        !(after(m, answers, n).1 is Done) ==> after(m, answers, n).0.code == m.code,
    decreases n,
{
    if n > 0 {
        lemma_run_keeps_height(m, h, answers, (n - 1) as nat);
        let (before, step) = after(m, answers, (n - 1) as nat);
        if !(step is Done) {
            lemma_step_keeps_height(before, h, answers((n - 1) as nat));
            if settle(before, answers((n - 1) as nat)).1 == StepView::Done(
                InterpretResult::InterpretOk,
            ) {
                lemma_step_ends(before, h, answers((n - 1) as nat));
            }
        }
    }
}

/// A jump's operand holds the distance that was written into it.
pub proof fn lemma_operand_holds(distance: int)
    requires
        0 <= distance <= MAX_JUMP,
    ensures
        operand16(high_byte(distance), low_byte(distance)) == distance,
{
}

/// Typing looks only at the bytes of the instruction and at the heights
/// between `lo` and `hi`.
pub proof fn lemma_typed_transport(
    code: Seq<u8>,
    h: Heights,
    code2: Seq<u8>,
    h2: Heights,
    pc: int,
    lo: int,
    hi: int,
)
    requires
        typed_within(code, h, pc, lo, hi),
        0 <= lo,
        hi < h.len(),
        hi < h2.len(),
        hi <= code2.len(),
        lo <= pc,
        forall|i: int|
            pc <= i < pc + 1 + operand_width(opcode_of(code[pc])) && i < code.len() ==> code2[i]
                == code[i],
        forall|i: int| lo <= i <= hi ==> h2[i] == h[i],
    ensures
        typed_within(code2, h2, pc, lo, hi),
{
}

} // verus!
