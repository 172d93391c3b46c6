//! How the compiler keeps the stack in balance: what each step of a
//! compilation adds to the code, and which heights the added code keeps
//! to.

use vstd::prelude::*;
use crate::balance::{closed, effect, lands, lemma_operand_holds, typed_within, Heights};
use crate::codegen::{jump_field, MAX_JUMP};
use crate::grammar::{lemma_advance_measure, ParserView};
use crate::opcode::{opcode_byte, opcode_of, operand_width, OpCode};
use crate::token::TokenType;

verus! {

/// While the compiler recovers from an error, the error is on record.
pub open spec fn calm(s: ParserView) -> bool {
    s.panic_mode ==> s.had_error
}

/// The heights reach as far as the code, and the height at the end of the
/// code is known.
pub open spec fn shaped(s: ParserView, h: Heights) -> bool {
    h.len() == s.code.len() + 1 && h.last() is Some
}

/// The height at the end of the code.
pub open spec fn top(h: Heights) -> int {
    h.last()->0
}

/// The code of `s2` is that of `s` with more code after it.
pub open spec fn extends_code(s: ParserView, s2: ParserView) -> bool {
    &&& s2.code.len() >= s.code.len()
    &&& forall|i: int| 0 <= i < s.code.len() ==> #[trigger] s2.code[i] == s.code[i]
}

/// The heights `h2` are `h` with more heights after them.
pub open spec fn extends_heights(h: Heights, h2: Heights) -> bool {
    &&& h2.len() >= h.len()
    &&& forall|i: int| 0 <= i < h.len() ==> #[trigger] h2[i] == h[i]
}

/// From `s` with heights `h` the compilation went on to `s2` with heights
/// `h2`: code was added after the code of `s`, the added code keeps to the
/// heights and stays within itself, and it changes the height of the stack
/// by `delta`.
#[verifier::opaque]
pub open spec fn grows(s: ParserView, h: Heights, s2: ParserView, h2: Heights, delta: int) -> bool {
    &&& shaped(s2, h2)
    &&& extends_code(s, s2)
    &&& extends_heights(h, h2)
    &&& closed(s2.code, h2, s.code.len() as int, s2.code.len() as int)
    &&& top(h2) == top(h) + delta
}

/// The heights after an instruction without operands.
pub open spec fn after_op(h: Heights, op: OpCode) -> Heights {
    h.push(Some(top(h) + effect(op, 0)))
}

/// The heights after an instruction with one operand.
pub open spec fn after_operand(h: Heights, op: OpCode, o: u8) -> Heights {
    h.push(None).push(Some(top(h) + effect(op, o)))
}

/// The heights after a jump or a loop, where `height` is the height at
/// which the code after it is entered.
pub open spec fn after_jump(h: Heights, height: int) -> Heights {
    h.push(None).push(None).push(Some(height))
}

/// An instruction that has no operand and goes on to the next one.
pub open spec fn is_plain(op: OpCode) -> bool {
    operand_width(op) == 0 && op != OpCode::OpReturn && op != OpCode::OpUnKnown
}

/// An instruction that has one operand.
pub open spec fn has_operand(op: OpCode) -> bool {
    operand_width(op) == 1
}

/// Nothing was added.
pub proof fn lemma_grows_nothing(s: ParserView, h: Heights, s2: ParserView)
    requires
        shaped(s, h),
        s2.code == s.code,
    ensures
        grows(s, h, s2, h, 0),
{
    reveal(grows);
    reveal(partial);
}

/// What was added in two steps was added.
pub proof fn lemma_grows_then(
    s: ParserView,
    h: Heights,
    s1: ParserView,
    h1: Heights,
    d1: int,
    s2: ParserView,
    h2: Heights,
    d2: int,
)
    requires
        shaped(s, h),
        grows(s, h, s1, h1, d1),
        grows(s1, h1, s2, h2, d2),
    ensures
        grows(s, h, s2, h2, d1 + d2),
{
    reveal(grows);
    reveal(partial);
    let a = s.code.len() as int;
    let m = s1.code.len() as int;
    let b = s2.code.len() as int;
    assert forall|pc: int| a <= pc < b && 0 <= pc < h2.len() && h2[pc] is Some implies typed_within(
        s2.code,
        h2,
        pc,
        a,
        b,
    ) by {
        if pc < m {
            assert(h1[pc] == h2[pc]);
            assert(typed_within(s1.code, h1, pc, a, m));
            crate::balance::lemma_typed_transport(s1.code, h1, s2.code, h2, pc, a, m);
        } else {
            assert(typed_within(s2.code, h2, pc, m, b));
        }
    }
}

/// An instruction without operands was added.
pub proof fn lemma_emit_op(s: ParserView, h: Heights, op: OpCode)
    requires
        shaped(s, h),
        is_plain(op),
    ensures
        grows(s, h, s.emit_op(op), after_op(h, op), effect(op, 0)),
{
    reveal(grows);
    reveal(partial);
    let s2 = s.emit_op(op);
    let h2 = after_op(h, op);
    let a = s.code.len() as int;
    crate::opcode::lemma_opcode_round_trip(op);
    assert(s2.code[a] == opcode_byte(op));
    assert(typed_within(s2.code, h2, a, a, a + 1));
}

/// Two instructions without operands were added.
pub proof fn lemma_emit_op2(s: ParserView, h: Heights, op1: OpCode, op2: OpCode)
    requires
        shaped(s, h),
        is_plain(op1),
        is_plain(op2),
    ensures
        grows(
            s,
            h,
            s.emit_op2(op1, op2),
            after_op(after_op(h, op1), op2),
            effect(op1, 0) + effect(op2, 0),
        ),
{
    reveal(grows);
    reveal(partial);
    lemma_emit_op(s, h, op1);
    lemma_emit_op(s.emit_op(op1), after_op(h, op1), op2);
    lemma_grows_then(
        s,
        h,
        s.emit_op(op1),
        after_op(h, op1),
        effect(op1, 0),
        s.emit_op2(op1, op2),
        after_op(after_op(h, op1), op2),
        effect(op2, 0),
    );
}

/// An instruction with one operand was added.
pub proof fn lemma_emit_op_operand(s: ParserView, h: Heights, op: OpCode, o: u8)
    requires
        shaped(s, h),
        has_operand(op),
    ensures
        grows(s, h, s.emit_op_operand(op, o), after_operand(h, op, o), effect(op, o)),
{
    reveal(grows);
    reveal(partial);
    let s2 = s.emit_op_operand(op, o);
    let h2 = after_operand(h, op, o);
    let a = s.code.len() as int;
    crate::opcode::lemma_opcode_round_trip(op);
    assert(s2.code[a] == opcode_byte(op));
    assert(s2.code[a + 1] == o);
    assert(typed_within(s2.code, h2, a, a, a + 2));
}

/// What consuming a token keeps: the code, the constants and the scope. An
/// error that was on record stays on record.
pub proof fn lemma_advance_frame(s: ParserView)
    requires
        calm(s),
    ensures
        calm(s.advance()),
        s.had_error ==> s.advance().had_error,
        s.advance().code == s.code,
        s.advance().constants == s.constants,
        s.advance().scope == s.scope,
        s.advance().prev == s.curr,
        s.advance().measure() <= s.measure(),
        s.curr.token_type != TokenType::TokenEof ==> s.advance().measure() < s.measure(),
{
    reveal(grows);
    reveal(partial);
    reveal(ParserView::advance);
    lemma_advance_measure(s);
    lemma_scan_frame(ParserView { prev: s.curr, prev_number: s.curr_number, ..s });
}

pub proof fn lemma_scan_frame(s: ParserView)
    requires
        calm(s),
    ensures
        calm(s.scan()),
        s.had_error ==> s.scan().had_error,
    decreases s.rest.len(),
{
    reveal(grows);
    reveal(partial);
    reveal(ParserView::scan);
    if s.rest.len() > 0 {
        let t = s.rest[0];
        if t.token_type == TokenType::TokenError {
            let popped = ParserView { curr: t, rest: s.rest.drop_first(), ..s };
            lemma_scan_frame(popped.error_at(t, t.raw));
        }
    }
}

/// What consuming an expected token keeps.
pub proof fn lemma_consume_frame(s: ParserView, t: TokenType, msg: Seq<char>)
    requires
        calm(s),
    ensures
        calm(s.consume(t, msg)),
        s.had_error ==> s.consume(t, msg).had_error,
        s.consume(t, msg).code == s.code,
        s.consume(t, msg).constants == s.constants,
        s.consume(t, msg).scope == s.scope,
        s.consume(t, msg).measure() <= s.measure(),
        !s.consume(t, msg).had_error ==> s.consume(t, msg) == s.advance(),
{
    reveal(grows);
    reveal(partial);
    reveal(ParserView::consume);
    lemma_advance_frame(s);
}

/// A jump that was patched without an error lands at the end of the code;
/// the bytes around its operand are as they were.
pub proof fn lemma_patch(s: ParserView, offset: int)
    requires
        calm(s),
        1 <= offset,
        offset + 2 <= s.code.len(),
    ensures
        s.had_error ==> s.patch_jump(offset).had_error,
        calm(s.patch_jump(offset)),
        s.patch_jump(offset).measure() == s.measure(),
        s.patch_jump(offset).scope == s.scope,
        s.patch_jump(offset).constants == s.constants,
        s.patch_jump(offset).code.len() == s.code.len(),
        forall|i: int|
            0 <= i < s.code.len() && i != offset && i != offset + 1 ==> #[trigger] s.patch_jump(
                offset,
            ).code[i] == s.code[i],
        !s.patch_jump(offset).had_error ==> offset + 2 + jump_field(
            s.patch_jump(offset).code,
            offset,
        ) == s.code.len(),
{
    reveal(grows);
    reveal(partial);
    reveal(ParserView::patch_jump);
    let distance = s.code.len() - offset - 2;
    if distance <= MAX_JUMP {
        lemma_operand_holds(distance);
    }
}

/// A loop that was emitted without an error jumps back to `start`.
pub proof fn lemma_emit_loop(s: ParserView, start: int)
    requires
        calm(s),
        0 <= start <= s.code.len(),
    ensures
        s.had_error ==> s.emit_loop(start).had_error,
        calm(s.emit_loop(start)),
        s.emit_loop(start).code.len() >= s.code.len(),
        s.emit_loop(start).measure() == s.measure(),
        s.emit_loop(start).scope == s.scope,
        s.emit_loop(start).constants == s.constants,
        !s.emit_loop(start).had_error ==> {
            &&& s.emit_loop(start).code.len() == s.code.len() + 3
            &&& extends_code(s, s.emit_loop(start))
            &&& s.emit_loop(start).code[s.code.len() as int] == opcode_byte(OpCode::OpLoop)
            &&& s.code.len() + 3 - jump_field(s.emit_loop(start).code, s.code.len() as int + 1) == start
        },
{
    reveal(grows);
    reveal(partial);
    reveal(ParserView::emit_loop);
    let distance = s.code.len() + 3 - start;
    if distance <= MAX_JUMP {
        lemma_operand_holds(distance);
    }
}

/// What emitting a jump with a placeholder adds.
pub proof fn lemma_emit_jump(s: ParserView, op: OpCode)
    ensures
        s.emit_jump(op).had_error == s.had_error,
        s.emit_jump(op).panic_mode == s.panic_mode,
        s.emit_jump(op).measure() == s.measure(),
        s.emit_jump(op).scope == s.scope,
        s.emit_jump(op).constants == s.constants,
        s.emit_jump(op).code.len() == s.code.len() + 3,
        extends_code(s, s.emit_jump(op)),
        s.emit_jump(op).code[s.code.len() as int] == opcode_byte(op),
{
    reveal(grows);
    reveal(partial);
}

/// What adding a constant keeps.
pub proof fn lemma_make_constant(s: ParserView, value: crate::value::ValueView)
    ensures
        s.had_error ==> s.make_constant(value).had_error,
        calm(s) ==> calm(s.make_constant(value)),
        s.make_constant(value).measure() == s.measure(),
        s.make_constant(value).scope == s.scope,
        s.make_constant(value).code == s.code,
        s.make_constant(value).curr == s.curr,
        s.make_constant(value).prev == s.prev,
{
    reveal(grows);
    reveal(partial);
    reveal(ParserView::make_constant);
}

/// A constant and the instruction that loads it were added.
pub proof fn lemma_emit_constant(s: ParserView, h: Heights, value: crate::value::ValueView)
    requires
        shaped(s, h),
        calm(s),
    ensures
        s.had_error ==> s.emit_constant(value).had_error,
        calm(s.emit_constant(value)),
        s.emit_constant(value).measure() == s.measure(),
        s.emit_constant(value).scope == s.scope,
        grows(
            s,
            h,
            s.emit_constant(value),
            after_operand(h, OpCode::OpConstant, s.constant_index()),
            1,
        ),
{
    reveal(grows);
    reveal(partial);
    lemma_make_constant(s, value);
    let s1 = s.make_constant(value);
    lemma_grows_nothing(s, h, s1);
    lemma_emit_op_operand(s1, h, OpCode::OpConstant, s.constant_index());
    lemma_grows_then(
        s,
        h,
        s1,
        h,
        0,
        s.emit_constant(value),
        after_operand(h, OpCode::OpConstant, s.constant_index()),
        1,
    );
}

/// A forward jump whose operand was patched is typed: it lands where it
/// was patched to.
pub proof fn lemma_jump_typed(
    code: Seq<u8>,
    h: Heights,
    pc: int,
    op: OpCode,
    target: int,
    lo: int,
    hi: int,
)
    requires
        op == OpCode::OpJump || op == OpCode::OpJumpIfFalse,
        0 <= pc,
        pc + 3 <= code.len(),
        pc + 3 <= hi,
        code[pc] == opcode_byte(op),
        pc + 3 + jump_field(code, pc + 1) == target,
        0 <= pc < h.len(),
        h[pc] is Some,
        lands(h, target, h[pc]->0, lo, hi),
        op == OpCode::OpJumpIfFalse ==> lands(h, pc + 3, h[pc]->0, lo, hi),
        pc + 3 < h.len(),
        h[pc + 1] is None,
        h[pc + 2] is None,
        h[pc + 3] is Some,
    ensures
        typed_within(code, h, pc, lo, hi),
{
    reveal(grows);
    reveal(partial);
}

/// A loop is typed: it lands at its start.
pub proof fn lemma_loop_typed(code: Seq<u8>, h: Heights, pc: int, target: int, lo: int, hi: int)
    requires
        0 <= pc,
        pc + 3 <= code.len(),
        pc + 3 <= hi,
        code[pc] == opcode_byte(OpCode::OpLoop),
        pc + 3 - jump_field(code, pc + 1) == target,
        0 <= pc < h.len(),
        h[pc] is Some,
        lands(h, target, h[pc]->0, lo, hi),
        pc + 3 < h.len(),
        h[pc + 1] is None,
        h[pc + 2] is None,
        h[pc + 3] is Some,
    ensures
        typed_within(code, h, pc, lo, hi),
{
    reveal(grows);
    reveal(partial);
}

/// An instruction without operands is typed.
pub proof fn lemma_plain_typed(code: Seq<u8>, h: Heights, pc: int, op: OpCode, lo: int, hi: int)
    requires
        is_plain(op),
        0 <= pc < code.len(),
        code[pc] == opcode_byte(op),
        0 <= pc < h.len(),
        h[pc] is Some,
        lands(h, pc + 1, h[pc]->0 + effect(op, 0), lo, hi),
    ensures
        typed_within(code, h, pc, lo, hi),
{
    reveal(grows);
    reveal(partial);
    crate::opcode::lemma_opcode_round_trip(op);
}

/// What code that was added leaves as it was, and where it ends.
pub proof fn lemma_grows_facts(s: ParserView, h: Heights, s2: ParserView, h2: Heights, delta: int)
    requires
        grows(s, h, s2, h2, delta),
    ensures
        shaped(s2, h2),
        top(h2) == top(h) + delta,
        s2.code.len() >= s.code.len(),
        extends_heights(h, h2),
{
    reveal(grows);
}

/// What the code that was added so far leaves as it was.
pub proof fn lemma_partial_facts(
    s: ParserView,
    h: Heights,
    s2: ParserView,
    h2: Heights,
    waiting: Set<int>,
)
    requires
        partial(s, h, s2, h2, waiting),
    ensures
        shaped(s2, h2),
        s2.code.len() >= s.code.len(),
        extends_heights(h, h2),
{
    reveal(partial);
}

/// A jump whose distance is not yet known: the instruction is in place,
/// and where the jump may go on to the next instruction, that one starts at
/// the height of the jump.
pub open spec fn pending_jump(code: Seq<u8>, h: Heights, j: int, lo: int) -> bool {
    &&& lo <= j
    &&& j + 3 <= code.len()
    &&& j + 3 < h.len()
    &&& h[j] is Some
    &&& h[j + 1] is None
    &&& h[j + 2] is None
    &&& h[j + 3] is Some
    &&& (code[j] == opcode_byte(OpCode::OpJump) || code[j] == opcode_byte(OpCode::OpJumpIfFalse))
    &&& (code[j] == opcode_byte(OpCode::OpJumpIfFalse) ==> h[j + 3] == h[j])
}

/// The state of the code that a routine has added so far, while some of
/// its jumps still wait for their distance: code was added after the code
/// of `s`, and every instruction of it but the jumps in `waiting` keeps to
/// the heights and stays within the added code.
#[verifier::opaque]
pub open spec fn partial(
    s: ParserView,
    h: Heights,
    s2: ParserView,
    h2: Heights,
    waiting: Set<int>,
) -> bool {
    &&& shaped(s2, h2)
    &&& extends_code(s, s2)
    &&& extends_heights(h, h2)
    &&& forall|pc: int|
        s.code.len() <= pc < s2.code.len() && (#[trigger] h2[pc]) is Some && !waiting.contains(pc)
            ==> typed_within(s2.code, h2, pc, s.code.len() as int, s2.code.len() as int)
    &&& forall|j: int| waiting.contains(j) ==> pending_jump(s2.code, h2, j, s.code.len() as int)
}

/// Nothing was added yet.
pub proof fn lemma_partial_start(s: ParserView, h: Heights)
    requires
        shaped(s, h),
    ensures
        partial(s, h, s, h, Set::empty()),
{
    reveal(grows);
    reveal(partial);
}

/// A step that adds no code.
pub proof fn lemma_partial_idle(
    s: ParserView,
    h: Heights,
    s1: ParserView,
    h1: Heights,
    waiting: Set<int>,
    s2: ParserView,
)
    requires
        partial(s, h, s1, h1, waiting),
        s2.code == s1.code,
    ensures
        partial(s, h, s2, h1, waiting),
{
    reveal(grows);
    reveal(partial);
}

/// A step that adds code which keeps to the heights by itself.
pub proof fn lemma_partial_grow(
    s: ParserView,
    h: Heights,
    s1: ParserView,
    h1: Heights,
    waiting: Set<int>,
    s2: ParserView,
    h2: Heights,
    delta: int,
)
    requires
        partial(s, h, s1, h1, waiting),
        grows(s1, h1, s2, h2, delta),
    ensures
        partial(s, h, s2, h2, waiting),
{
    reveal(grows);
    reveal(partial);
    let a = s.code.len() as int;
    let m = s1.code.len() as int;
    let b = s2.code.len() as int;
    assert forall|pc: int|
        a <= pc < b && h2[pc] is Some && !waiting.contains(pc) implies typed_within(
        s2.code,
        h2,
        pc,
        a,
        b,
    ) by {
        if pc < m {
            assert(h1[pc] == h2[pc]);
            assert(typed_within(s1.code, h1, pc, a, m));
            crate::balance::lemma_typed_transport(s1.code, h1, s2.code, h2, pc, a, m);
        } else {
            assert(typed_within(s2.code, h2, pc, m, b));
        }
    }
    assert forall|j: int| waiting.contains(j) implies pending_jump(s2.code, h2, j, a) by {
        assert(pending_jump(s1.code, h1, j, a));
        assert(s2.code[j] == s1.code[j]);
        assert(h2[j] == h1[j] && h2[j + 1] == h1[j + 1] && h2[j + 2] == h1[j + 2] && h2[j + 3]
            == h1[j + 3]);
    }
    assert forall|i: int| 0 <= i < s.code.len() implies #[trigger] s2.code[i] == s.code[i] by {
        assert(s2.code[i] == s1.code[i]);
    }
    assert forall|i: int| 0 <= i < h.len() implies #[trigger] h2[i] == h[i] by {
        assert(h2[i] == h1[i]);
    }
}

/// A jump with a placeholder was added; it waits for its distance. The
/// code after it is entered at `height`; it is the height of the jump
/// where the jump may go on to the next instruction.
pub proof fn lemma_partial_jump(
    s: ParserView,
    h: Heights,
    s1: ParserView,
    h1: Heights,
    waiting: Set<int>,
    op: OpCode,
    height: int,
)
    requires
        partial(s, h, s1, h1, waiting),
        op == OpCode::OpJump || op == OpCode::OpJumpIfFalse,
        op == OpCode::OpJumpIfFalse ==> height == top(h1),
    ensures
        partial(
            s,
            h,
            s1.emit_jump(op),
            after_jump(h1, height),
            waiting.insert(s1.code.len() as int),
        ),
{
    reveal(grows);
    reveal(partial);
    let a = s.code.len() as int;
    let m = s1.code.len() as int;
    let s2 = s1.emit_jump(op);
    let h2 = after_jump(h1, height);
    let b = s2.code.len() as int;
    assert forall|pc: int|
        a <= pc < b && h2[pc] is Some && !waiting.insert(m).contains(pc) implies typed_within(
        s2.code,
        h2,
        pc,
        a,
        b,
    ) by {
        assert(pc < m);
        assert(h1[pc] == h2[pc]);
        assert(typed_within(s1.code, h1, pc, a, m));
        crate::balance::lemma_typed_transport(s1.code, h1, s2.code, h2, pc, a, m);
    }
    assert forall|j: int| waiting.insert(m).contains(j) implies pending_jump(s2.code, h2, j, a) by {
        if j != m {
            assert(pending_jump(s1.code, h1, j, a));
            assert(s2.code[j] == s1.code[j]);
        }
    }
}

/// A jump that waited was patched without an error: it lands at the end of
/// the code, where the stack has the height that it has at the jump.
pub proof fn lemma_partial_patch(
    s: ParserView,
    h: Heights,
    s1: ParserView,
    h1: Heights,
    waiting: Set<int>,
    j: int,
)
    requires
        partial(s, h, s1, h1, waiting),
        calm(s1),
        waiting.contains(j),
        h1[j] == Some(top(h1)),
        !s1.patch_jump(j + 1).had_error,
    ensures
        partial(s, h, s1.patch_jump(j + 1), h1, waiting.remove(j)),
{
    reveal(grows);
    reveal(partial);
    let a = s.code.len() as int;
    let b = s1.code.len() as int;
    assert(pending_jump(s1.code, h1, j, a));
    lemma_patch(s1, j + 1);
    let s2 = s1.patch_jump(j + 1);
    assert(s2.code[j] == s1.code[j]);
    assert forall|pc: int|
        a <= pc < b && h1[pc] is Some && !waiting.remove(j).contains(pc) implies typed_within(
        s2.code,
        h1,
        pc,
        a,
        b,
    ) by {
        if pc == j {
            let op = if s1.code[j] == opcode_byte(OpCode::OpJump) {
                OpCode::OpJump
            } else {
                OpCode::OpJumpIfFalse
            };
            lemma_jump_typed(s2.code, h1, j, op, b, a, b);
        } else {
            assert(typed_within(s1.code, h1, pc, a, b));
            assert(pc != j + 1 && pc != j + 2);
            let next = pc + 1 + crate::opcode::operand_width(crate::opcode::opcode_of(s1.code[pc]));
            assert(h1[next] is Some);
            assert(pc < j ==> next <= j);
            crate::balance::lemma_typed_transport(s1.code, h1, s2.code, h1, pc, a, b);
        }
    }
    assert forall|k: int| waiting.remove(j).contains(k) implies pending_jump(s2.code, h1, k, a) by {
        assert(pending_jump(s1.code, h1, k, a));
        assert(k != j + 1 && k != j + 2);
        assert(s2.code[k] == s1.code[k]);
    }
    assert forall|i: int| 0 <= i < s.code.len() implies #[trigger] s2.code[i] == s.code[i] by {
        assert(s2.code[i] == s1.code[i]);
    }
}

/// A loop was emitted without an error: it jumps back to `start`, where
/// the stack has the height that it has at the loop. The code after the
/// loop is entered at `height`.
pub proof fn lemma_partial_loop(
    s: ParserView,
    h: Heights,
    s1: ParserView,
    h1: Heights,
    waiting: Set<int>,
    start: int,
    height: int,
)
    requires
        partial(s, h, s1, h1, waiting),
        calm(s1),
        s.code.len() <= start <= s1.code.len(),
        h1[start] == Some(top(h1)),
        !s1.emit_loop(start).had_error,
    ensures
        partial(s, h, s1.emit_loop(start), after_jump(h1, height), waiting),
{
    reveal(grows);
    reveal(partial);
    let a = s.code.len() as int;
    let m = s1.code.len() as int;
    lemma_emit_loop(s1, start);
    let s2 = s1.emit_loop(start);
    let h2 = after_jump(h1, height);
    let b = s2.code.len() as int;
    assert forall|pc: int|
        a <= pc < b && h2[pc] is Some && !waiting.contains(pc) implies typed_within(
        s2.code,
        h2,
        pc,
        a,
        b,
    ) by {
        if pc < m {
            assert(h1[pc] == h2[pc]);
            assert(typed_within(s1.code, h1, pc, a, m));
            crate::balance::lemma_typed_transport(s1.code, h1, s2.code, h2, pc, a, m);
        } else {
            assert(pc == m);
            assert(h2[start] == h1[start]);
            lemma_loop_typed(s2.code, h2, m, start, a, b);
        }
    }
    assert forall|j: int| waiting.contains(j) implies pending_jump(s2.code, h2, j, a) by {
        assert(pending_jump(s1.code, h1, j, a));
        assert(s2.code[j] == s1.code[j]);
    }
    assert forall|i: int| 0 <= i < s.code.len() implies #[trigger] s2.code[i] == s.code[i] by {
        assert(s2.code[i] == s1.code[i]);
    }
}

/// No jump waits any more: the added code keeps to the heights.
pub proof fn lemma_partial_done(
    s: ParserView,
    h: Heights,
    s2: ParserView,
    h2: Heights,
    waiting: Set<int>,
)
    requires
        shaped(s, h),
        partial(s, h, s2, h2, waiting),
        waiting =~= Set::empty(),
    ensures
        grows(s, h, s2, h2, top(h2) - top(h)),
{
    reveal(grows);
    reveal(partial);
}

} // verus!
