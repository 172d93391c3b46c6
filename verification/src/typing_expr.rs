//! The expression routines keep the stack in balance: the code of an
//! expression leaves one value more on the stack.

use vstd::prelude::*;
use crate::balance::{effect, lemma_typed_transport, typed_within, Heights};
use crate::grammar::{lemma_lookup_measure, ParserView};
use crate::opcode::OpCode;
use crate::parser_rules::{level, level_of, rule_of, ParseFn, ParsePrecedence};
use crate::token::TokenType;
use crate::typing::{
    after_jump,
    after_op,
    after_operand,
    calm,
    grows,
    has_operand,
    is_plain,
    lemma_advance_frame,
    lemma_consume_frame,
    lemma_emit_constant,
    lemma_emit_jump,
    lemma_emit_op,
    lemma_emit_op2,
    lemma_emit_op_operand,
    lemma_grows_nothing,
    lemma_grows_then,
    lemma_jump_typed,
    lemma_make_constant,
    lemma_patch,
    lemma_plain_typed,
    shaped,
    top,
};
use crate::value::ValueView;

verus! {

/// What an expression routine does to a compilation: an error on record
/// stays on record, the place in the source does not go back, the scope is
/// kept, and where no error is on record afterwards, code was added that
/// changes the height of the stack by `delta`.
pub open spec fn expr_ok(s: ParserView, h: Heights, s2: ParserView, h2: Heights, delta: int) -> bool {
    &&& (s.had_error ==> s2.had_error)
    &&& calm(s2)
    &&& s2.measure() <= s.measure()
    &&& s2.scope == s.scope
    &&& s2.code.len() >= s.code.len()
    &&& (!s2.had_error ==> grows(s, h, s2, h2, delta))
}

/// Heights of the right shape, for a compilation that has failed.
pub open spec fn blank(s: ParserView) -> Heights {
    Seq::new(s.code.len() + 1, |i: int| Some(0int))
}

/// Two steps in a row.
pub proof fn lemma_then(
    s: ParserView,
    h: Heights,
    s1: ParserView,
    h1: Heights,
    d1: int,
    s2: ParserView,
    h2: Heights,
    d2: int,
)
    requires
        shaped(s, h),
        expr_ok(s, h, s1, h1, d1),
        expr_ok(s1, h1, s2, h2, d2),
    ensures
        expr_ok(s, h, s2, h2, d1 + d2),
{
    reveal(grows);
    if !s2.had_error {
        lemma_grows_then(s, h, s1, h1, d1, s2, h2, d2);
    }
}

/// A step that adds no code.
pub proof fn lemma_idle(s: ParserView, h: Heights, s2: ParserView)
    requires
        shaped(s, h),
        s.had_error ==> s2.had_error,
        calm(s2),
        s2.measure() <= s.measure(),
        s2.scope == s.scope,
        s2.code == s.code,
    ensures
        expr_ok(s, h, s2, h, 0),
{
    reveal(grows);
    lemma_grows_nothing(s, h, s2);
}

/// Consuming a token adds no code.
pub proof fn lemma_advance_ok(s: ParserView, h: Heights)
    requires
        shaped(s, h),
        calm(s),
    ensures
        expr_ok(s, h, s.advance(), h, 0),
        s.advance().code == s.code,
{
    reveal(grows);
    lemma_advance_frame(s);
    lemma_idle(s, h, s.advance());
}

/// Consuming an expected token adds no code.
pub proof fn lemma_consume_ok(s: ParserView, h: Heights, t: TokenType, msg: Seq<char>)
    requires
        shaped(s, h),
        calm(s),
    ensures
        expr_ok(s, h, s.consume(t, msg), h, 0),
        s.consume(t, msg).code == s.code,
{
    reveal(grows);
    lemma_consume_frame(s, t, msg);
    lemma_idle(s, h, s.consume(t, msg));
}

/// An instruction without operands.
pub proof fn lemma_op_ok(s: ParserView, h: Heights, op: OpCode)
    requires
        shaped(s, h),
        calm(s),
        is_plain(op),
    ensures
        expr_ok(s, h, s.emit_op(op), after_op(h, op), effect(op, 0)),
{
    reveal(grows);
    lemma_emit_op(s, h, op);
}

/// An instruction with one operand.
pub proof fn lemma_operand_ok(s: ParserView, h: Heights, op: OpCode, o: u8)
    requires
        shaped(s, h),
        calm(s),
        has_operand(op),
    ensures
        expr_ok(s, h, s.emit_op_operand(op, o), after_operand(h, op, o), effect(op, o)),
{
    reveal(grows);
    lemma_emit_op_operand(s, h, op, o);
}

pub proof fn lemma_number(s: ParserView, h: Heights) -> (h2: Heights)
    requires
        shaped(s, h),
        calm(s),
    ensures
        expr_ok(s, h, s.number(), h2, 1),
{
    reveal(grows);
    lemma_emit_constant(s, h, ValueView::Number(s.prev_number));
    after_operand(h, OpCode::OpConstant, s.constant_index())
}

pub proof fn lemma_string(s: ParserView, h: Heights) -> (h2: Heights)
    requires
        shaped(s, h),
        calm(s),
    ensures
        expr_ok(s, h, s.string(), h2, 1),
{
    reveal(grows);
    lemma_emit_constant(s, h, ValueView::Text(crate::grammar::unquote(s.prev.raw)));
    after_operand(h, OpCode::OpConstant, s.constant_index())
}

pub proof fn lemma_literal(s: ParserView, h: Heights) -> (h2: Heights)
    requires
        shaped(s, h),
        calm(s),
        s.prev.token_type == TokenType::TokenFalse || s.prev.token_type == TokenType::TokenTrue
            || s.prev.token_type == TokenType::TokenNil,
    ensures
        expr_ok(s, h, s.literal(), h2, 1),
{
    reveal(grows);
    let op = match s.prev.token_type {
        TokenType::TokenFalse => OpCode::OpFalse,
        TokenType::TokenTrue => OpCode::OpTrue,
        _ => OpCode::OpNil,
    };
    lemma_op_ok(s, h, op);
    after_op(h, op)
}

/// The instruction of a unary operator keeps the height.
pub proof fn lemma_emit_unary(s: ParserView, h: Heights, op: TokenType) -> (h2: Heights)
    requires
        shaped(s, h),
        calm(s),
        op == TokenType::TokenMinus || op == TokenType::TokenBang,
    ensures
        expr_ok(s, h, s.emit_unary(op), h2, 0),
{
    reveal(grows);
    reveal(ParserView::emit_unary);
    let code = if op == TokenType::TokenMinus {
        OpCode::OpNegate
    } else {
        OpCode::OpNot
    };
    lemma_op_ok(s, h, code);
    after_op(h, code)
}

/// The instructions of a binary operator take two values and leave one.
pub proof fn lemma_emit_binary(s: ParserView, h: Heights, op: TokenType) -> (h2: Heights)
    requires
        shaped(s, h),
        calm(s),
        rule_of(op).infix == Some(ParseFn::Binary),
    ensures
        expr_ok(s, h, s.emit_binary(op), h2, -1),
{
    reveal(grows);
    reveal(ParserView::emit_binary);
    match op {
        TokenType::TokenPlus => {
            lemma_op_ok(s, h, OpCode::OpAdd);
            after_op(h, OpCode::OpAdd)
        },
        TokenType::TokenMinus => {
            lemma_op_ok(s, h, OpCode::OpSubtract);
            after_op(h, OpCode::OpSubtract)
        },
        TokenType::TokenStar => {
            lemma_op_ok(s, h, OpCode::OpMultiple);
            after_op(h, OpCode::OpMultiple)
        },
        TokenType::TokenSlash => {
            lemma_op_ok(s, h, OpCode::OpDivide);
            after_op(h, OpCode::OpDivide)
        },
        TokenType::TokenBangEqual => {
            lemma_emit_op2(s, h, OpCode::OpEqual, OpCode::OpNot);
            after_op(after_op(h, OpCode::OpEqual), OpCode::OpNot)
        },
        TokenType::TokenEqualEqual => {
            lemma_op_ok(s, h, OpCode::OpEqual);
            after_op(h, OpCode::OpEqual)
        },
        TokenType::TokenGreater => {
            lemma_op_ok(s, h, OpCode::OpGreater);
            after_op(h, OpCode::OpGreater)
        },
        TokenType::TokenGreaterEqual => {
            lemma_emit_op2(s, h, OpCode::OpLess, OpCode::OpNot);
            after_op(after_op(h, OpCode::OpLess), OpCode::OpNot)
        },
        TokenType::TokenLess => {
            lemma_op_ok(s, h, OpCode::OpLess);
            after_op(h, OpCode::OpLess)
        },
        _ => {
            lemma_emit_op2(s, h, OpCode::OpGreater, OpCode::OpNot);
            after_op(after_op(h, OpCode::OpGreater), OpCode::OpNot)
        },
    }
}

/// Looking a variable up adds no code.
pub proof fn lemma_lookup_ok(s: ParserView, h: Heights)
    requires
        shaped(s, h),
        calm(s),
    ensures
        expr_ok(s, h, s.lookup_variable(), h, 0),
{
    reveal(grows);
    reveal(ParserView::lookup_variable);
    lemma_lookup_measure(s);
    lemma_make_constant(s, ValueView::Text(s.prev.raw));
    lemma_idle(s, h, s.lookup_variable());
}

pub proof fn lemma_grouping(s: ParserView, h: Heights) -> (h2: Heights)
    requires
        shaped(s, h),
        calm(s),
    ensures
        expr_ok(s, h, s.grouping(), h2, 1),
    decreases s.measure(), 11int,
{
    reveal(grows);
    let h1 = lemma_expression(s, h);
    let s1 = s.expression();
    if !s1.had_error {
        lemma_consume_ok(s1, h1, TokenType::TokenRightParen, "Expect ')' after expression."@);
    } else {
        lemma_consume_frame(s1, TokenType::TokenRightParen, "Expect ')' after expression."@);
    }
    let s2 = s1.consume(TokenType::TokenRightParen, "Expect ')' after expression."@);
    if !s2.had_error {
        lemma_then(s, h, s1, h1, 1, s2, h1, 0);
    }
    h1
}

pub proof fn lemma_unary(s: ParserView, h: Heights) -> (h2: Heights)
    requires
        shaped(s, h),
        calm(s),
        s.prev.token_type == TokenType::TokenMinus || s.prev.token_type == TokenType::TokenBang,
    ensures
        expr_ok(s, h, s.unary(), h2, 1),
    decreases s.measure(), 11int,
{
    reveal(grows);
    let h1 = lemma_parse(s, h, ParsePrecedence::PrecedenceUnary);
    let s1 = s.parse(ParsePrecedence::PrecedenceUnary);
    if !s1.had_error {
        let h2 = lemma_emit_unary(s1, h1, s.prev.token_type);
        lemma_then(s, h, s1, h1, 1, s.unary(), h2, 0);
        h2
    } else {
        reveal(ParserView::emit_unary);
        h1
    }
}

pub proof fn lemma_binary(s: ParserView, h: Heights) -> (h2: Heights)
    requires
        shaped(s, h),
        calm(s),
        rule_of(s.prev.token_type).infix == Some(ParseFn::Binary),
    ensures
        expr_ok(s, h, s.binary(), h2, 0),
    decreases s.measure(), 11int,
{
    reveal(grows);
    let op = s.prev.token_type;
    let precedence = level_of(level(rule_of(op).precedence) + 1);
    let h1 = lemma_parse(s, h, precedence);
    let s1 = s.parse(precedence);
    if !s1.had_error {
        let h2 = lemma_emit_binary(s1, h1, op);
        lemma_then(s, h, s1, h1, 1, s.binary(), h2, -1);
        h2
    } else {
        reveal(ParserView::emit_binary);
        h1
    }
}

pub proof fn lemma_and(s: ParserView, h: Heights) -> (h2: Heights)
    requires
        shaped(s, h),
        calm(s),
    ensures
        expr_ok(s, h, s.and_(), h2, 0),
    decreases s.measure(), 11int,
{
    reveal(grows);
    let a = s.code.len() as int;
    let t = top(h);
    let end_jump = s.next_jump();
    lemma_emit_jump(s, OpCode::OpJumpIfFalse);
    let s1 = s.emit_jump(OpCode::OpJumpIfFalse);
    let h1 = after_jump(h, t);
    lemma_emit_op(s1, h1, OpCode::OpPop);
    let s2 = s1.emit_op(OpCode::OpPop);
    let h2 = after_op(h1, OpCode::OpPop);
    let h3 = lemma_parse(s2, h2, ParsePrecedence::PrecedenceAnd);
    let s3 = s2.parse(ParsePrecedence::PrecedenceAnd);
    lemma_patch(s3, end_jump);
    let s4 = s3.patch_jump(end_jump);
    if !s4.had_error {
        let b = s4.code.len() as int;
        assert(grows(s2, h2, s3, h3, 1));
        assert(h3[a] == h2[a] && h3[a + 1] == h2[a + 1] && h3[a + 2] == h2[a + 2] && h3[a + 3]
            == h2[a + 3] && h3[a + 4] == h2[a + 4]);
        assert(s3.code[a] == s2.code[a] && s3.code[a + 3] == s2.code[a + 3]);
        assert(s4.code[a] == s3.code[a] && s4.code[a + 3] == s3.code[a + 3]);
        assert forall|pc: int|
            a <= pc < b && 0 <= pc < h3.len() && h3[pc] is Some implies typed_within(
            s4.code,
            h3,
            pc,
            a,
            b,
        ) by {
            if pc == a {
                lemma_jump_typed(s4.code, h3, a, OpCode::OpJumpIfFalse, b, a, b);
            } else if pc == a + 3 {
                lemma_plain_typed(s4.code, h3, a + 3, OpCode::OpPop, a, b);
            } else if pc >= a + 4 {
                assert(typed_within(s3.code, h3, pc, a + 4, b));
                lemma_typed_transport(s3.code, h3, s4.code, h3, pc, a + 4, b);
            }
        }
        assert forall|i: int| 0 <= i < s.code.len() implies #[trigger] s4.code[i] == s.code[i] by {
            assert(s4.code[i] == s3.code[i]);
            assert(s3.code[i] == s2.code[i]);
        }
        assert forall|i: int| 0 <= i < h.len() implies #[trigger] h3[i] == h[i] by {
            assert(h3[i] == h2[i]);
        }
    }
    h3
}

pub proof fn lemma_or(s: ParserView, h: Heights) -> (h2: Heights)
    requires
        shaped(s, h),
        calm(s),
    ensures
        expr_ok(s, h, s.or_(), h2, 0),
    decreases s.measure(), 11int,
{
    reveal(grows);
    let a = s.code.len() as int;
    let t = top(h);
    let else_jump = s.next_jump();
    lemma_emit_jump(s, OpCode::OpJumpIfFalse);
    let s1 = s.emit_jump(OpCode::OpJumpIfFalse);
    let h1 = after_jump(h, t);
    let end_jump = s1.next_jump();
    lemma_emit_jump(s1, OpCode::OpJump);
    let s2 = s1.emit_jump(OpCode::OpJump);
    let h2 = after_jump(h1, t);
    lemma_patch(s2, else_jump);
    let s3 = s2.patch_jump(else_jump);
    lemma_emit_op(s3, h2, OpCode::OpPop);
    let s4 = s3.emit_op(OpCode::OpPop);
    let h4 = after_op(h2, OpCode::OpPop);
    let h5 = lemma_parse(s4, h4, ParsePrecedence::PrecedenceOr);
    let s5 = s4.parse(ParsePrecedence::PrecedenceOr);
    lemma_patch(s5, end_jump);
    let s6 = s5.patch_jump(end_jump);
    if !s6.had_error {
        let b = s6.code.len() as int;
        assert(grows(s4, h4, s5, h5, 1));
        assert(h5[a] == h4[a] && h5[a + 1] == h4[a + 1] && h5[a + 2] == h4[a + 2] && h5[a + 3]
            == h4[a + 3] && h5[a + 4] == h4[a + 4] && h5[a + 5] == h4[a + 5] && h5[a + 6] == h4[a
            + 6] && h5[a + 7] == h4[a + 7]);
        assert(s5.code[a] == s4.code[a] && s5.code[a + 1] == s4.code[a + 1] && s5.code[a + 2]
            == s4.code[a + 2] && s5.code[a + 3] == s4.code[a + 3] && s5.code[a + 6] == s4.code[a
            + 6]);
        assert(s6.code[a] == s5.code[a] && s6.code[a + 1] == s5.code[a + 1] && s6.code[a + 2]
            == s5.code[a + 2] && s6.code[a + 3] == s5.code[a + 3] && s6.code[a + 6] == s5.code[a
            + 6]);
        assert(s3.code[a] == s2.code[a] && s3.code[a + 3] == s2.code[a + 3]);
        assert(crate::codegen::jump_field(s6.code, a + 1) == crate::codegen::jump_field(
            s3.code,
            a + 1,
        ));
        assert forall|pc: int|
            a <= pc < b && 0 <= pc < h5.len() && h5[pc] is Some implies typed_within(
            s6.code,
            h5,
            pc,
            a,
            b,
        ) by {
            if pc == a {
                lemma_jump_typed(s6.code, h5, a, OpCode::OpJumpIfFalse, a + 6, a, b);
            } else if pc == a + 3 {
                lemma_jump_typed(s6.code, h5, a + 3, OpCode::OpJump, b, a, b);
            } else if pc == a + 6 {
                lemma_plain_typed(s6.code, h5, a + 6, OpCode::OpPop, a, b);
            } else if pc >= a + 7 {
                assert(typed_within(s5.code, h5, pc, a + 7, b));
                lemma_typed_transport(s5.code, h5, s6.code, h5, pc, a + 7, b);
            }
        }
        assert forall|i: int| 0 <= i < s.code.len() implies #[trigger] s6.code[i] == s.code[i] by {
            assert(s6.code[i] == s5.code[i]);
            assert(s5.code[i] == s4.code[i]);
            assert(s3.code[i] == s2.code[i]);
        }
        assert forall|i: int| 0 <= i < h.len() implies #[trigger] h5[i] == h[i] by {
            assert(h5[i] == h4[i]);
        }
    }
    h5
}

pub proof fn lemma_named_variable(s: ParserView, h: Heights, can_assign: bool) -> (h2: Heights)
    requires
        shaped(s, h),
        calm(s),
    ensures
        expr_ok(s, h, s.named_variable(can_assign), h2, 1),
    decreases s.measure(), 11int,
{
    reveal(grows);
    lemma_lookup_ok(s, h);
    lemma_lookup_measure(s);
    let looked_up = s.lookup_variable();
    let arg = s.variable_operand();
    let local = s.variable_is_local();
    if can_assign && looked_up.curr_is(TokenType::TokenEqual) {
        let set_op = if local {
            OpCode::OpSetLocal
        } else {
            OpCode::OpSetGlobal
        };
        lemma_advance_frame(looked_up);
        let s1 = looked_up.advance();
        let h1 = lemma_expression(s1, h);
        let s2 = s1.expression();
        if !s2.had_error {
            lemma_advance_ok(looked_up, h);
            lemma_then(s, h, looked_up, h, 0, s1, h, 0);
            lemma_then(s, h, s1, h, 0, s2, h1, 1);
            lemma_operand_ok(s2, h1, set_op, arg);
            lemma_then(
                s,
                h,
                s2,
                h1,
                1,
                s2.emit_op_operand(set_op, arg),
                after_operand(h1, set_op, arg),
                0,
            );
        }
        after_operand(h1, set_op, arg)
    } else {
        let get_op = if local {
            OpCode::OpGetLocal
        } else {
            OpCode::OpGetGlobal
        };
        if !looked_up.had_error {
            lemma_operand_ok(looked_up, h, get_op, arg);
            lemma_then(
                s,
                h,
                looked_up,
                h,
                0,
                looked_up.emit_op_operand(get_op, arg),
                after_operand(h, get_op, arg),
                1,
            );
        }
        after_operand(h, get_op, arg)
    }
}

pub proof fn lemma_variable(s: ParserView, h: Heights, can_assign: bool) -> (h2: Heights)
    requires
        shaped(s, h),
        calm(s),
    ensures
        expr_ok(s, h, s.variable(can_assign), h2, 1),
    decreases s.measure(), 12int,
{
    reveal(grows);
    lemma_named_variable(s, h, can_assign)
}

/// The routine that parses an expression which starts with the token that
/// was just consumed.
pub proof fn lemma_prefix(s: ParserView, h: Heights, f: ParseFn, can_assign: bool) -> (h2: Heights)
    requires
        shaped(s, h),
        calm(s),
        rule_of(s.prev.token_type).prefix == Some(f),
    ensures
        expr_ok(s, h, s.apply(f, can_assign), h2, 1),
    decreases s.measure(), 13int,
{
    reveal(grows);
    match f {
        ParseFn::Grouping => lemma_grouping(s, h),
        ParseFn::Unary => lemma_unary(s, h),
        ParseFn::Variable => lemma_variable(s, h, can_assign),
        ParseFn::String => lemma_string(s, h),
        ParseFn::Number => lemma_number(s, h),
        ParseFn::Literal => lemma_literal(s, h),
        _ => h,
    }
}

/// The routine that parses an expression which is continued by the token
/// that was just consumed.
pub proof fn lemma_infix(s: ParserView, h: Heights, f: ParseFn) -> (h2: Heights)
    requires
        shaped(s, h),
        calm(s),
        rule_of(s.prev.token_type).infix == Some(f),
    ensures
        expr_ok(s, h, s.apply(f, false), h2, 0),
    decreases s.measure(), 13int,
{
    reveal(grows);
    match f {
        ParseFn::Binary => lemma_binary(s, h),
        ParseFn::And => lemma_and(s, h),
        ParseFn::Or => lemma_or(s, h),
        _ => h,
    }
}

pub proof fn lemma_parse(s: ParserView, h: Heights, precedence: ParsePrecedence) -> (h2: Heights)
    requires
        shaped(s, h),
        calm(s),
    ensures
        expr_ok(s, h, s.parse(precedence), h2, 1),
        s.curr.token_type != TokenType::TokenEof ==> s.parse(precedence).measure() < s.measure(),
    decreases s.measure(), 4int,
{
    reveal(grows);
    lemma_advance_frame(s);
    let s1 = s.advance();
    match rule_of(s1.prev.token_type).prefix {
        None => {
            h
        },
        Some(f) => {
            let can_assign = level(precedence) <= level(ParsePrecedence::PrecedenceAssignment);
            let h1 = lemma_prefix(s1, h, f, can_assign);
            let s2 = s1.apply(f, can_assign);
            assert(s1.onward(s2) == s2);
            let h1 = if s2.had_error {
                blank(s2)
            } else {
                h1
            };
            let h2 = lemma_infix_loop(s2, h1, precedence);
            let s3 = s2.infix_loop(precedence);
            if can_assign && s3.curr_is(TokenType::TokenEqual) {
                lemma_advance_frame(s3);
                h2
            } else {
                if !s3.had_error {
                    lemma_advance_ok(s, h);
                    lemma_then(s, h, s1, h, 0, s2, h1, 1);
                    lemma_then(s, h, s2, h1, 1, s3, h2, 0);
                }
                h2
            }
        },
    }
}

pub proof fn lemma_infix_loop(s: ParserView, h: Heights, precedence: ParsePrecedence) -> (h2:
    Heights)
    requires
        shaped(s, h),
        calm(s),
    ensures
        expr_ok(s, h, s.infix_loop(precedence), h2, 0),
    decreases s.measure(), 3int,
{
    reveal(grows);
    if level(precedence) > level(ParsePrecedence::PrecedenceNone) && level(precedence) <= level(
        rule_of(s.curr.token_type).precedence,
    ) {
        lemma_advance_frame(s);
        lemma_advance_ok(s, h);
        let s1 = s.advance();
        match rule_of(s1.prev.token_type).infix {
            None => {
                let s2 = s1.error("expected expression"@);
                lemma_infix_loop(s2, h, precedence)
            },
            Some(f) => {
                let h1 = lemma_infix(s1, h, f);
                let s2 = s1.apply(f, false);
                assert(s1.onward(s2) == s2);
                let h1 = if s2.had_error {
                    blank(s2)
                } else {
                    h1
                };
                let h2 = lemma_infix_loop(s2, h1, precedence);
                let s3 = s2.infix_loop(precedence);
                if !s3.had_error {
                    lemma_then(s, h, s1, h, 0, s2, h1, 0);
                    lemma_then(s, h, s2, h1, 0, s3, h2, 0);
                }
                h2
            },
        }
    } else {
        lemma_idle(s, h, s);
        h
    }
}

pub proof fn lemma_expression(s: ParserView, h: Heights) -> (h2: Heights)
    requires
        shaped(s, h),
        calm(s),
    ensures
        expr_ok(s, h, s.expression(), h2, 1),
        s.curr.token_type != TokenType::TokenEof ==> s.expression().measure() < s.measure(),
    decreases s.measure(), 5int,
{
    reveal(grows);
    lemma_parse(s, h, ParsePrecedence::PrecedenceAssignment)
}

} // verus!
