//! The statement routines keep the stack in balance: the code of a
//! statement leaves the stack as high as it found it, and the code of a
//! declaration leaves one value more for each local that it declares.

use vstd::prelude::*;
use crate::balance::{effect, Heights};
use crate::grammar::{ParserView, MAX_SCOPE_DEPTH};
use crate::localscope::{count_of_scope, scope_of, LocalView, ScopeView, MAX_LOCALS, UNINITIALIZED};
use crate::opcode::OpCode;
use crate::token::TokenType;
use crate::typing::{
    lemma_partial_facts,
    after_jump,
    after_op,
    after_operand,
    calm,
    grows,
    lemma_advance_frame,
    lemma_consume_frame,
    lemma_emit_jump,
    lemma_emit_loop,
    lemma_emit_op,
    lemma_grows_nothing,
    lemma_grows_then,
    lemma_make_constant,
    lemma_partial_done,
    lemma_partial_grow,
    lemma_partial_idle,
    lemma_partial_jump,
    lemma_partial_loop,
    lemma_partial_patch,
    lemma_partial_start,
    lemma_patch,
    partial,
    shaped,
    top,
};
use crate::typing_expr::{
    blank,
    expr_ok,
    lemma_advance_ok,
    lemma_consume_ok,
    lemma_expression,
    lemma_idle,
    lemma_op_ok,
    lemma_operand_ok,
    lemma_then,
};
use crate::value::ValueView;

verus! {

/// Between statements the stack holds the locals and nothing else.
pub open spec fn framed(s: ParserView, h: Heights) -> bool {
    &&& s.scope.wf()
    &&& s.scope.settled()
    &&& top(h) == s.scope.locals.len()
}

/// The scope `b` is the scope `a` with more locals of its current scope.
pub open spec fn declares_onto(a: ScopeView, b: ScopeView) -> bool {
    &&& b.scope_depth == a.scope_depth
    &&& b.locals.len() >= a.locals.len()
    &&& forall|i: int| 0 <= i < a.locals.len() ==> #[trigger] b.locals[i] == a.locals[i]
    &&& forall|i: int|
        a.locals.len() <= i < b.locals.len() ==> (#[trigger] b.locals[i]).depth == a.scope_depth
}

/// What a statement routine does to a compilation: an error on record
/// stays on record, the place in the source does not go back, and where no
/// error is on record afterwards, code was added that leaves one value on
/// the stack for each local that was declared.
pub open spec fn stmt_ok(s: ParserView, h: Heights, s2: ParserView, h2: Heights) -> bool {
    &&& (s.had_error ==> s2.had_error)
    &&& calm(s2)
    &&& s2.measure() <= s.measure()
    &&& s2.code.len() >= s.code.len()
    &&& (!s2.had_error ==> {
        &&& grows(s, h, s2, h2, s2.scope.locals.len() - s.scope.locals.len())
        &&& framed(s2, h2)
        &&& declares_onto(s.scope, s2.scope)
    })
}

/// The heights to go on with: those that were found, or blank ones after
/// an error.
pub open spec fn pick(s: ParserView, h: Heights) -> Heights {
    if s.had_error {
        blank(s)
    } else {
        h
    }
}

/// An expression routine that leaves the stack as it found it is a
/// statement routine.
pub proof fn lemma_expr_as_stmt(s: ParserView, h: Heights, s2: ParserView, h2: Heights)
    requires
        expr_ok(s, h, s2, h2, 0),
        !s.had_error ==> framed(s, h),
    ensures
        stmt_ok(s, h, s2, h2),
        !s2.had_error ==> s2.scope == s.scope,
{
    reveal(grows);
}

/// Two statement steps in a row.
pub proof fn lemma_stmt_then(
    s: ParserView,
    h: Heights,
    s1: ParserView,
    h1: Heights,
    s2: ParserView,
    h2: Heights,
)
    requires
        shaped(s, h),
        stmt_ok(s, h, s1, h1),
        stmt_ok(s1, h1, s2, h2),
    ensures
        stmt_ok(s, h, s2, h2),
{
    reveal(grows);
    if !s2.had_error {
        lemma_grows_then(
            s,
            h,
            s1,
            h1,
            s1.scope.locals.len() - s.scope.locals.len(),
            s2,
            h2,
            s2.scope.locals.len() - s1.scope.locals.len(),
        );
        assert forall|i: int| 0 <= i < s.scope.locals.len() implies #[trigger] s2.scope.locals[i]
            == s.scope.locals[i] by {
            assert(s2.scope.locals[i] == s1.scope.locals[i]);
        }
    }
}

/// A local that was declared and initialized in a well-formed table leaves
/// the table well-formed.
pub proof fn lemma_declared_scope(sc: ScopeView, name: Seq<char>)
    requires
        sc.wf(),
        sc.settled(),
        sc.scope_depth > 0,
        sc.locals.len() < MAX_LOCALS,
        !sc.declares(name),
    ensures
        (ScopeView {
            locals: sc.locals.push(LocalView { name, depth: sc.scope_depth }),
            ..sc
        }).wf(),
        (ScopeView {
            locals: sc.locals.push(LocalView { name, depth: sc.scope_depth }),
            ..sc
        }).settled(),
{
    reveal(ScopeView::wf);
    reveal(ScopeView::settled);
    let after = ScopeView { locals: sc.locals.push(LocalView { name, depth: sc.scope_depth }), ..sc };
    assert forall|i: int, j: int|
        0 <= i < j < after.locals.len() && (#[trigger] after.locals[i]).name
            == (#[trigger] after.locals[j]).name implies scope_of(
        after.locals[i],
        after.scope_depth,
    ) != scope_of(after.locals[j], after.scope_depth) by {
        if j == after.locals.len() - 1 {
            assert(sc.locals[i].name == name);
        }
    }
}

/// Entering a block leaves the table well-formed.
pub proof fn lemma_opened_scope(sc: ScopeView)
    requires
        sc.wf(),
        sc.settled(),
        sc.scope_depth < MAX_SCOPE_DEPTH,
    ensures
        (ScopeView { scope_depth: (sc.scope_depth + 1) as i8, ..sc }).wf(),
        (ScopeView { scope_depth: (sc.scope_depth + 1) as i8, ..sc }).settled(),
{
    reveal(ScopeView::wf);
    reveal(ScopeView::settled);
}

/// The locals that a block declared are the locals of its scope.
pub proof fn lemma_count_of_block(outer: ScopeView, inner: ScopeView)
    requires
        outer.wf(),
        outer.settled(),
        inner.settled(),
        outer.scope_depth < MAX_SCOPE_DEPTH,
        declares_onto(ScopeView { scope_depth: (outer.scope_depth + 1) as i8, ..outer }, inner),
    ensures
        count_of_scope(inner.locals, inner.scope_depth) == inner.locals.len()
            - outer.locals.len(),
        inner.locals.take(outer.locals.len() as int) == outer.locals,
    decreases inner.locals.len(),
{
    reveal(ScopeView::wf);
    reveal(ScopeView::settled);
    assert(inner.locals.take(outer.locals.len() as int) =~= outer.locals);
    if inner.locals.len() > outer.locals.len() {
        let fewer = ScopeView { locals: inner.locals.drop_last(), ..inner };
        assert forall|i: int| 0 <= i < fewer.locals.len() implies (#[trigger] fewer.locals[i]).depth
            != UNINITIALIZED by {
            assert(fewer.locals[i] == inner.locals[i]);
        }
        assert forall|i: int| 0 <= i < outer.locals.len() implies #[trigger] fewer.locals[i]
            == outer.locals[i] by {
            assert(fewer.locals[i] == inner.locals[i]);
        }
        assert forall|i: int| outer.locals.len() <= i < fewer.locals.len() implies (
        #[trigger] fewer.locals[i]).depth == inner.scope_depth by {
            assert(fewer.locals[i] == inner.locals[i]);
        }
        lemma_count_of_block(outer, fewer);
        assert(inner.locals.last() == inner.locals[inner.locals.len() - 1]);
    } else if inner.locals.len() > 0 {
        assert(inner.locals.last() == outer.locals[outer.locals.len() - 1]);
    }
}

/// The instructions that discard `n` locals take `n` values from the
/// stack.
pub proof fn lemma_emit_pops(s: ParserView, h: Heights, n: nat) -> (h2: Heights)
    requires
        shaped(s, h),
        calm(s),
        n <= MAX_LOCALS,
    ensures
        expr_ok(s, h, s.emit_pops(n), h2, -(n as int)),
{
    reveal(grows);
    reveal(ParserView::emit_pops);
    if n > 255 {
        lemma_operand_ok(s, h, OpCode::OpPopN, 255);
        let s1 = s.emit_op_operand(OpCode::OpPopN, 255);
        let h1 = after_operand(h, OpCode::OpPopN, 255);
        lemma_operand_ok(s1, h1, OpCode::OpPopN, (n - 255) as u8);
        let h2 = after_operand(h1, OpCode::OpPopN, (n - 255) as u8);
        lemma_then(s, h, s1, h1, -255, s.emit_pops(n), h2, -(n - 255));
        h2
    } else {
        lemma_operand_ok(s, h, OpCode::OpPopN, n as u8);
        after_operand(h, OpCode::OpPopN, n as u8)
    }
}

/// Entering a block adds no code.
pub proof fn lemma_open_scope(s: ParserView, h: Heights)
    requires
        shaped(s, h),
        calm(s),
        !s.had_error ==> framed(s, h),
    ensures
        s.had_error ==> s.open_scope().had_error,
        calm(s.open_scope()),
        s.open_scope().measure() == s.measure(),
        s.open_scope().code == s.code,
        !s.open_scope().had_error ==> {
            &&& s.can_open_scope()
            &&& framed(s.open_scope(), h)
            &&& s.open_scope().scope == (ScopeView {
                scope_depth: (s.scope.scope_depth + 1) as i8,
                ..s.scope
            })
        },
{
    reveal(grows);
    if !s.had_error && s.can_open_scope() {
        lemma_opened_scope(s.scope);
    }
}

/// Leaving a block discards the locals that the block declared: the stack
/// is as high as it was before the block, and the scope is the scope
/// around the block.
pub proof fn lemma_close_scope(s: ParserView, h: Heights, outer: ScopeView) -> (h2: Heights)
    requires
        shaped(s, h),
        calm(s),
        !s.had_error ==> {
            &&& framed(s, h)
            &&& outer.wf()
            &&& outer.settled()
            &&& outer.scope_depth < MAX_SCOPE_DEPTH
            &&& declares_onto(ScopeView { scope_depth: (outer.scope_depth + 1) as i8, ..outer }, s.scope)
        },
    ensures
        s.had_error ==> s.close_scope(true).had_error,
        calm(s.close_scope(true)),
        s.close_scope(true).measure() == s.measure(),
        s.close_scope(true).code.len() >= s.code.len(),
        !s.close_scope(true).had_error ==> {
            &&& grows(s, h, s.close_scope(true), h2, outer.locals.len() - s.scope.locals.len())
            &&& s.close_scope(true).scope == outer
        },
{
    reveal(grows);
    reveal(ParserView::close_scope);
    reveal(ParserView::emit_pops);
    if s.scope.scope_depth > 0 {
        let n = count_of_scope(s.scope.locals, s.scope.scope_depth);
        let popped = ParserView {
            scope: ScopeView {
                scope_depth: (s.scope.scope_depth - 1) as i8,
                locals: s.scope.locals.take(s.scope.locals.len() - n),
            },
            ..s
        };
        if !s.had_error {
            lemma_count_of_block(outer, s.scope);
            crate::localscope::lemma_scope_bounds(s.scope);
            let h2 = lemma_emit_pops(popped, h, n);
            assert(popped.scope.locals =~= outer.locals);
            h2
        } else {
            h
        }
    } else {
        if !s.had_error {
            crate::localscope::lemma_scope_bounds(outer);
        }
        h
    }
}

/// Error recovery adds no code and keeps the errors on record.
pub proof fn lemma_synchronize(s: ParserView)
    requires
        s.had_error,
    ensures
        s.synchronize().had_error,
        calm(s.synchronize()),
        s.synchronize().measure() <= s.measure(),
        s.synchronize().code == s.code,
{
    reveal(ParserView::synchronize);
    lemma_sync_loop(ParserView { panic_mode: false, ..s });
}

pub proof fn lemma_sync_loop(s: ParserView)
    requires
        s.had_error,
        calm(s),
    ensures
        s.sync_loop().had_error,
        calm(s.sync_loop()),
        s.sync_loop().measure() <= s.measure(),
        s.sync_loop().code == s.code,
    decreases s.measure(),
{
    if s.curr.token_type == TokenType::TokenEof || s.prev.token_type == TokenType::TokenSemicolon
        || crate::grammar::starts_statement(s.curr.token_type) {
    } else {
        lemma_advance_frame(s);
        lemma_sync_loop(s.advance());
    }
}

pub proof fn lemma_print_statement(s: ParserView, h: Heights) -> (h2: Heights)
    requires
        shaped(s, h),
        calm(s),
        !s.had_error ==> framed(s, h),
    ensures
        stmt_ok(s, h, s.print_statement(), h2),
        !s.print_statement().had_error ==> s.print_statement().scope == s.scope,
        s.curr.token_type != TokenType::TokenEof ==> s.print_statement().measure() < s.measure(),
{
    reveal(grows);
    reveal(ParserView::print_statement);
    lemma_value_statement(s, h, OpCode::OpPrint)
}

pub proof fn lemma_expression_statement(s: ParserView, h: Heights) -> (h2: Heights)
    requires
        shaped(s, h),
        calm(s),
        !s.had_error ==> framed(s, h),
    ensures
        stmt_ok(s, h, s.expression_statement(), h2),
        !s.expression_statement().had_error ==> s.expression_statement().scope == s.scope,
        s.curr.token_type != TokenType::TokenEof ==> s.expression_statement().measure()
            < s.measure(),
{
    reveal(grows);
    reveal(ParserView::expression_statement);
    lemma_value_statement(s, h, OpCode::OpPop)
}

/// An expression, a semicolon, and an instruction that takes the value of
/// the expression.
pub proof fn lemma_value_statement(s: ParserView, h: Heights, op: OpCode) -> (h2: Heights)
    requires
        shaped(s, h),
        calm(s),
        !s.had_error ==> framed(s, h),
        op == OpCode::OpPrint || op == OpCode::OpPop,
    ensures
        ({
            let s2 = s.expression().consume(
                TokenType::TokenSemicolon,
                "Expect ';' after value."@,
            ).emit_op(op);
            &&& stmt_ok(s, h, s2, h2)
            &&& (!s2.had_error ==> s2.scope == s.scope)
            &&& (s.curr.token_type != TokenType::TokenEof ==> s2.measure() < s.measure())
        }),
{
    reveal(grows);
    let msg = "Expect ';' after value."@;
    let h1 = lemma_expression(s, h);
    let s1 = s.expression();
    let h1 = pick(s1, h1);
    lemma_consume_ok(s1, h1, TokenType::TokenSemicolon, msg);
    let s2 = s1.consume(TokenType::TokenSemicolon, msg);
    lemma_op_ok(s2, h1, op);
    let s3 = s2.emit_op(op);
    let h3 = after_op(h1, op);
    if !s3.had_error {
        lemma_then(s, h, s1, h1, 1, s2, h1, 0);
        lemma_then(s, h, s2, h1, 1, s3, h3, -1);
    }
    lemma_expr_as_stmt(s, h, s3, h3);
    h3
}

/// Consuming the name of a variable and declaring it adds no code; inside
/// a block it adds a local that waits for its initializer.
pub proof fn lemma_parse_variable(s: ParserView, msg: Seq<char>)
    requires
        calm(s),
    ensures
        s.had_error ==> s.parse_variable(msg).had_error,
        calm(s.parse_variable(msg)),
        s.parse_variable(msg).measure() <= s.measure(),
        s.parse_variable(msg).code == s.code,
        s.parse_variable(msg).scope.scope_depth == s.scope.scope_depth,
        s.scope.scope_depth == 0 ==> s.parse_variable(msg).scope == s.scope,
        !s.parse_variable(msg).had_error && s.scope.scope_depth != 0 ==> {
            let name = s.parse_variable(msg).scope.locals.last().name;
            &&& s.scope.locals.len() < MAX_LOCALS
            &&& !s.scope.declares(name)
            &&& s.parse_variable(msg).scope.locals == s.scope.locals.push(
                LocalView { name, depth: UNINITIALIZED },
            )
        },
{
    reveal(ParserView::parse_variable);
    reveal(ParserView::declare_var);
    reveal(ParserView::add_local);
    lemma_consume_frame(s, TokenType::TokenIdentifier, msg);
    let s1 = s.consume(TokenType::TokenIdentifier, msg);
    let declared = s1.declare_var();
    lemma_make_constant(declared, ValueView::Text(declared.prev.raw));
}

pub proof fn lemma_var_declaration(s: ParserView, h: Heights) -> (h2: Heights)
    requires
        shaped(s, h),
        calm(s),
        !s.had_error ==> framed(s, h),
    ensures
        stmt_ok(s, h, s.var_declaration(), h2),
{
    reveal(grows);
    reveal(ParserView::var_declaration);
    reveal(ParserView::define_var);
    reveal(ParserView::mark_initialized);
    let msg = "Expect variable name"@;
    let global = s.variable_index(msg);
    lemma_parse_variable(s, msg);
    let s1 = s.parse_variable(msg);
    let (s2, h2) = if s1.curr_is(TokenType::TokenEqual) {
        lemma_advance_ok(s1, h);
        let x = s1.advance();
        let hx = lemma_expression(x, h);
        if !x.expression().had_error {
            lemma_then(s1, h, x, h, 0, x.expression(), hx, 1);
        }
        (x.expression(), pick(x.expression(), hx))
    } else {
        lemma_op_ok(s1, h, OpCode::OpNil);
        (s1.emit_op(OpCode::OpNil), after_op(h, OpCode::OpNil))
    };
    assert(expr_ok(s1, h, s2, h2, 1));
    lemma_consume_ok(s2, h2, TokenType::TokenSemicolon, "Expect ';' after variable declaration."@);
    let s3 = s2.consume(TokenType::TokenSemicolon, "Expect ';' after variable declaration."@);
    let s4 = s3.define_var(global);
    if s3.scope.scope_depth > 0 {
        if !s4.had_error {
            crate::localscope::lemma_scope_bounds(s.scope);
            let name = s1.scope.locals.last().name;
            lemma_declared_scope(s.scope, name);
            assert(s4.scope.locals =~= s.scope.locals.push(
                LocalView { name, depth: s.scope.scope_depth },
            ));
            lemma_grows_nothing(s, h, s1);
            lemma_grows_then(s, h, s1, h, 0, s2, h2, 1);
            lemma_grows_nothing(s2, h2, s4);
            lemma_grows_then(s, h, s2, h2, 1, s4, h2, 0);
        }
        h2
    } else {
        lemma_operand_ok(s3, h2, OpCode::OpDefineGlobal, global);
        let h4 = after_operand(h2, OpCode::OpDefineGlobal, global);
        if !s4.had_error {
            crate::localscope::lemma_scope_bounds(s.scope);
            lemma_grows_nothing(s, h, s1);
            lemma_grows_then(s, h, s1, h, 0, s2, h2, 1);
            lemma_grows_nothing(s2, h2, s3);
            lemma_grows_then(s, h, s2, h2, 1, s3, h2, 0);
            lemma_grows_then(s, h, s3, h2, 1, s4, h4, -1);
        }
        h4
    }
}

/// The initializer clause of a `for` statement is a declaration or a
/// statement.
pub proof fn lemma_for_initializer(s: ParserView, h: Heights) -> (h2: Heights)
    requires
        shaped(s, h),
        calm(s),
        !s.had_error ==> framed(s, h),
    ensures
        stmt_ok(s, h, s.for_initializer(), h2),
{
    reveal(grows);
    reveal(ParserView::for_initializer);
    if s.curr_is(TokenType::TokenSemicolon) {
        lemma_advance_ok(s, h);
        lemma_expr_as_stmt(s, h, s.advance(), h);
        h
    } else if s.curr_is(TokenType::TokenVar) {
        lemma_advance_ok(s, h);
        lemma_expr_as_stmt(s, h, s.advance(), h);
        let h2 = lemma_var_declaration(s.advance(), h);
        lemma_stmt_then(s, h, s.advance(), h, s.advance().var_declaration(), h2);
        h2
    } else {
        lemma_expression_statement(s, h)
    }
}

/// What is known after a routine that adds code: an error on record stays
/// on record, the place in the source does not go back, and the heights
/// `h2` fit the code; where no error is on record, code was added that
/// changes the height of the stack by `delta`.
pub open spec fn went_on(s: ParserView, h: Heights, s2: ParserView, h2: Heights, delta: int) -> bool {
    &&& (s.had_error ==> s2.had_error)
    &&& calm(s2)
    &&& s2.measure() <= s.measure()
    &&& s2.code.len() >= s.code.len()
    &&& shaped(s2, h2)
    &&& (!s2.had_error ==> {
        &&& grows(s, h, s2, h2, delta)
        &&& top(h2) == top(h) + delta
        &&& crate::typing::extends_heights(h, h2)
    })
}

/// An expression, with heights to go on with.
pub proof fn lemma_expression_on(s: ParserView, h: Heights) -> (h2: Heights)
    requires
        shaped(s, h),
        calm(s),
    ensures
        went_on(s, h, s.expression(), h2, 1),
        s.expression().scope == s.scope,
{
    let h1 = lemma_expression(s, h);
    if !s.expression().had_error {
        crate::typing::lemma_grows_facts(s, h, s.expression(), h1, 1);
    }
    pick(s.expression(), h1)
}

/// A statement, with heights to go on with.
pub proof fn lemma_statement_on(s: ParserView, h: Heights) -> (h2: Heights)
    requires
        shaped(s, h),
        calm(s),
        !s.had_error ==> framed(s, h),
    ensures
        went_on(s, h, s.statement(), h2, 0),
        !s.statement().had_error ==> s.statement().scope == s.scope,
    decreases s.measure(), 8int,
{
    let h1 = lemma_statement(s, h);
    if !s.statement().had_error {
        crate::typing::lemma_grows_facts(s, h, s.statement(), h1, 0);
    }
    pick(s.statement(), h1)
}

/// An instruction without operands, with heights to go on with.
pub proof fn lemma_op_on(s: ParserView, h: Heights, op: OpCode)
    requires
        shaped(s, h),
        calm(s),
        crate::typing::is_plain(op),
    ensures
        went_on(s, h, s.emit_op(op), after_op(h, op), effect(op, 0)),
        s.emit_op(op).scope == s.scope,
        s.emit_op(op).code.len() == s.code.len() + 1,
{
    lemma_emit_op(s, h, op);
    crate::typing::lemma_grows_facts(s, h, s.emit_op(op), after_op(h, op), effect(op, 0));
}

/// A token that adds no code.
pub proof fn lemma_consume_on(s: ParserView, h: Heights, t: TokenType, msg: Seq<char>)
    requires
        shaped(s, h),
        calm(s),
    ensures
        went_on(s, h, s.consume(t, msg), h, 0),
        s.consume(t, msg).scope == s.scope,
        s.consume(t, msg).code == s.code,
{
    lemma_consume_ok(s, h, t, msg);
}

/// The jumps that wait after the condition clause of a `for` statement.
pub open spec fn after_condition(s: ParserView, waiting: Set<int>) -> Set<int> {
    if s.for_has_condition() {
        waiting.insert(s.for_condition().code.len() - 4)
    } else {
        waiting
    }
}

/// The condition clause of a `for` statement leaves the stack as it found
/// it; the jump that leaves the loop waits for its distance.
pub proof fn lemma_for_condition(
    s0: ParserView,
    h0: Heights,
    s: ParserView,
    h: Heights,
    waiting: Set<int>,
) -> (h2: Heights)
    requires
        shaped(s, h),
        calm(s),
        !s.had_error ==> partial(s0, h0, s, h, waiting),
    ensures
        s.had_error ==> s.for_condition().had_error,
        calm(s.for_condition()),
        s.for_condition().measure() <= s.measure(),
        s.for_condition().code.len() >= s.code.len(),
        s.for_has_condition() ==> s.for_condition().code.len() >= s.code.len() + 4,
        s.for_condition().scope == s.scope,
        shaped(s.for_condition(), h2),
        !s.for_condition().had_error ==> {
            &&& partial(s0, h0, s.for_condition(), h2, after_condition(s, waiting))
            &&& top(h2) == top(h)
            &&& crate::typing::extends_heights(h, h2)
            &&& (s.for_has_condition() ==> h2[s.for_condition().code.len() - 4] == Some(
                top(h) + 1,
            ))
        },
{
    reveal(ParserView::for_condition);
    if s.curr_is(TokenType::TokenSemicolon) {
        lemma_advance_frame(s);
        if !s.advance().had_error {
            lemma_partial_idle(s0, h0, s, h, waiting, s.advance());
        }
        h
    } else {
        let msg = "Expect ';' after loop condition."@;
        let h1 = lemma_expression_on(s, h);
        let s1 = s.expression();
        lemma_consume_on(s1, h1, TokenType::TokenSemicolon, msg);
        let s2 = s1.consume(TokenType::TokenSemicolon, msg);
        lemma_emit_jump(s2, OpCode::OpJumpIfFalse);
        let s3 = s2.emit_jump(OpCode::OpJumpIfFalse);
        let h3 = after_jump(h1, top(h1));
        lemma_op_on(s3, h3, OpCode::OpPop);
        let s4 = s3.emit_op(OpCode::OpPop);
        let h4 = after_op(h3, OpCode::OpPop);
        if !s4.had_error {
            lemma_partial_grow(s0, h0, s, h, waiting, s1, h1, 1);
            lemma_partial_idle(s0, h0, s1, h1, waiting, s2);
            lemma_partial_jump(s0, h0, s2, h1, waiting, OpCode::OpJumpIfFalse, top(h1));
            lemma_partial_grow(
                s0,
                h0,
                s3,
                h3,
                waiting.insert(s2.code.len() as int),
                s4,
                h4,
                -1,
            );
        }
        h4
    }
}

/// The increment clause of a `for` statement leaves the stack as it found
/// it. It runs after the body: the code jumps over it, and it jumps back
/// to `loop_start`.
pub proof fn lemma_for_increment(
    s0: ParserView,
    h0: Heights,
    s: ParserView,
    h: Heights,
    waiting: Set<int>,
    loop_start: int,
) -> (h2: Heights)
    requires
        shaped(s, h),
        calm(s),
        0 <= loop_start <= s.code.len(),
        !s.had_error ==> {
            &&& partial(s0, h0, s, h, waiting)
            &&& s0.code.len() <= loop_start
            &&& h[loop_start] == Some(top(h))
            &&& !waiting.contains(s.code.len() as int)
        },
    ensures
        s.had_error ==> s.for_increment(loop_start).had_error,
        calm(s.for_increment(loop_start)),
        s.for_increment(loop_start).measure() <= s.measure(),
        s.for_increment(loop_start).code.len() >= s.code.len(),
        0 <= s.for_loop_start(loop_start) <= s.for_increment(loop_start).code.len(),
        s.for_increment(loop_start).scope == s.scope,
        shaped(s.for_increment(loop_start), h2),
        !s.for_increment(loop_start).had_error ==> {
            &&& partial(s0, h0, s.for_increment(loop_start), h2, waiting)
            &&& top(h2) == top(h)
            &&& s0.code.len() <= s.for_loop_start(loop_start)
            &&& h2[s.for_loop_start(loop_start)] == Some(top(h))
            &&& crate::typing::extends_heights(h, h2)
        },
{
    reveal(ParserView::for_increment);
    if s.curr_is(TokenType::TokenRightParen) {
        lemma_advance_frame(s);
        if !s.advance().had_error {
            lemma_partial_idle(s0, h0, s, h, waiting, s.advance());
        }
        h
    } else {
        let msg = "Expect ')' after for clauses."@;
        let j = s.code.len() as int;
        let t = top(h);
        lemma_emit_jump(s, OpCode::OpJump);
        let s1 = s.emit_jump(OpCode::OpJump);
        let h1 = after_jump(h, t);
        let h2 = lemma_expression_on(s1, h1);
        let s2 = s1.expression();
        lemma_op_on(s2, h2, OpCode::OpPop);
        let s3 = s2.emit_op(OpCode::OpPop);
        let h3 = after_op(h2, OpCode::OpPop);
        lemma_consume_on(s3, h3, TokenType::TokenRightParen, msg);
        let s4 = s3.consume(TokenType::TokenRightParen, msg);
        lemma_emit_loop(s4, loop_start);
        let s5 = s4.emit_loop(loop_start);
        let h5 = pick(s5, after_jump(h3, t));
        lemma_patch(s5, j + 1);
        let s6 = s5.patch_jump(j + 1);
        if !s6.had_error {
            let w1 = waiting.insert(j);
            lemma_partial_facts(s0, h0, s, h, waiting);
            lemma_partial_jump(s0, h0, s, h, waiting, OpCode::OpJump, t);
            lemma_partial_grow(s0, h0, s1, h1, w1, s2, h2, 1);
            lemma_partial_grow(s0, h0, s2, h2, w1, s3, h3, -1);
            lemma_partial_idle(s0, h0, s3, h3, w1, s4);
            assert(h3[loop_start] == h2[loop_start]);
            assert(h2[loop_start] == h1[loop_start]);
            lemma_partial_loop(s0, h0, s4, h3, w1, loop_start, t);
            assert(h5[j] == h3[j]);
            assert(h3[j] == h2[j]);
            assert(h2[j] == h1[j]);
            lemma_partial_patch(s0, h0, s5, h5, w1, j);
            assert(w1.remove(j) =~= waiting);
            assert(h5[j + 3] == h3[j + 3]);
            assert(h3[j + 3] == h2[j + 3]);
            assert(h2[j + 3] == h1[j + 3]);
            assert forall|i: int| 0 <= i < h.len() implies #[trigger] h5[i] == h[i] by {
                assert(h5[i] == h3[i]);
                assert(h3[i] == h2[i]);
                assert(h2[i] == h1[i]);
            }
        }
        h5
    }
}

pub proof fn lemma_if_statement(s: ParserView, h: Heights) -> (h2: Heights)
    requires
        shaped(s, h),
        calm(s),
        !s.had_error ==> framed(s, h),
    ensures
        stmt_ok(s, h, s.if_statement(), h2),
        !s.if_statement().had_error ==> s.if_statement().scope == s.scope,
    decreases s.measure(), 10int,
{
    let m1 = "Expect '(' after 'if'."@;
    let m2 = "Expect ')' after condition."@;
    let t = top(h);
    lemma_consume_on(s, h, TokenType::TokenLeftParen, m1);
    let s1 = s.consume(TokenType::TokenLeftParen, m1);
    let hc = lemma_expression_on(s1, h);
    let e = s1.expression();
    assert(s1.onward(e) == e);
    lemma_consume_on(e, hc, TokenType::TokenRightParen, m2);
    let s2 = e.consume(TokenType::TokenRightParen, m2);
    let c1 = s2.code.len() as int;
    lemma_emit_jump(s2, OpCode::OpJumpIfFalse);
    let s3a = s2.emit_jump(OpCode::OpJumpIfFalse);
    let h3a = after_jump(hc, top(hc));
    lemma_op_on(s3a, h3a, OpCode::OpPop);
    let s3 = s3a.emit_op(OpCode::OpPop);
    let h3 = after_op(h3a, OpCode::OpPop);
    let h4 = lemma_statement_on(s3, h3);
    let s4 = s3.statement();
    assert(s3.onward(s4) == s4);
    let t1 = s4.code.len() as int;
    lemma_emit_jump(s4, OpCode::OpJump);
    let s5a = s4.emit_jump(OpCode::OpJump);
    let h5a = after_jump(h4, t + 1);
    lemma_patch(s5a, c1 + 1);
    let s5b = s5a.patch_jump(c1 + 1);
    lemma_op_on(s5b, h5a, OpCode::OpPop);
    let s5 = s5b.emit_op(OpCode::OpPop);
    let h5 = after_op(h5a, OpCode::OpPop);
    let w1 = Set::<int>::empty().insert(c1);
    let w2 = w1.insert(t1);
    let w3 = w2.remove(c1);
    if !s5.had_error {
        lemma_partial_start(s, h);
        lemma_partial_idle(s, h, s, h, Set::empty(), s1);
        lemma_partial_grow(s, h, s1, h, Set::empty(), e, hc, 1);
        lemma_partial_idle(s, h, e, hc, Set::empty(), s2);
        lemma_partial_jump(s, h, s2, hc, Set::empty(), OpCode::OpJumpIfFalse, top(hc));
        lemma_partial_grow(s, h, s3a, h3a, w1, s3, h3, -1);
        lemma_partial_grow(s, h, s3, h3, w1, s4, h4, 0);
        lemma_partial_jump(s, h, s4, h4, w1, OpCode::OpJump, t + 1);
        assert(h5a[c1] == h4[c1]);
        assert(h4[c1] == h3[c1]);
        assert(h3[c1] == h3a[c1]);
        lemma_partial_patch(s, h, s5a, h5a, w2, c1);
        lemma_partial_grow(s, h, s5b, h5a, w3, s5, h5, -1);
    }
    let (s6, h6) = if s5.curr_is(TokenType::TokenElse) {
        lemma_advance_ok(s5, h5);
        let x = s5.advance();
        let hx = lemma_statement_on(x, h5);
        if !x.statement().had_error {
            lemma_partial_idle(s, h, s5, h5, w3, x);
            lemma_partial_grow(s, h, x, h5, w3, x.statement(), hx, 0);
        }
        (x.statement(), hx)
    } else {
        (s5, h5)
    };
    lemma_patch(s6, t1 + 1);
    let s7 = s6.patch_jump(t1 + 1);
    if !s7.had_error {
        assert(h6[t1] == h5[t1]);
        assert(h5[t1] == h5a[t1]);
        assert(h5a[t1] == h4[t1]);
        lemma_partial_patch(s, h, s6, h6, w3, t1);
        assert(w3.remove(t1) =~= Set::<int>::empty());
        lemma_partial_done(s, h, s7, h6, w3.remove(t1));
    }
    h6
}

pub proof fn lemma_while_statement(s: ParserView, h: Heights) -> (h2: Heights)
    requires
        shaped(s, h),
        calm(s),
        !s.had_error ==> framed(s, h),
    ensures
        stmt_ok(s, h, s.while_statement(), h2),
        !s.while_statement().had_error ==> s.while_statement().scope == s.scope,
    decreases s.measure(), 10int,
{
    let m1 = "Expect '(' after 'while'."@;
    let m2 = "Expect ')' after condition."@;
    let t = top(h);
    let a = s.code.len() as int;
    lemma_consume_on(s, h, TokenType::TokenLeftParen, m1);
    let s1 = s.consume(TokenType::TokenLeftParen, m1);
    let hc = lemma_expression_on(s1, h);
    let e = s1.expression();
    assert(s1.onward(e) == e);
    lemma_consume_on(e, hc, TokenType::TokenRightParen, m2);
    let s2 = e.consume(TokenType::TokenRightParen, m2);
    let c1 = s2.code.len() as int;
    lemma_emit_jump(s2, OpCode::OpJumpIfFalse);
    let s3a = s2.emit_jump(OpCode::OpJumpIfFalse);
    let h3a = after_jump(hc, top(hc));
    lemma_op_on(s3a, h3a, OpCode::OpPop);
    let s3 = s3a.emit_op(OpCode::OpPop);
    let h3 = after_op(h3a, OpCode::OpPop);
    let h4 = lemma_statement_on(s3, h3);
    let s4 = s3.statement();
    lemma_emit_loop(s4, a);
    let s5 = s4.emit_loop(a);
    let h5 = pick(s5, after_jump(h4, t + 1));
    lemma_patch(s5, c1 + 1);
    let s6 = s5.patch_jump(c1 + 1);
    lemma_op_on(s6, h5, OpCode::OpPop);
    let s7 = s6.emit_op(OpCode::OpPop);
    let h7 = after_op(h5, OpCode::OpPop);
    let w1 = Set::<int>::empty().insert(c1);
    if !s7.had_error {
        lemma_partial_start(s, h);
        lemma_partial_idle(s, h, s, h, Set::empty(), s1);
        lemma_partial_grow(s, h, s1, h, Set::empty(), e, hc, 1);
        lemma_partial_idle(s, h, e, hc, Set::empty(), s2);
        lemma_partial_jump(s, h, s2, hc, Set::empty(), OpCode::OpJumpIfFalse, top(hc));
        lemma_partial_grow(s, h, s3a, h3a, w1, s3, h3, -1);
        lemma_partial_grow(s, h, s3, h3, w1, s4, h4, 0);
        assert(h4[a] == h3[a]);
        assert(h3[a] == h3a[a]);
        assert(h3a[a] == hc[a]);
        assert(hc[a] == h[a]);
        lemma_partial_loop(s, h, s4, h4, w1, a, t + 1);
        assert(h5[c1] == h4[c1]);
        assert(h4[c1] == h3[c1]);
        assert(h3[c1] == h3a[c1]);
        lemma_partial_patch(s, h, s5, h5, w1, c1);
        lemma_partial_grow(s, h, s6, h5, w1.remove(c1), s7, h7, -1);
        assert(w1.remove(c1) =~= Set::<int>::empty());
        lemma_partial_done(s, h, s7, h7, w1.remove(c1));
    }
    h7
}

/// The clauses of a `for` statement, up to its body.
pub proof fn lemma_for_clauses(s: ParserView, h: Heights) -> (r: (Heights, Heights, Heights))
    requires
        shaped(s, h),
        calm(s),
        !s.had_error ==> framed(s, h),
    ensures
        ({
            let s1 = s.open_scope().consume(TokenType::TokenLeftParen, "Expect '(' after 'for'."@);
            let s2 = s1.for_initializer();
            let s3 = s2.for_condition();
            let loop_start = s2.code.len() as int;
            let s4 = s3.for_increment(loop_start);
            let w = after_condition(s2, Set::empty());
            let (h2, h3, h4) = r;
            &&& (s.had_error ==> s4.had_error)
            &&& calm(s4)
            &&& s1.measure() <= s.measure()
            &&& s2.measure() <= s1.measure()
            &&& s3.measure() <= s2.measure()
            &&& s4.measure() <= s3.measure()
            &&& s4.code.len() >= s3.code.len()
            &&& s3.code.len() >= s2.code.len()
            &&& s2.code.len() >= s.code.len()
            &&& (s2.for_has_condition() ==> s3.code.len() >= s2.code.len() + 4)
            &&& 0 <= s3.for_loop_start(loop_start) <= s4.code.len()
            &&& shaped(s4, h4)
            &&& (!s4.had_error ==> {
                &&& s.can_open_scope()
                &&& partial(s, h, s4, h4, w)
                &&& framed(s4, h4)
                &&& declares_onto(
                    ScopeView { scope_depth: (s.scope.scope_depth + 1) as i8, ..s.scope },
                    s4.scope,
                )
                &&& s.code.len() <= s3.for_loop_start(loop_start)
                &&& h4[s3.for_loop_start(loop_start)] == Some(top(h4))
                &&& (s2.for_has_condition() ==> h4[s3.code.len() - 4] == Some(top(h4) + 1))
                &&& (s2.for_has_condition() ==> s.code.len() <= s3.code.len() - 4)
            })
        }),
{
    let m1 = "Expect '(' after 'for'."@;
    lemma_open_scope(s, h);
    let so = s.open_scope();
    lemma_consume_on(so, h, TokenType::TokenLeftParen, m1);
    let s1 = so.consume(TokenType::TokenLeftParen, m1);
    let h2 = lemma_for_initializer(s1, h);
    let s2 = s1.for_initializer();
    if !s2.had_error {
        crate::typing::lemma_grows_facts(
            s1,
            h,
            s2,
            h2,
            s2.scope.locals.len() - s1.scope.locals.len(),
        );
    }
    let h2 = pick(s2, h2);
    let loop_start = s2.code.len() as int;
    if !s2.had_error {
        lemma_partial_start(s, h);
        lemma_partial_idle(s, h, s, h, Set::empty(), so);
        lemma_partial_idle(s, h, so, h, Set::empty(), s1);
        lemma_partial_grow(
            s,
            h,
            s1,
            h,
            Set::empty(),
            s2,
            h2,
            s2.scope.locals.len() - s1.scope.locals.len(),
        );
    }
    let h3 = lemma_for_condition(s, h, s2, h2, Set::empty());
    let s3 = s2.for_condition();
    let w = after_condition(s2, Set::empty());
    if !s3.had_error {
        assert(h3[loop_start] == h2[loop_start]);
    }
    let h4 = lemma_for_increment(s, h, s3, h3, w, loop_start);
    let s4 = s3.for_increment(loop_start);
    if !s4.had_error && s2.for_has_condition() {
        assert(h4[s3.code.len() - 4] == h3[s3.code.len() - 4]);
    }
    (h2, h3, h4)
}

pub proof fn lemma_for_statement(s: ParserView, h: Heights) -> (h2: Heights)
    requires
        shaped(s, h),
        calm(s),
        !s.had_error ==> framed(s, h),
    ensures
        stmt_ok(s, h, s.for_statement(), h2),
        !s.for_statement().had_error ==> s.for_statement().scope == s.scope,
    decreases s.measure(), 10int,
{
    let opened = s.can_open_scope();
    let s1 = s.open_scope().consume(TokenType::TokenLeftParen, "Expect '(' after 'for'."@);
    let s2 = s1.for_initializer();
    let s3 = s2.for_condition();
    let loop_start = s2.code.len() as int;
    let has_condition = s2.for_has_condition();
    let exit_jump = s3.code.len() - 3;
    let body_start = s3.for_loop_start(loop_start);
    let s4 = s3.for_increment(loop_start);
    let (_h2, _h3, h4) = lemma_for_clauses(s, h);
    assert(s1.onward(s2) == s2);
    assert(s2.onward(s3) == s3);
    assert(s3.onward(s4) == s4);
    let t = top(h4);
    let w = after_condition(s2, Set::empty());
    let h5 = lemma_statement_on(s4, h4);
    let s5 = s4.statement();
    lemma_emit_loop(s5, body_start);
    let s5b = s5.emit_loop(body_start);
    let height_after = if has_condition {
        t + 1
    } else {
        t
    };
    let h5b = pick(s5b, after_jump(h5, height_after));
    if !s5b.had_error {
        lemma_partial_grow(s, h, s4, h4, w, s5, h5, 0);
        assert(h5[body_start] == h4[body_start]);
        lemma_partial_loop(s, h, s5, h5, w, body_start, height_after);
    }
    let (s6, h6) = if has_condition {
        lemma_patch(s5b, exit_jump);
        let x = s5b.patch_jump(exit_jump);
        lemma_op_on(x, h5b, OpCode::OpPop);
        let y = x.emit_op(OpCode::OpPop);
        let hy = after_op(h5b, OpCode::OpPop);
        if !y.had_error {
            let j = exit_jump - 1;
            assert(h5b[j] == h5[j]);
            assert(h5[j] == h4[j]);
            lemma_partial_patch(s, h, s5b, h5b, w, j);
            lemma_partial_grow(s, h, x, h5b, w.remove(j), y, hy, -1);
            assert(w.remove(j) =~= Set::<int>::empty());
            lemma_partial_done(s, h, y, hy, w.remove(j));
        }
        (y, hy)
    } else {
        if !s5b.had_error {
            lemma_partial_done(s, h, s5b, h5b, w);
        }
        (s5b, h5b)
    };
    reveal(ParserView::close_scope);
    if opened {
        let h7 = lemma_close_scope(s6, h6, s.scope);
        let s7 = s6.close_scope(true);
        if !s7.had_error {
            lemma_grows_then(
                s,
                h,
                s6,
                h6,
                top(h6) - top(h),
                s7,
                h7,
                s.scope.locals.len() - s6.scope.locals.len(),
            );
            crate::typing::lemma_grows_facts(s, h, s7, h7, 0);
            assert(declares_onto(s.scope, s7.scope));
        }
        h7
    } else {
        h6
    }
}

pub proof fn lemma_block_items(s: ParserView, h: Heights) -> (h2: Heights)
    requires
        shaped(s, h),
        calm(s),
        !s.had_error ==> framed(s, h),
    ensures
        stmt_ok(s, h, s.block_items(), h2),
    decreases s.measure(), 9int,
{
    reveal(grows);
    if !s.curr_is(TokenType::TokenRightBrace) && !s.curr_is(TokenType::TokenEof) {
        let h1 = lemma_declaration(s, h);
        let s1 = s.declaration();
        let h1 = pick(s1, h1);
        let h2 = lemma_block_items(s1, h1);
        lemma_stmt_then(s, h, s1, h1, s1.block_items(), h2);
        h2
    } else {
        lemma_idle(s, h, s);
        lemma_expr_as_stmt(s, h, s, h);
        h
    }
}

pub proof fn lemma_block(s: ParserView, h: Heights) -> (h2: Heights)
    requires
        shaped(s, h),
        calm(s),
        !s.had_error ==> framed(s, h),
    ensures
        stmt_ok(s, h, s.block(), h2),
    decreases s.measure(), 10int,
{
    reveal(grows);
    let h1 = lemma_block_items(s, h);
    let s1 = s.block_items();
    let h1 = pick(s1, h1);
    lemma_consume_ok(s1, h1, TokenType::TokenRightBrace, "Expected '}' after block"@);
    let s2 = s1.consume(TokenType::TokenRightBrace, "Expected '}' after block"@);
    lemma_expr_as_stmt(s1, h1, s2, h1);
    lemma_stmt_then(s, h, s1, h1, s2, h1);
    h1
}

pub proof fn lemma_statement(s: ParserView, h: Heights) -> (h2: Heights)
    requires
        shaped(s, h),
        calm(s),
        !s.had_error ==> framed(s, h),
    ensures
        stmt_ok(s, h, s.statement(), h2),
        !s.statement().had_error ==> s.statement().scope == s.scope,
        s.curr.token_type != TokenType::TokenEof ==> s.statement().measure() < s.measure(),
    decreases s.measure(), 7int,
{
    reveal(grows);
    lemma_advance_ok(s, h);
    lemma_advance_frame(s);
    let x = s.advance();
    lemma_expr_as_stmt(s, h, x, h);
    if s.curr_is(TokenType::TokenPrint) {
        let h2 = lemma_print_statement(x, h);
        lemma_stmt_then(s, h, x, h, x.print_statement(), h2);
        h2
    } else if s.curr_is(TokenType::TokenIf) {
        let h2 = lemma_if_statement(x, h);
        lemma_stmt_then(s, h, x, h, x.if_statement(), h2);
        h2
    } else if s.curr_is(TokenType::TokenWhile) {
        let h2 = lemma_while_statement(x, h);
        lemma_stmt_then(s, h, x, h, x.while_statement(), h2);
        h2
    } else if s.curr_is(TokenType::TokenFor) {
        let h2 = lemma_for_statement(x, h);
        lemma_stmt_then(s, h, x, h, x.for_statement(), h2);
        h2
    } else if s.curr_is(TokenType::TokenLeftBrace) {
        lemma_open_scope(x, h);
        let so = x.open_scope();
        let h1 = lemma_block(so, h);
        let s1 = so.block();
        let h1 = pick(s1, h1);
        reveal(ParserView::close_scope);
        if x.can_open_scope() {
            let h2 = lemma_close_scope(s1, h1, x.scope);
            let s2 = s1.close_scope(true);
            if !s2.had_error {
                lemma_grows_nothing(s, h, so);
                lemma_grows_then(
                    s,
                    h,
                    so,
                    h,
                    0,
                    s1,
                    h1,
                    s1.scope.locals.len() - so.scope.locals.len(),
                );
                lemma_grows_then(
                    s,
                    h,
                    s1,
                    h1,
                    s1.scope.locals.len() - so.scope.locals.len(),
                    s2,
                    h2,
                    x.scope.locals.len() - s1.scope.locals.len(),
                );
            }
            h2
        } else {
            h1
        }
    } else {
        lemma_expression_statement(s, h)
    }
}

pub proof fn lemma_declaration(s: ParserView, h: Heights) -> (h2: Heights)
    requires
        shaped(s, h),
        calm(s),
        !s.had_error ==> framed(s, h),
    ensures
        stmt_ok(s, h, s.declaration(), h2),
        s.curr.token_type != TokenType::TokenEof ==> s.declaration().measure() < s.measure(),
    decreases s.measure(), 8int,
{
    reveal(grows);
    let (s1, h1) = if s.curr_is(TokenType::TokenVar) {
        lemma_advance_ok(s, h);
        lemma_advance_frame(s);
        let x = s.advance();
        lemma_expr_as_stmt(s, h, x, h);
        let hx = lemma_var_declaration(x, h);
        lemma_stmt_then(s, h, x, h, x.var_declaration(), hx);
        (x.var_declaration(), hx)
    } else {
        let hx = lemma_statement(s, h);
        (s.statement(), hx)
    };
    if s1.panic_mode {
        lemma_synchronize(s1);
    }
    h1
}

/// The offsets in the code at which the declarations of a program start,
/// and the offset at which the last one ends.
pub open spec fn declaration_marks(s: ParserView) -> Set<int>
    decreases s.measure(),
{
    if s.curr_is(TokenType::TokenEof) {
        Set::empty().insert(s.code.len() as int)
    } else {
        let s1 = s.declaration();
        if s1.measure() < s.measure() {
            declaration_marks(s1).insert(s.code.len() as int)
        } else {
            Set::empty().insert(s.code.len() as int)
        }
    }
}

/// The declarations of a program leave the stack empty, each of them.
pub proof fn lemma_declarations(s: ParserView, h: Heights) -> (h2: Heights)
    requires
        shaped(s, h),
        calm(s),
        !s.had_error ==> s.scope.scope_depth == 0 && framed(s, h),
    ensures
        stmt_ok(s, h, s.declarations(), h2),
        !s.declarations().had_error ==> {
            &&& top(h2) == 0
            &&& top(h) == 0
            &&& crate::typing::extends_heights(h, h2)
            &&& forall|mark: int| #[trigger]
                declaration_marks(s).contains(mark) ==> 0 <= mark < h2.len() && h2[mark] == Some(
                    0int,
                )
        },
    decreases s.measure(),
{
    if !s.had_error {
        lemma_no_locals(s.scope);
    }
    let a = s.code.len() as int;
    if s.curr_is(TokenType::TokenEof) {
        lemma_advance_ok(s, h);
        lemma_expr_as_stmt(s, h, s.advance(), h);
        if !s.advance().had_error {
            assert(h[a] == h.last());
            assert forall|mark: int| #[trigger]
                declaration_marks(s).contains(mark) implies 0 <= mark < h.len() && h[mark] == Some(
                0int,
            ) by {
                assert(mark == a);
            }
        }
        h
    } else {
        let h1 = lemma_declaration(s, h);
        let s1 = s.declaration();
        if !s1.had_error {
            lemma_no_locals(s1.scope);
            crate::typing::lemma_grows_facts(s, h, s1, h1, 0);
        }
        let h1 = pick(s1, h1);
        let h2 = lemma_declarations(s1, h1);
        let s2 = s1.declarations();
        lemma_stmt_then(s, h, s1, h1, s2, h2);
        if !s2.had_error {
            assert(h[a] == h.last());
            assert(h2[a] == h1[a]);
            assert(h1[a] == h[a]);
            assert forall|i: int| 0 <= i < h.len() implies #[trigger] h2[i] == h[i] by {
                assert(h2[i] == h1[i]);
            }
            assert forall|mark: int| #[trigger]
                declaration_marks(s).contains(mark) implies 0 <= mark < h2.len() && h2[mark]
                == Some(0int) by {
                if mark != a {
                    assert(declaration_marks(s1).contains(mark));
                }
            }
        }
        h2
    }
}

/// At global scope there are no locals.
pub proof fn lemma_no_locals(sc: ScopeView)
    requires
        sc.wf(),
        sc.scope_depth == 0,
    ensures
        sc.locals.len() == 0,
{
    reveal(ScopeView::wf);
    if sc.locals.len() > 0 {
        assert(scope_of(sc.locals[0], sc.scope_depth) >= 1);
    }
}

/// Parsing never goes back in the source: after an expression, a statement
/// or a declaration the compilation is no farther from the end of the
/// source than it was. The function [`ParserView::onward`], which the
/// routines use to say so, therefore hands on what it is given.
pub proof fn lemma_parsing_goes_on(s: ParserView)
    requires
        calm(s),
        s.scope.wf(),
        s.scope.settled(),
    ensures
        s.expression().measure() <= s.measure(),
        s.statement().measure() <= s.measure(),
        s.declaration().measure() <= s.measure(),
        s.onward(s.expression()) == s.expression(),
        s.onward(s.statement()) == s.statement(),
        s.onward(s.declaration()) == s.declaration(),
{
    let h: Heights = Seq::new(s.code.len() + 1, |i: int| Some(s.scope.locals.len() as int));
    lemma_expression(s, h);
    lemma_statement(s, h);
    lemma_declaration(s, h);
}

} // verus!
