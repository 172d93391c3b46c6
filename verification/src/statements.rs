//! The statement routines of the compiler.

use vstd::prelude::*;
use crate::grammar::ParserView;
use crate::opcode::OpCode;
use crate::parser::Parser;
use crate::token::TokenType;

verus! {

impl Parser {
    pub fn print_statement(&mut self)
        requires
            old(self).wf(),
        ensures
            final(self).continues(old(self)),
            final(self).scope == old(self).scope,
            final(self)@ == old(self)@.print_statement(),
            old(self)@.curr.token_type != TokenType::TokenEof ==> final(self)@.measure() < old(
                self,
            )@.measure(),
    {
        reveal(ParserView::print_statement);
        self.expression();
        self.consume(&TokenType::TokenSemicolon, "Expect ';' after value.");
        self.emit_op(OpCode::OpPrint);
    }

    pub fn expression_statement(&mut self)
        requires
            old(self).wf(),
        ensures
            final(self).continues(old(self)),
            final(self).scope == old(self).scope,
            final(self)@ == old(self)@.expression_statement(),
            old(self)@.curr.token_type != TokenType::TokenEof ==> final(self)@.measure() < old(
                self,
            )@.measure(),
    {
        reveal(ParserView::expression_statement);
        self.expression();
        self.consume(&TokenType::TokenSemicolon, "Expect ';' after value.");
        self.emit_op(OpCode::OpPop);
    }

    pub fn var_declaration(&mut self)
        requires
            old(self).wf(),
            old(self).settled(),
        ensures
            final(self).continues(old(self)),
            final(self).settled(),
            final(self)@.scope.scope_depth == old(self)@.scope.scope_depth,
            final(self)@ == old(self)@.var_declaration(),
    {
        reveal(ParserView::match_advance);
        reveal(ParserView::var_declaration);
        proof {
            crate::localscope::lemma_scope_bounds(self.scope@);
        }
        let global = self.parse_variable("Expect variable name");
        if self.match_advance(&TokenType::TokenEqual) {
            self.expression();
        } else {
            self.emit_op(OpCode::OpNil);
        }
        self.consume(&TokenType::TokenSemicolon, "Expect ';' after variable declaration.");
        self.define_var(global);
    }

    pub fn if_statement(&mut self)
        requires
            old(self).wf(),
            old(self).settled(),
        ensures
            final(self).continues(old(self)),
            final(self).settled(),
            final(self)@.scope.scope_depth == old(self)@.scope.scope_depth,
            final(self)@ == old(self)@.if_statement(),
        decreases old(self)@.measure(), 10int,
    {
        reveal(ParserView::match_advance);
        self.consume(&TokenType::TokenLeftParen, "Expect '(' after 'if'.");
        self.expression();
        self.consume(&TokenType::TokenRightParen, "Expect ')' after condition.");
        let then_jump = self.emit_jump(OpCode::OpJumpIfFalse);
        self.emit_op(OpCode::OpPop);
        self.statement();
        let else_jump = self.emit_jump(OpCode::OpJump);
        self.patch_jump(then_jump);
        self.emit_op(OpCode::OpPop);
        if self.match_advance(&TokenType::TokenElse) {
            self.statement();
        }
        self.patch_jump(else_jump);
    }

    pub fn while_statement(&mut self)
        requires
            old(self).wf(),
            old(self).settled(),
        ensures
            final(self).continues(old(self)),
            final(self).settled(),
            final(self)@.scope.scope_depth == old(self)@.scope.scope_depth,
            final(self)@ == old(self)@.while_statement(),
        decreases old(self)@.measure(), 10int,
    {
        let loop_start = self.codegen.bytecodes.code.len();
        self.consume(&TokenType::TokenLeftParen, "Expect '(' after 'while'.");
        self.expression();
        self.consume(&TokenType::TokenRightParen, "Expect ')' after condition.");
        let exit_jump = self.emit_jump(OpCode::OpJumpIfFalse);
        self.emit_op(OpCode::OpPop);
        self.statement();
        self.emit_loop(loop_start);
        self.patch_jump(exit_jump);
        self.emit_op(OpCode::OpPop);
    }

    /// The initializer clause of a `for` statement: nothing, a variable
    /// declaration or an expression statement.
    pub fn for_initializer(&mut self)
        requires
            old(self).wf(),
            old(self).settled(),
        ensures
            final(self).continues(old(self)),
            final(self).settled(),
            final(self)@.scope.scope_depth == old(self)@.scope.scope_depth,
            final(self)@ == old(self)@.for_initializer(),
    {
        reveal(ParserView::match_advance);
        reveal(ParserView::for_initializer);
        if self.match_advance(&TokenType::TokenSemicolon) {
        } else if self.match_advance(&TokenType::TokenVar) {
            self.var_declaration();
        } else {
            self.expression_statement();
        }
    }

    /// The condition clause of a `for` statement; returns the offset of the
    /// jump that leaves the loop, if there is a condition.
    pub fn for_condition(&mut self) -> (exit_jump: Option<usize>)
        requires
            old(self).wf(),
        ensures
            final(self).continues(old(self)),
            final(self).scope == old(self).scope,
            final(self)@ == old(self)@.for_condition(),
            exit_jump is Some == old(self)@.for_has_condition(),
            exit_jump is Some ==> exit_jump->0 == final(self)@.code.len() - 3,
    {
        reveal(ParserView::match_advance);
        reveal(ParserView::for_condition);
        if !self.match_advance(&TokenType::TokenSemicolon) {
            self.expression();
            self.consume(&TokenType::TokenSemicolon, "Expect ';' after loop condition.");
            let exit_jump = self.emit_jump(OpCode::OpJumpIfFalse);
            self.emit_op(OpCode::OpPop);
            Some(exit_jump)
        } else {
            None
        }
    }

    /// The increment clause of a `for` statement; returns the offset that
    /// the body jumps back to.
    pub fn for_increment(&mut self, loop_start: usize) -> (body_loop: usize)
        requires
            old(self).wf(),
            loop_start <= old(self)@.code.len(),
        ensures
            final(self).continues(old(self)),
            final(self).scope == old(self).scope,
            final(self)@ == old(self)@.for_increment(loop_start as int),
            body_loop == old(self)@.for_loop_start(loop_start as int),
            body_loop <= final(self)@.code.len(),
    {
        reveal(ParserView::match_advance);
        reveal(ParserView::for_increment);
        if !self.match_advance(&TokenType::TokenRightParen) {
            let body_jump = self.emit_jump(OpCode::OpJump);
            let increment_start = self.codegen.bytecodes.code.len();
            self.expression();
            self.emit_op(OpCode::OpPop);
            self.consume(&TokenType::TokenRightParen, "Expect ')' after for clauses.");
            self.emit_loop(loop_start);
            self.patch_jump(body_jump);
            increment_start
        } else {
            loop_start
        }
    }

    pub fn for_statement(&mut self)
        requires
            old(self).wf(),
            old(self).settled(),
        ensures
            final(self).continues(old(self)),
            final(self).settled(),
            final(self)@.scope.scope_depth == old(self)@.scope.scope_depth,
            final(self)@ == old(self)@.for_statement(),
        decreases old(self)@.measure(), 10int,
    {
        let opened = self.open_scope();
        self.consume(&TokenType::TokenLeftParen, "Expect '(' after 'for'.");
        self.for_initializer();
        let loop_start = self.codegen.bytecodes.code.len();
        let exit_jump = self.for_condition();
        let body_loop = self.for_increment(loop_start);
        self.statement();
        self.emit_loop(body_loop);
        if let Some(i) = exit_jump {
            self.patch_jump(i);
            self.emit_op(OpCode::OpPop);
        }
        self.close_scope(opened);
    }

    pub fn block(&mut self)
        requires
            old(self).wf(),
            old(self).settled(),
        ensures
            final(self).continues(old(self)),
            final(self).settled(),
            final(self)@.scope.scope_depth == old(self)@.scope.scope_depth,
            final(self)@ == old(self)@.block(),
        decreases old(self)@.measure(), 10int,
    {
        while !self.curr_is(&TokenType::TokenRightBrace) && !self.curr_is(&TokenType::TokenEof)
            invariant
                self.continues(old(self)),
                self.settled(),
                self@.scope.scope_depth == old(self)@.scope.scope_depth,
                self@.block_items() == old(self)@.block_items(),
            decreases self@.measure(),
        {
                self.declaration();
        }
        self.consume(&TokenType::TokenRightBrace, "Expected '}' after block");
    }

    pub fn declaration(&mut self)
        requires
            old(self).wf(),
            old(self).settled(),
        ensures
            final(self).continues(old(self)),
            final(self).settled(),
            final(self)@.scope.scope_depth == old(self)@.scope.scope_depth,
            final(self)@ == old(self)@.declaration(),
            old(self)@.curr.token_type != TokenType::TokenEof ==> final(self)@.measure() < old(
                self,
            )@.measure(),
        decreases old(self)@.measure(), 8int,
    {
        reveal(ParserView::match_advance);
        if self.match_advance(&TokenType::TokenVar) {
            self.var_declaration();
        } else {
            self.statement();
        }
        if self.panic_mode {
            self.synchronize();
        }
    }

    pub fn statement(&mut self)
        requires
            old(self).wf(),
            old(self).settled(),
        ensures
            final(self).continues(old(self)),
            final(self).settled(),
            final(self)@.scope.scope_depth == old(self)@.scope.scope_depth,
            final(self)@ == old(self)@.statement(),
            old(self)@.curr.token_type != TokenType::TokenEof ==> final(self)@.measure() < old(
                self,
            )@.measure(),
        decreases old(self)@.measure(), 7int,
    {
        reveal(ParserView::match_advance);
        if self.match_advance(&TokenType::TokenPrint) {
            self.print_statement();
        } else if self.match_advance(&TokenType::TokenIf) {
            self.if_statement();
        } else if self.match_advance(&TokenType::TokenWhile) {
            self.while_statement();
        } else if self.match_advance(&TokenType::TokenFor) {
            self.for_statement();
        } else if self.match_advance(&TokenType::TokenLeftBrace) {
            let opened = self.open_scope();
            self.block();
            self.close_scope(opened);
        } else {
            self.expression_statement();
        }
    }

    /// The declarations of a program, up to the end of the source.
    pub fn declarations(&mut self)
        requires
            old(self).wf(),
            old(self).settled(),
        ensures
            final(self).continues(old(self)),
            final(self).settled(),
            final(self)@.scope.scope_depth == old(self)@.scope.scope_depth,
            final(self)@ == old(self)@.declarations(),
    {
        reveal(ParserView::match_advance);
        while !self.match_advance(&TokenType::TokenEof)
            invariant
                self.continues(old(self)),
                self.settled(),
                self@.scope.scope_depth == old(self)@.scope.scope_depth,
                self@.declarations() == old(self)@.declarations(),
            decreases self@.measure(),
        {
            reveal(ParserView::match_advance);
            self.declaration();
        }
    }

    /// A whole program: its declarations, and the instruction that ends
    /// it.
    pub fn program(&mut self)
        requires
            old(self).wf(),
            old(self).settled(),
        ensures
            final(self).continues(old(self)),
            final(self)@ == old(self)@.program(),
    {
        reveal(ParserView::program);
        self.advance();
        self.declarations();
        self.consume(&TokenType::TokenEof, "Expect end of expression");
        self.emit_return();
    }
}

} // verus!
