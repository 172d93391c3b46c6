//! The expression routines of the compiler.

use vstd::prelude::*;
use crate::grammar::{resolve_slot, ParserView};
use crate::opcode::OpCode;
use crate::parser::Parser;
use crate::parser_rules::{
    is_rule_table,
    level,
    lookup,
    rule_of,
    rules,
    ParseFn,
    ParsePrecedence,
    ParseRule,
};
use crate::token::TokenType;

verus! {

impl Parser {
    /// The rule of a kind of token.
    pub fn get_rule(&self, tok_type: &TokenType) -> (r: ParseRule)
        requires
            self.wf(),
        ensures
            r == rule_of(*tok_type),
    {
        lookup(&self.parse_rules, *tok_type)
    }

    /// The table of rules.
    pub fn rules(&mut self) -> (h: Vec<ParseRule>)
        ensures
            is_rule_table(h@),
            *final(self) == *old(self),
    {
        rules()
    }

    pub fn grouping(&mut self)
        requires
            old(self).wf(),
        ensures
            final(self).continues(old(self)),
            final(self).scope == old(self).scope,
            final(self)@ == old(self)@.grouping(),
        decreases old(self)@.measure(), 11int,
    {
        self.expression();
        self.consume(&TokenType::TokenRightParen, "Expect ')' after expression.")
    }

    pub fn expression(&mut self)
        requires
            old(self).wf(),
        ensures
            final(self).continues(old(self)),
            final(self).scope == old(self).scope,
            final(self)@ == old(self)@.expression(),
            old(self)@.curr.token_type != TokenType::TokenEof ==> final(self)@.measure() < old(
                self,
            )@.measure(),
        decreases old(self)@.measure(), 5int,
    {
        self.parse(&ParsePrecedence::PrecedenceAssignment);
    }

    pub fn unary(&mut self)
        requires
            old(self).wf(),
        ensures
            final(self).continues(old(self)),
            final(self).scope == old(self).scope,
            final(self)@ == old(self)@.unary(),
        decreases old(self)@.measure(), 11int,
    {
        reveal(ParserView::emit_unary);
        let prev_tok_type = self.prev_tok_type();
        self.parse(&ParsePrecedence::PrecedenceUnary);
        match prev_tok_type {
            TokenType::TokenMinus => self.emit_op(OpCode::OpNegate),
            TokenType::TokenBang => self.emit_op(OpCode::OpNot),
            _ => {},
        };
    }

    pub fn binary(&mut self)
        requires
            old(self).wf(),
        ensures
            final(self).continues(old(self)),
            final(self).scope == old(self).scope,
            final(self)@ == old(self)@.binary(),
        decreases old(self)@.measure(), 11int,
    {
        reveal(ParserView::emit_binary);
        let prev_tok_type = self.prev_tok_type();
        let rule = self.get_rule(&prev_tok_type);
        let precedence = rule.precedence.add(1);
        self.parse(&precedence);
        match prev_tok_type {
            TokenType::TokenPlus => self.emit_op(OpCode::OpAdd),
            TokenType::TokenMinus => self.emit_op(OpCode::OpSubtract),
            TokenType::TokenStar => self.emit_op(OpCode::OpMultiple),
            TokenType::TokenSlash => self.emit_op(OpCode::OpDivide),
            TokenType::TokenBangEqual => self.emit_op2(OpCode::OpEqual, OpCode::OpNot),
            TokenType::TokenEqualEqual => self.emit_op(OpCode::OpEqual),
            TokenType::TokenGreater => self.emit_op(OpCode::OpGreater),
            TokenType::TokenGreaterEqual => self.emit_op2(OpCode::OpLess, OpCode::OpNot),
            TokenType::TokenLess => self.emit_op(OpCode::OpLess),
            TokenType::TokenLessEqual => self.emit_op2(OpCode::OpGreater, OpCode::OpNot),
            _ => {},
        };
    }

    pub fn and_(&mut self)
        requires
            old(self).wf(),
        ensures
            final(self).continues(old(self)),
            final(self).scope == old(self).scope,
            final(self)@ == old(self)@.and_(),
        decreases old(self)@.measure(), 11int,
    {
        let end_jump = self.emit_jump(OpCode::OpJumpIfFalse);
        self.emit_op(OpCode::OpPop);
        self.parse(&ParsePrecedence::PrecedenceAnd);
        self.patch_jump(end_jump);
    }

    pub fn or_(&mut self)
        requires
            old(self).wf(),
        ensures
            final(self).continues(old(self)),
            final(self).scope == old(self).scope,
            final(self)@ == old(self)@.or_(),
        decreases old(self)@.measure(), 11int,
    {
        let else_jump = self.emit_jump(OpCode::OpJumpIfFalse);
        let end_jump = self.emit_jump(OpCode::OpJump);
        self.patch_jump(else_jump);
        self.emit_op(OpCode::OpPop);
        self.parse(&ParsePrecedence::PrecedenceOr);
        self.patch_jump(end_jump);
    }

    /// Compiles a read of the variable that was just consumed, or, where
    /// `can_assign` allows it and an equals sign follows, an assignment to
    /// it.
    pub fn named_variable(&mut self, can_assign: bool)
        requires
            old(self).wf(),
        ensures
            final(self).continues(old(self)),
            final(self).scope == old(self).scope,
            final(self)@ == old(self)@.named_variable(can_assign),
        decreases old(self)@.measure(), 11int,
    {
        reveal(ParserView::lookup_variable);
        reveal(ParserView::variable_operand);
        reveal(ParserView::variable_is_local);
        reveal(ParserView::match_advance);
        let name = self.prev_tok.raw.clone();
        let resolved = self.scope.resolve_local(name.as_str());
        let (get_op, set_op, arg) = match resolved {
            None => {
                let index = self.ident_const();
                (OpCode::OpGetGlobal, OpCode::OpSetGlobal, index)
            },
            Some(v) => {
                proof {
                    lemma_resolve_unique(self.scope@, name@, v as int);
                }
                if self.scope.is_uninitialized(v) {
                    self.error("cannot read local variable in its own initializer");
                }
                (OpCode::OpGetLocal, OpCode::OpSetLocal, v)
            },
        };
        if can_assign && self.match_advance(&TokenType::TokenEqual) {
            self.expression();
            self.emit_op_operand(set_op, arg);
        } else {
            self.emit_op_operand(get_op, arg);
        }
    }

    pub fn variable(&mut self, can_assign: bool)
        requires
            old(self).wf(),
        ensures
            final(self).continues(old(self)),
            final(self).scope == old(self).scope,
            final(self)@ == old(self)@.variable(can_assign),
        decreases old(self)@.measure(), 12int,
    {
        self.named_variable(can_assign)
    }

    /// Runs the parsing routine that a rule names.
    pub fn apply(&mut self, f: ParseFn, can_assign: bool)
        requires
            old(self).wf(),
        ensures
            final(self).continues(old(self)),
            final(self).scope == old(self).scope,
            final(self)@ == old(self)@.apply(f, can_assign),
        decreases old(self)@.measure(), 13int,
    {
        match f {
            ParseFn::Grouping => self.grouping(),
            ParseFn::Unary => self.unary(),
            ParseFn::Binary => self.binary(),
            ParseFn::Variable => self.variable(can_assign),
            ParseFn::String => self.string(),
            ParseFn::Number => self.number(),
            ParseFn::Literal => self.literal(),
            ParseFn::And => self.and_(),
            ParseFn::Or => self.or_(),
        }
    }

    /// Parses an expression whose operators bind at least as tightly as
    /// `precedence`.
    pub fn parse(&mut self, precedence: &ParsePrecedence)
        requires
            old(self).wf(),
            level(*precedence) > level(ParsePrecedence::PrecedenceNone),
        ensures
            final(self).continues(old(self)),
            final(self).scope == old(self).scope,
            final(self)@ == old(self)@.parse(*precedence),
            old(self)@.curr.token_type != TokenType::TokenEof ==> final(self)@.measure() < old(
                self,
            )@.measure(),
        decreases old(self)@.measure(), 4int,
    {
        reveal(ParserView::match_advance);
        self.advance();
        let tok_type = self.prev_tok_type();
        let rule = self.get_rule(&tok_type);
        match rule.prefix {
            None => {
                self.error("expected expression");
            },
            Some(p) => {
                let can_assign = precedence.to_u8() <= 2;
                self.apply(p, can_assign);
                let ghost entered = self@;
                while precedence.to_u8() <= self.get_rule(&self.curr_tok_type()).precedence.to_u8()
                    invariant
                        self.continues(old(self)),
                        self.scope == old(self).scope,
                        self@.measure() < old(self)@.measure(),
                        level(*precedence) > level(ParsePrecedence::PrecedenceNone),
                        self@.infix_loop(*precedence) == entered.infix_loop(*precedence),
                    decreases self@.measure(),
                {
                                self.advance();
                    let infix = self.get_rule(&self.prev_tok_type()).infix;
                    match infix {
                        None => self.error("expected expression"),
                        Some(i) => self.apply(i, false),
                    }
                }
                if can_assign && self.match_advance(&TokenType::TokenEqual) {
                    self.error("invalid assignment target");
                }
            },
        }
    }
}

/// The innermost local of a name is the one that a lookup finds.
pub proof fn lemma_resolve_unique(scope: crate::localscope::ScopeView, name: Seq<char>, i: int)
    requires
        scope.resolves_to(name, i),
    ensures
        resolve_slot(scope, name) == Some(i),
{
    assert(scope.knows(name));
    let j = choose|j: int| scope.resolves_to(name, j);
    assert(scope.resolves_to(name, j));
    if i < j {
        assert(scope.locals[j].name != name);
    }
    if j < i {
        assert(scope.locals[i].name != name);
    }
}

} // verus!
