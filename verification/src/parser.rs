//! The single-pass compiler: a Pratt parser that emits code as it parses.
//!
//! What each routine does is stated by the function of the same name in
//! [`crate::grammar`].

use vstd::prelude::*;
use vstd::string::StrSliceExecFns;
use vstd::string::StringExecFns;
use crate::helpers::decimal_text;
use crate::codegen::{Codegen, MAX_CONSTANTS, MAX_JUMP};
use crate::grammar::{
    lemma_advance_measure,
    location_of,
    DiagnosticView,
    ParserView,
    MAX_SCOPE_DEPTH,
};
use crate::lexer::{lemma_next_token_progress, lemma_tokens_after_eof, tokens_from, Lexer};
use crate::localscope::{LocalScope, MAX_LOCALS, UNINITIALIZED};
use crate::opcode::OpCode;
use crate::parser_rules::{is_rule_table, rules, ParseRule};
use crate::token::{Token, TokenType};
use crate::value::{Value, ValueRepr};

verus! {

/// A compile error: the line it was found on, where on that line (` at
/// end`, ` at '<lexeme>'`, or nothing for an error that the scanner
/// found), and what is wrong.
#[derive(Debug)]
pub struct Diagnostic {
    pub line: i64,
    pub location: String,
    pub message: String,
}

impl View for Diagnostic {
    type V = DiagnosticView;

    open spec fn view(&self) -> DiagnosticView {
        DiagnosticView { line: self.line, location: self.location@, message: self.message@ }
    }
}

impl Clone for Diagnostic {
    fn clone(&self) -> (r: Self)
        ensures
            r@ == self@,
    {
        Diagnostic {
            line: self.line,
            location: self.location.clone(),
            message: self.message.clone(),
        }
    }
}

impl Diagnostic {
    /// The line that reports the error: `[line N] Error`, where the error
    /// is, a colon and what is wrong.
    pub fn to_string(&self) -> (r: String)
        ensures
            r@ == self@.report(),
    {
        let mut text = String::from_str("[line ");
        text.append(decimal_text(self.line).as_str());
        text.append("] Error");
        text.append(self.location.as_str());
        text.append(": ");
        text.append(self.message.as_str());
        text
    }
}

pub struct Parser {
    pub lex: Lexer,
    pub codegen: Codegen,
    pub curr_tok: Token,
    pub prev_tok: Token,
    /// The values of the number literals of the source, in order.
    pub numbers: Vec<u64>,
    /// How many of `numbers` belong to literals that were scanned.
    pub next_number: usize,
    pub curr_number: u64,
    pub prev_number: u64,
    pub parse_rules: Vec<ParseRule>,
    pub had_error: bool,
    pub panic_mode: bool,
    pub diagnostics: Vec<Diagnostic>,
    pub scope: LocalScope,
}

impl View for Parser {
    type V = ParserView;

    open spec fn view(&self) -> ParserView {
        ParserView {
            rest: tokens_from(self.lex.source(), self.lex.cursor()),
            numbers: self.numbers@.skip(self.next_number as int),
            curr: self.curr_tok@,
            prev: self.prev_tok@,
            curr_number: self.curr_number,
            prev_number: self.prev_number,
            code: self.codegen.code(),
            constants: self.codegen.constants(),
            scope: self.scope@,
            had_error: self.had_error,
            panic_mode: self.panic_mode,
            diagnostics: self.diagnostics@.map_values(|d: Diagnostic| d@),
        }
    }
}

impl Parser {
    /// The invariant of the compiler's state.
    pub open spec fn wf(&self) -> bool {
        &&& self.scope.wf()
        &&& self.codegen.constants().len() <= MAX_CONSTANTS
        &&& is_rule_table(self.parse_rules@)
        &&& self.next_number <= self.numbers@.len()
        &&& (self.panic_mode ==> self.had_error)
    }

    /// What a routine leaves as it is: the source, the table of rules and
    /// the values of the number literals.
    pub open spec fn same_input(&self, before: &Parser) -> bool {
        &&& self.lex.source() == before.lex.source()
        &&& self.parse_rules@ == before.parse_rules@
        &&& self.numbers@ == before.numbers@
    }

    /// Every local has its initializer behind it.
    pub open spec fn settled(&self) -> bool {
        self.scope@.settled()
    }

    /// A compiler at the start of a source. `numbers` holds the values of
    /// the number literals of the source, in the order in which they occur;
    /// a literal without a value counts as zero.
    pub fn new(lex: Lexer, numbers: Vec<u64>) -> (p: Parser)
        ensures
            p.wf(),
            p.settled(),
            p.lex == lex,
            p.numbers == numbers,
            p@ == ParserView::start(tokens_from(lex.source(), lex.cursor()), numbers@),
    {
        let p = Parser {
            lex,
            curr_tok: Token::new(TokenType::TokenEof, "", 0, 0),
            prev_tok: Token::new(TokenType::TokenEof, "", 0, 0),
            numbers,
            next_number: 0,
            curr_number: 0,
            prev_number: 0,
            codegen: Codegen::new(),
            had_error: false,
            panic_mode: false,
            diagnostics: Vec::new(),
            parse_rules: rules(),
            scope: LocalScope::new(),
        };
        assert(p@.numbers =~= numbers@);
        assert(p@.diagnostics =~= Seq::<DiagnosticView>::empty());
        p
    }

    pub fn curr_is(&self, tok_type: &TokenType) -> (r: bool)
        ensures
            r == self@.curr_is(*tok_type),
    {
        self.curr_tok_type().is(tok_type)
    }

    /// Consumes the token that is looked at and scans the next one; error
    /// tokens are reported and passed over.
    pub fn advance(&mut self)
        requires
            old(self).wf(),
        ensures
            final(self).wf(),
            final(self).same_input(old(self)),
            final(self)@ == old(self)@.advance(),
            final(self)@.measure() <= old(self)@.measure(),
            old(self)@.curr.token_type != TokenType::TokenEof ==> final(self)@.measure() < old(
                self,
            )@.measure(),
            final(self).codegen == old(self).codegen,
            final(self).scope == old(self).scope,
            final(self)@.prev == old(self)@.curr,
    {
        reveal(ParserView::advance);
        reveal(ParserView::scan);
        self.prev_tok = self.curr_tok.clone();
        self.prev_number = self.curr_number;
        loop
            invariant
                self.wf(),
                self.same_input(old(self)),
                self@.scan() == old(self)@.advance(),
                self.codegen == old(self).codegen,
                self.scope == old(self).scope,
            decreases self.lex.source().len() - self.lex.cursor().pos,
        {
            reveal(ParserView::scan);
            let ghost before = self@;
            let ghost from = self.lex.cursor();
            let budget = self.lex.remaining();
            let tok = self.lex.scan_next();
            proof {
                lemma_next_token_progress(self.lex.source(), from);
                if tok@.token_type == TokenType::TokenEof {
                    lemma_tokens_after_eof(self.lex.source(), from);
                }
                assert(before.rest.len() > 0);
                assert(before.rest[0] == tok@);
                if tok@.token_type != TokenType::TokenEof {
                    assert(before.rest.drop_first() =~= tokens_from(
                        self.lex.source(),
                        self.lex.cursor(),
                    ));
                }
            }
            let kind = tok.token_type;
            self.curr_tok = tok;
            if kind == TokenType::TokenNumber {
                if self.next_number < self.numbers.len() {
                    self.curr_number = self.numbers[self.next_number];
                    self.next_number += 1;
                    proof {
                        assert(before.numbers.drop_first() =~= self@.numbers);
                    }
                } else {
                    self.curr_number = 0;
                    proof {
                        assert(before.numbers.len() == 0);
                    }
                }
            }
            if kind != TokenType::TokenError {
                proof {
                    lemma_advance_measure(old(self)@);
                }
                return ;
            }
            let msg = self.curr_tok.raw.clone();
            self.error_at_curr(msg.as_str());
        }
    }

    pub fn emit_return(&mut self) -> (offset: usize)
        requires
            old(self).wf(),
        ensures
            final(self).wf(),
            final(self).same_input(old(self)),
            final(self)@ == old(self)@.emit_return(),
            offset == old(self)@.code.len(),
    {
        self.codegen.emit_return()
    }

    /// Consumes the token that is looked at if it is of the given kind, and
    /// reports `err_msg` at it otherwise.
    pub fn consume(&mut self, tok_type: &TokenType, err_msg: &str)
        requires
            old(self).wf(),
        ensures
            final(self).wf(),
            final(self).same_input(old(self)),
            final(self)@ == old(self)@.consume(*tok_type, err_msg@),
            final(self)@.measure() <= old(self)@.measure(),
            final(self).codegen == old(self).codegen,
            final(self).scope == old(self).scope,
    {
        reveal(ParserView::consume);
        if self.curr_is(tok_type) {
            self.advance();
            return ;
        }
        self.error_at_curr(err_msg);
    }

    /// Consumes the token that is looked at if it is of the given kind;
    /// says whether it was.
    pub fn match_advance(&mut self, tok_type: &TokenType) -> (r: bool)
        requires
            old(self).wf(),
        ensures
            final(self).wf(),
            final(self).same_input(old(self)),
            r == old(self)@.curr_is(*tok_type),
            final(self)@ == old(self)@.match_advance(*tok_type),
            final(self)@.measure() <= old(self)@.measure(),
            r && *tok_type != TokenType::TokenEof ==> final(self)@.measure() < old(self)@.measure(),
            final(self).codegen == old(self).codegen,
            final(self).scope == old(self).scope,
    {
        reveal(ParserView::match_advance);
        if !self.curr_is(tok_type) {
            return false;
        }
        self.advance();
        true
    }

    pub fn prev_tok_type(&self) -> (t: TokenType)
        ensures
            t == self@.prev.token_type,
    {
        self.prev_tok.token_type
    }

    pub fn curr_tok_type(&self) -> (t: TokenType)
        ensures
            t == self@.curr.token_type,
    {
        self.curr_tok.token_type
    }

    pub fn error_at_curr(&mut self, msg: &str)
        ensures
            final(self)@ == old(self)@.error_at_curr(msg@),
            final(self).same_state(old(self)),
    {
        let tok = self.curr_tok.clone();
        self.error_at(&tok, msg)
    }

    pub fn error(&mut self, msg: &str)
        ensures
            final(self)@ == old(self)@.error(msg@),
            final(self).same_state(old(self)),
    {
        let tok = self.prev_tok.clone();
        self.error_at(&tok, msg)
    }

    /// What reporting an error leaves as it is: everything but the record
    /// of errors.
    pub open spec fn same_state(&self, before: &Parser) -> bool {
        &&& self.lex == before.lex
        &&& self.codegen == before.codegen
        &&& self.curr_tok == before.curr_tok
        &&& self.prev_tok == before.prev_tok
        &&& self.numbers == before.numbers
        &&& self.next_number == before.next_number
        &&& self.curr_number == before.curr_number
        &&& self.prev_number == before.prev_number
        &&& self.parse_rules == before.parse_rules
        &&& self.scope == before.scope
    }

    /// Records an error found at a token. While the compiler recovers from
    /// an earlier error, nothing is recorded.
    pub fn error_at(&mut self, token: &Token, msg: &str)
        ensures
            final(self)@ == old(self)@.error_at(token@, msg@),
            final(self).same_state(old(self)),
    {
        if self.panic_mode {
            return ;
        }
        self.panic_mode = true;
        let location = match token.token_type {
            TokenType::TokenEof => String::from_str(" at end"),
            TokenType::TokenError => String::new(),
            _ => {
                let mut text = String::from_str(" at '");
                text.append(token.raw.as_str());
                text.append("'");
                text
            },
        };
        let diagnostic = Diagnostic { line: token.line, location, message: String::from_str(msg) };
        self.diagnostics.push(diagnostic);
        self.had_error = true;
        proof {
            assert(self@.diagnostics =~= old(self)@.diagnostics.push(
                DiagnosticView {
                    line: token@.line,
                    location: location_of(token@),
                    message: msg@,
                },
            ));
        }
    }

    /// Skips tokens until a statement may start.
    pub fn synchronize(&mut self)
        requires
            old(self).wf(),
        ensures
            final(self).wf(),
            final(self).same_input(old(self)),
            final(self)@ == old(self)@.synchronize(),
            final(self)@.measure() <= old(self)@.measure(),
            final(self).codegen == old(self).codegen,
            final(self).scope == old(self).scope,
    {
        reveal(ParserView::synchronize);
        reveal(ParserView::sync_loop);
        self.panic_mode = false;
        while !self.curr_is(&TokenType::TokenEof)
            invariant
                self.wf(),
                self.same_input(old(self)),
                self@.sync_loop() == old(self)@.synchronize(),
                self@.measure() <= old(self)@.measure(),
                self.codegen == old(self).codegen,
                self.scope == old(self).scope,
            decreases self@.measure(),
        {
            reveal(ParserView::sync_loop);
            if self.prev_tok_type() == TokenType::TokenSemicolon {
                return ;
            }
            match self.curr_tok_type() {
                TokenType::TokenClass
                | TokenType::TokenFun
                | TokenType::TokenVar
                | TokenType::TokenFor
                | TokenType::TokenIf
                | TokenType::TokenWhile
                | TokenType::TokenPrint
                | TokenType::TokenReturn => {
                    return ;
                },
                _ => {},
            }
            self.advance();
        }
    }

    /// What emitting code and declaring variables leave as they are: the
    /// place in the source.
    pub open spec fn same_place(&self, before: &Parser) -> bool {
        &&& self.lex == before.lex
        &&& self.curr_tok == before.curr_tok
        &&& self.prev_tok == before.prev_tok
        &&& self.numbers == before.numbers
        &&& self.next_number == before.next_number
        &&& self.curr_number == before.curr_number
        &&& self.prev_number == before.prev_number
        &&& self.parse_rules == before.parse_rules
    }

    /// Appends an instruction.
    pub fn emit_op(&mut self, op: OpCode)
        requires
            old(self).wf(),
        ensures
            final(self).wf(),
            final(self).same_place(old(self)),
            final(self).scope == old(self).scope,
            final(self)@ == old(self)@.emit_op(op),
    {
        self.codegen.emit_op(op);
    }

    /// Appends two instructions.
    pub fn emit_op2(&mut self, op1: OpCode, op2: OpCode)
        requires
            old(self).wf(),
        ensures
            final(self).wf(),
            final(self).same_place(old(self)),
            final(self).scope == old(self).scope,
            final(self)@ == old(self)@.emit_op2(op1, op2),
    {
        self.codegen.emit_op2(op1, op2);
    }

    /// Appends an instruction and its operand.
    pub fn emit_op_operand(&mut self, op: OpCode, o: u8)
        requires
            old(self).wf(),
        ensures
            final(self).wf(),
            final(self).same_place(old(self)),
            final(self).scope == old(self).scope,
            final(self)@ == old(self)@.emit_op_operand(op, o),
    {
        self.codegen.emit_op_operand(op, o);
    }

    /// Appends a jump whose distance is not yet known; returns the offset
    /// of its placeholder.
    pub fn emit_jump(&mut self, op: OpCode) -> (offset: usize)
        requires
            old(self).wf(),
        ensures
            final(self).wf(),
            final(self).same_place(old(self)),
            final(self).scope == old(self).scope,
            final(self)@ == old(self)@.emit_jump(op),
            offset == old(self)@.next_jump(),
    {
        self.codegen.emit_jump(op)
    }

    /// Makes the jump whose placeholder is at `offset` land at the end of
    /// the code; reports an error where that is too far.
    pub fn patch_jump(&mut self, offset: usize)
        requires
            old(self).wf(),
        ensures
            final(self).wf(),
            final(self).same_place(old(self)),
            final(self).scope == old(self).scope,
            final(self)@ == old(self)@.patch_jump(offset as int),
            final(self)@.code.len() == old(self)@.code.len(),
    {
        reveal(ParserView::patch_jump);
        let len = self.codegen.bytecodes.code.len();
        if len < 2 || offset > len - 2 {
            return ;
        }
        if len - offset - 2 > MAX_JUMP {
            self.error("Too much code to jump over.");
            return ;
        }
        self.codegen.patch_jump(offset);
    }

    /// Appends a jump back to `start`; reports an error where that is too
    /// far.
    pub fn emit_loop(&mut self, start: usize)
        requires
            old(self).wf(),
        ensures
            final(self).wf(),
            final(self).same_place(old(self)),
            final(self).scope == old(self).scope,
            final(self)@ == old(self)@.emit_loop(start as int),
            final(self)@.code.len() >= old(self)@.code.len(),
    {
        reveal(ParserView::emit_loop);
        let len = self.codegen.bytecodes.code.len();
        if start > len {
            return ;
        }
        if len - start > MAX_JUMP - 3 {
            self.error("Loop body too large.");
            return ;
        }
        self.codegen.emit_loop(start);
    }

    /// Adds a constant to the pool and appends the instruction that loads
    /// it; reports an error where the pool is full.
    pub fn emit_constant(&mut self, value: Value)
        requires
            old(self).wf(),
        ensures
            final(self).wf(),
            final(self).same_place(old(self)),
            final(self).scope == old(self).scope,
            final(self)@ == old(self)@.emit_constant(value@),
            final(self)@.code.len() >= old(self)@.code.len(),
    {
        let index = self.make_constant(value);
        self.codegen.emit_op_operand(OpCode::OpConstant, index);
    }

    /// Adds a constant to the pool and returns its index; reports an error
    /// where the pool is full, and then returns 0.
    pub fn make_constant(&mut self, value: Value) -> (index: u8)
        requires
            old(self).wf(),
        ensures
            final(self).wf(),
            final(self).same_place(old(self)),
            final(self).scope == old(self).scope,
            final(self)@ == old(self)@.make_constant(value@),
            index == old(self)@.constant_index(),
            final(self)@.code == old(self)@.code,
    {
        reveal(ParserView::make_constant);
        if self.codegen.bytecodes.values.len() >= MAX_CONSTANTS {
            self.error("Too many constants in one chunk.");
            return 0;
        }
        let index = self.codegen.bytecodes.add_const(value);
        index as u8
    }

    /// Appends the instructions that discard `n` locals.
    pub fn emit_pops(&mut self, n: usize)
        requires
            old(self).wf(),
            n <= MAX_LOCALS,
        ensures
            final(self).wf(),
            final(self).same_place(old(self)),
            final(self).scope == old(self).scope,
            final(self)@ == old(self)@.emit_pops(n as nat),
            final(self)@.code.len() >= old(self)@.code.len(),
    {
        reveal(ParserView::emit_pops);
        if n > 255 {
            self.codegen.emit_op_operand(OpCode::OpPopN, 255);
            self.codegen.emit_op_operand(OpCode::OpPopN, (n - 255) as u8);
        } else {
            self.codegen.emit_op_operand(OpCode::OpPopN, n as u8);
        }
    }

    /// Enters a block; says whether it did. Where blocks are nested too
    /// deep it reports an error and stays in the scope that is current.
    pub fn open_scope(&mut self) -> (opened: bool)
        requires
            old(self).wf(),
            old(self).settled(),
        ensures
            final(self).wf(),
            final(self).settled(),
            final(self).same_place(old(self)),
            final(self).codegen == old(self).codegen,
            final(self)@ == old(self)@.open_scope(),
            opened == old(self)@.can_open_scope(),
            final(self)@.scope.scope_depth == old(self)@.scope.scope_depth + if opened {
                1int
            } else {
                0int
            },
            final(self)@.scope.locals == old(self)@.scope.locals,
            opened ==> final(self)@.scope.scope_depth > 0,
    {
        if self.scope.scope_depth < MAX_SCOPE_DEPTH {
            self.scope.begin_scope();
            true
        } else {
            self.error("Too many nested blocks.");
            false
        }
    }

    /// Leaves the block that `opened` says was entered, and discards its
    /// locals from the stack.
    pub fn close_scope(&mut self, opened: bool)
        requires
            old(self).wf(),
            old(self).settled(),
            opened ==> old(self)@.scope.scope_depth > 0,
        ensures
            final(self).wf(),
            final(self).settled(),
            final(self).same_place(old(self)),
            final(self)@ == old(self)@.close_scope(opened),
            final(self)@.code.len() >= old(self)@.code.len(),
            final(self)@.scope.scope_depth == old(self)@.scope.scope_depth - if opened {
                1int
            } else {
                0int
            },
            !opened ==> final(self).scope == old(self).scope,
            opened ==> final(self)@.scope.locals.len() <= old(self)@.scope.locals.len(),
    {
        reveal(ParserView::close_scope);
        reveal(crate::localscope::ScopeView::wf);
        if opened {
            let n = self.scope.end_scope();
            self.emit_pops(n);
        }
    }

    pub fn number(&mut self)
        requires
            old(self).wf(),
        ensures
            final(self).wf(),
            final(self).same_place(old(self)),
            final(self).scope == old(self).scope,
            final(self)@ == old(self)@.number(),
            final(self)@.code.len() >= old(self)@.code.len(),
    {
        let value = self.prev_number;
        self.emit_constant(Value(ValueRepr::Number(value)));
    }

    pub fn string(&mut self)
        requires
            old(self).wf(),
        ensures
            final(self).wf(),
            final(self).same_place(old(self)),
            final(self).scope == old(self).scope,
            final(self)@ == old(self)@.string(),
            final(self)@.code.len() >= old(self)@.code.len(),
    {
        let raw = self.prev_tok.raw.as_str();
        let n = raw.unicode_len();
        let value = if n >= 2 {
            String::from_str(raw.substring_char(1, n - 1))
        } else {
            String::new()
        };
        self.emit_constant(Value(ValueRepr::String(value)));
    }

    pub fn literal(&mut self)
        requires
            old(self).wf(),
        ensures
            final(self).wf(),
            final(self).same_place(old(self)),
            final(self).scope == old(self).scope,
            final(self)@ == old(self)@.literal(),
            final(self)@.code.len() >= old(self)@.code.len(),
    {
        let prev_tok_type = self.prev_tok_type();
        match prev_tok_type {
            TokenType::TokenFalse => self.emit_op(OpCode::OpFalse),
            TokenType::TokenTrue => self.emit_op(OpCode::OpTrue),
            TokenType::TokenNil => self.emit_op(OpCode::OpNil),
            _ => {},
        };
    }

    /// Adds the name of the variable that was just consumed to the
    /// constants; returns its index.
    pub fn ident_const(&mut self) -> (index: u8)
        requires
            old(self).wf(),
        ensures
            final(self).wf(),
            final(self).same_place(old(self)),
            final(self).scope == old(self).scope,
            final(self)@ == old(self)@.ident_const(),
            index == old(self)@.constant_index(),
            final(self)@.code == old(self)@.code,
    {
        let value = self.prev_tok.raw.clone();
        self.make_constant(Value(ValueRepr::String(value)))
    }

    /// Declares a local of the current scope under the text of a token;
    /// reports an error where there are too many locals or the scope has
    /// one of that name.
    pub fn add_local(&mut self, tok: &Token)
        requires
            old(self).wf(),
            old(self)@.scope.scope_depth > 0,
        ensures
            final(self).wf(),
            old(self).settled() ==> final(self)@.scope.settled_below_top(),
            final(self).same_place(old(self)),
            final(self).codegen == old(self).codegen,
            final(self)@ == old(self)@.add_local(tok@),
            final(self)@.scope.scope_depth == old(self)@.scope.scope_depth,
            old(self)@.scope.locals.len() >= MAX_LOCALS || old(self)@.scope.declares(tok@.raw) ==> {
                &&& final(self)@.had_error
                &&& final(self)@.scope == old(self)@.scope
            },
            old(self)@.scope.locals.len() < MAX_LOCALS && !old(self)@.scope.declares(tok@.raw) ==> {
                &&& final(self)@.had_error == old(self)@.had_error
                &&& final(self)@.scope.locals == old(self)@.scope.locals.push(
                    crate::localscope::LocalView { name: tok@.raw, depth: UNINITIALIZED },
                )
            },
    {
        reveal(ParserView::add_local);
        proof {
            if self.settled() {
                crate::localscope::lemma_settled_below_top(self.scope@);
            }
        }
        if self.scope.locals.len() >= MAX_LOCALS {
            self.error("Too many local variables in function.");
            return ;
        }
        if self.scope.contains(tok.raw.as_str()) {
            self.error("already a variable with this name in this scope");
            return ;
        }
        self.scope.add_local(&tok.raw)
    }

    /// Declares the variable whose name was just consumed.
    pub fn declare_var(&mut self)
        requires
            old(self).wf(),
        ensures
            final(self).wf(),
            old(self).settled() ==> final(self)@.scope.settled_below_top(),
            final(self).same_place(old(self)),
            final(self).codegen == old(self).codegen,
            final(self)@ == old(self)@.declare_var(),
            final(self)@.scope.scope_depth == old(self)@.scope.scope_depth,
            old(self)@.scope.scope_depth == 0 ==> final(self).scope == old(self).scope,
    {
        reveal(ParserView::declare_var);
        reveal(crate::localscope::ScopeView::wf);
        proof {
            if self.settled() {
                crate::localscope::lemma_settled_below_top(self.scope@);
            }
        }
        if self.scope.scope_depth == 0 {
            return ;
        }
        let prev_tok = self.prev_tok.clone();
        self.add_local(&prev_tok);
    }

    /// Defines the variable whose initializer was just compiled.
    pub fn define_var(&mut self, global: u8)
        requires
            old(self).wf(),
        ensures
            final(self).wf(),
            final(self).same_place(old(self)),
            final(self)@ == old(self)@.define_var(global),
            final(self)@.code.len() >= old(self)@.code.len(),
            final(self)@.scope.scope_depth == old(self)@.scope.scope_depth,
            old(self)@.scope.settled_below_top() ==> final(self).settled(),
            old(self)@.scope.scope_depth == 0 ==> final(self).scope == old(self).scope,
    {
        reveal(ParserView::define_var);
        reveal(ParserView::mark_initialized);
        proof {
            if self.scope.scope_depth <= 0 {
                reveal(crate::localscope::ScopeView::wf);
                reveal(crate::localscope::ScopeView::settled);
                assert(self.scope@.locals.len() > 0 ==> crate::localscope::scope_of(
                    self.scope@.locals[0],
                    self.scope@.scope_depth,
                ) >= 1);
            }
        }
        if self.scope.scope_depth > 0 {
            self.scope.mark_initialized();
            return ;
        }
        self.emit_op_operand(OpCode::OpDefineGlobal, global);
    }

    /// Consumes the name of a variable and declares it; returns the index
    /// of the constant that holds the name of a global, and 0 for a local.
    pub fn parse_variable(&mut self, msg: &str) -> (index: u8)
        requires
            old(self).wf(),
        ensures
            final(self).wf(),
            old(self).settled() ==> final(self)@.scope.settled_below_top(),
            final(self).same_input(old(self)),
            final(self)@ == old(self)@.parse_variable(msg@),
            index == old(self)@.variable_index(msg@),
            final(self)@.measure() <= old(self)@.measure(),
            final(self)@.code == old(self)@.code,
            final(self)@.scope.scope_depth == old(self)@.scope.scope_depth,
            old(self)@.scope.scope_depth == 0 ==> final(self).scope == old(self).scope,
    {
        reveal(ParserView::parse_variable);
        reveal(ParserView::variable_index);
        self.consume(&TokenType::TokenIdentifier, msg);
        self.declare_var();
        if self.scope.scope_depth > 0 {
            return 0;
        }
        self.ident_const()
    }

    /// What every parsing routine keeps: the invariant and the input; it
    /// never goes back in the source, and it only adds code.
    pub open spec fn continues(&self, before: &Parser) -> bool {
        &&& self.wf()
        &&& self.same_input(before)
        &&& self@.measure() <= before@.measure()
        &&& self@.code.len() >= before@.code.len()
    }
}

} // verus!
