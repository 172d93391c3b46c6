//! What the compiler does, as mathematics: the state of a compilation and
//! the function that each parsing routine computes on it.
//!
//! The routines of [`crate::parser::Parser`] are specified by the functions
//! of this file, one for one.

use vstd::prelude::*;
use crate::helpers::decimal;
use crate::codegen::{high_byte, low_byte, MAX_CONSTANTS, MAX_JUMP};
use crate::localscope::{count_of_scope, LocalView, ScopeView, MAX_LOCALS, UNINITIALIZED};
use crate::opcode::{opcode_byte, OpCode};
use crate::parser_rules::{level, level_of, rule_of, ParseFn, ParsePrecedence};
use crate::token::{TokenType, TokenView};
use crate::value::ValueView;

verus! {

/// A compile error: the line it was found on, where on that line, and what
/// is wrong.
pub struct DiagnosticView {
    pub line: i64,
    pub location: Seq<char>,
    pub message: Seq<char>,
}

impl DiagnosticView {
    /// The line that reports the error.
    pub open spec fn report(self) -> Seq<char> {
        "[line "@ + decimal(self.line as int) + "] Error"@ + self.location + ": "@ + self.message
    }
}

/// The state of a compilation.
pub struct ParserView {
    /// The tokens that were not scanned yet, the first `TokenEof` included.
    pub rest: Seq<TokenView>,
    /// The values of the number literals among `rest`, in order.
    pub numbers: Seq<u64>,
    /// The token that is looked at.
    pub curr: TokenView,
    /// The token that was consumed last.
    pub prev: TokenView,
    /// The value of `curr` where it is a number literal.
    pub curr_number: u64,
    /// The value of `prev` where it is a number literal.
    pub prev_number: u64,
    pub code: Seq<u8>,
    pub constants: Seq<ValueView>,
    pub scope: ScopeView,
    pub had_error: bool,
    pub panic_mode: bool,
    pub diagnostics: Seq<DiagnosticView>,
}

/// The deepest nesting of blocks.
pub const MAX_SCOPE_DEPTH: i8 = 127;

/// Where a diagnostic points: at the end of the source, at a lexeme, or
/// nowhere for an error that the scanner found.
pub open spec fn location_of(tok: TokenView) -> Seq<char> {
    match tok.token_type {
        TokenType::TokenEof => " at end"@,
        TokenType::TokenError => Seq::empty(),
        _ => " at '"@ + tok.raw + "'"@,
    }
}

/// The text of a string literal without its quotes.
pub open spec fn unquote(raw: Seq<char>) -> Seq<char> {
    if raw.len() >= 2 {
        raw.subrange(1, raw.len() - 1)
    } else {
        Seq::empty()
    }
}

/// The slot of the innermost local of a name, if there is one.
pub open spec fn resolve_slot(scope: ScopeView, name: Seq<char>) -> Option<int> {
    if scope.knows(name) {
        Some(choose|i: int| scope.resolves_to(name, i))
    } else {
        None
    }
}

/// The keywords at which a statement starts; error recovery stops before
/// them.
pub open spec fn starts_statement(t: TokenType) -> bool {
    t == TokenType::TokenClass || t == TokenType::TokenFun || t == TokenType::TokenVar || t
        == TokenType::TokenFor || t == TokenType::TokenIf || t == TokenType::TokenWhile || t
        == TokenType::TokenPrint || t == TokenType::TokenReturn
}

impl ParserView {
    /// The state in which a compilation starts: nothing is scanned,
    /// compiled or reported yet.
    pub open spec fn start(rest: Seq<TokenView>, numbers: Seq<u64>) -> Self {
        let none = TokenView { token_type: TokenType::TokenEof, raw: ""@, line: 0, col: 0 };
        ParserView {
            rest,
            numbers,
            curr: none,
            prev: none,
            curr_number: 0,
            prev_number: 0,
            code: Seq::empty(),
            constants: Seq::empty(),
            scope: ScopeView { scope_depth: 0, locals: Seq::empty() },
            had_error: false,
            panic_mode: false,
            diagnostics: Seq::empty(),
        }
    }

    // ----- errors -----
    /// Reports an error at a token, unless an earlier error is still being
    /// recovered from.
    pub open spec fn error_at(self, tok: TokenView, msg: Seq<char>) -> Self {
        if self.panic_mode {
            self
        } else {
            ParserView {
                panic_mode: true,
                had_error: true,
                diagnostics: self.diagnostics.push(
                    DiagnosticView { line: tok.line, location: location_of(tok), message: msg },
                ),
                ..self
            }
        }
    }

    pub open spec fn error_at_curr(self, msg: Seq<char>) -> Self {
        self.error_at(self.curr, msg)
    }

    pub open spec fn error(self, msg: Seq<char>) -> Self {
        self.error_at(self.prev, msg)
    }

    // ----- tokens -----
    /// How far the compilation is from the end of the source: the number of
    /// tokens not scanned yet, and one more while a token other than
    /// `TokenEof` is looked at.
    pub open spec fn measure(self) -> nat {
        self.rest.len() + if self.curr.token_type != TokenType::TokenEof {
            1nat
        } else {
            0nat
        }
    }

    /// `next`, which a routine computed from `self`. Parsing never goes
    /// back in the source, so `next` is never farther from the end than
    /// `self`; the other case is there to make recursion well-founded.
    pub open spec fn onward(self, next: Self) -> Self {
        if next.measure() <= self.measure() {
            next
        } else {
            self
        }
    }

    /// Scans the next token that is no error token into `curr`, and reports
    /// the error tokens on the way.
    #[verifier::opaque]
    pub open spec fn scan(self) -> Self
        decreases self.rest.len(),
    {
        if self.rest.len() == 0 {
            ParserView {
                curr: TokenView { token_type: TokenType::TokenEof, ..self.curr },
                ..self
            }
        } else {
            let t = self.rest[0];
            if t.token_type == TokenType::TokenEof {
                ParserView { curr: t, ..self }
            } else {
                let popped = ParserView { curr: t, rest: self.rest.drop_first(), ..self };
                if t.token_type == TokenType::TokenError {
                    popped.error_at(t, t.raw).scan()
                } else if t.token_type == TokenType::TokenNumber {
                    if self.numbers.len() > 0 {
                        ParserView {
                            curr_number: self.numbers[0],
                            numbers: self.numbers.drop_first(),
                            ..popped
                        }
                    } else {
                        ParserView { curr_number: 0, ..popped }
                    }
                } else {
                    popped
                }
            }
        }
    }

    /// Consumes the token that is looked at.
    #[verifier::opaque]
    pub open spec fn advance(self) -> Self {
        (ParserView { prev: self.curr, prev_number: self.curr_number, ..self }).scan()
    }

    pub open spec fn curr_is(self, t: TokenType) -> bool {
        self.curr.token_type == t
    }

    /// Consumes the token that is looked at if it is of the given kind, and
    /// reports an error otherwise.
    #[verifier::opaque]
    pub open spec fn consume(self, t: TokenType, msg: Seq<char>) -> Self {
        if self.curr_is(t) {
            self.advance()
        } else {
            self.error_at_curr(msg)
        }
    }

    /// Consumes the token that is looked at if it is of the given kind.
    #[verifier::opaque]
    pub open spec fn match_advance(self, t: TokenType) -> Self {
        if self.curr_is(t) {
            self.advance()
        } else {
            self
        }
    }

    /// Skips tokens until a statement may start: after a semicolon, or
    /// before a keyword that starts a statement.
    #[verifier::opaque]
    pub open spec fn synchronize(self) -> Self {
        (ParserView { panic_mode: false, ..self }).sync_loop()
    }

    pub open spec fn sync_loop(self) -> Self
        decreases self.measure(),
    {
        if self.curr.token_type == TokenType::TokenEof || self.prev.token_type
            == TokenType::TokenSemicolon || starts_statement(self.curr.token_type) {
            self
        } else {
            proof {
                lemma_advance_measure(self);
            }
            self.advance().sync_loop()
        }
    }

    // ----- emission -----
    pub open spec fn emit_byte(self, b: u8) -> Self {
        ParserView { code: self.code.push(b), ..self }
    }

    pub open spec fn emit_op(self, op: OpCode) -> Self {
        self.emit_byte(opcode_byte(op))
    }

    pub open spec fn emit_op2(self, op1: OpCode, op2: OpCode) -> Self {
        self.emit_op(op1).emit_op(op2)
    }

    pub open spec fn emit_op_operand(self, op: OpCode, o: u8) -> Self {
        self.emit_op(op).emit_byte(o)
    }

    pub open spec fn emit_return(self) -> Self {
        self.emit_op(OpCode::OpReturn)
    }

    /// Emits a jump with a placeholder for its distance; the placeholder
    /// stands at [`ParserView::next_jump`] of the state before.
    pub open spec fn emit_jump(self, op: OpCode) -> Self {
        self.emit_op(op).emit_byte(0xff).emit_byte(0xff)
    }

    /// The offset at which the placeholder of the next jump will stand.
    pub open spec fn next_jump(self) -> int {
        self.code.len() as int + 1
    }

    /// Makes the jump whose placeholder is at `offset` land at the end of
    /// the code; reports an error where that is too far.
    #[verifier::opaque]
    pub open spec fn patch_jump(self, offset: int) -> Self {
        let distance = self.code.len() - offset - 2;
        if offset < 0 || distance < 0 {
            self
        } else if distance > MAX_JUMP {
            self.error("Too much code to jump over."@)
        } else {
            ParserView {
                code: self.code.update(offset, high_byte(distance)).update(
                    offset + 1,
                    low_byte(distance),
                ),
                ..self
            }
        }
    }

    /// Emits a jump back to `start`; reports an error where that is too
    /// far.
    #[verifier::opaque]
    pub open spec fn emit_loop(self, start: int) -> Self {
        let distance = self.code.len() + 3 - start;
        if start < 0 || start > self.code.len() {
            self
        } else if distance > MAX_JUMP {
            self.error("Loop body too large."@)
        } else {
            self.emit_op(OpCode::OpLoop).emit_byte(high_byte(distance)).emit_byte(
                low_byte(distance),
            )
        }
    }

    /// The index that the next constant gets, 0 where the pool is full.
    pub open spec fn constant_index(self) -> u8 {
        if self.constants.len() >= MAX_CONSTANTS {
            0
        } else {
            self.constants.len() as u8
        }
    }

    /// Adds a constant to the pool; reports an error where the pool is
    /// full.
    #[verifier::opaque]
    pub open spec fn make_constant(self, value: ValueView) -> Self {
        if self.constants.len() >= MAX_CONSTANTS {
            self.error("Too many constants in one chunk."@)
        } else {
            ParserView { constants: self.constants.push(value), ..self }
        }
    }

    /// Adds a constant to the pool and emits the instruction that loads it.
    pub open spec fn emit_constant(self, value: ValueView) -> Self {
        self.make_constant(value).emit_op_operand(OpCode::OpConstant, self.constant_index())
    }

    /// Emits the instructions that discard `n` locals.
    #[verifier::opaque]
    pub open spec fn emit_pops(self, n: nat) -> Self {
        if n > 255 {
            self.emit_op_operand(OpCode::OpPopN, 255).emit_op_operand(
                OpCode::OpPopN,
                (n - 255) as u8,
            )
        } else {
            self.emit_op_operand(OpCode::OpPopN, n as u8)
        }
    }

    // ----- variables -----
    /// Adds the name of a global to the constants.
    pub open spec fn ident_const(self) -> Self {
        self.make_constant(ValueView::Text(self.prev.raw))
    }

    /// Declares a local of the current scope under the text of a token.
    #[verifier::opaque]
    pub open spec fn add_local(self, tok: TokenView) -> Self {
        if self.scope.locals.len() >= MAX_LOCALS {
            self.error("Too many local variables in function."@)
        } else if self.scope.declares(tok.raw) {
            self.error("already a variable with this name in this scope"@)
        } else {
            ParserView {
                scope: ScopeView {
                    locals: self.scope.locals.push(
                        LocalView { name: tok.raw, depth: UNINITIALIZED },
                    ),
                    ..self.scope
                },
                ..self
            }
        }
    }

    /// Declares the variable whose name was just consumed: a local inside a
    /// block; at global scope there is nothing to declare.
    #[verifier::opaque]
    pub open spec fn declare_var(self) -> Self {
        if self.scope.scope_depth == 0 {
            self
        } else {
            self.add_local(self.prev)
        }
    }

    /// The local that was declared last becomes usable.
    #[verifier::opaque]
    pub open spec fn mark_initialized(self) -> Self {
        if self.scope.locals.len() > 0 && self.scope.locals.last().depth == UNINITIALIZED {
            ParserView {
                scope: ScopeView {
                    locals: self.scope.locals.update(
                        self.scope.locals.len() - 1,
                        LocalView {
                            name: self.scope.locals.last().name,
                            depth: self.scope.scope_depth,
                        },
                    ),
                    ..self.scope
                },
                ..self
            }
        } else {
            self
        }
    }

    /// Defines the variable whose initializer was just compiled: a global
    /// by an instruction; a local is already in its slot.
    #[verifier::opaque]
    pub open spec fn define_var(self, global: u8) -> Self {
        if self.scope.scope_depth > 0 {
            self.mark_initialized()
        } else {
            self.emit_op_operand(OpCode::OpDefineGlobal, global)
        }
    }

    /// Consumes the name of a variable and declares it. With
    /// [`ParserView::variable_index`], which gives the constant that holds
    /// the name of a global.
    #[verifier::opaque]
    pub open spec fn parse_variable(self, msg: Seq<char>) -> Self {
        let declared = self.consume(TokenType::TokenIdentifier, msg).declare_var();
        if declared.scope.scope_depth > 0 {
            declared
        } else {
            declared.ident_const()
        }
    }

    /// The index of the constant that names the variable which
    /// [`ParserView::parse_variable`] declares, 0 for a local.
    #[verifier::opaque]
    pub open spec fn variable_index(self, msg: Seq<char>) -> u8 {
        let declared = self.consume(TokenType::TokenIdentifier, msg).declare_var();
        if declared.scope.scope_depth > 0 {
            0
        } else {
            declared.constant_index()
        }
    }

    /// Enters a block; reports an error where blocks are nested too deep,
    /// and then stays in the scope that is current.
    pub open spec fn open_scope(self) -> Self {
        if self.scope.scope_depth < MAX_SCOPE_DEPTH {
            ParserView {
                scope: ScopeView {
                    scope_depth: (self.scope.scope_depth + 1) as i8,
                    ..self.scope
                },
                ..self
            }
        } else {
            self.error("Too many nested blocks."@)
        }
    }

    /// Whether [`ParserView::open_scope`] enters a block.
    pub open spec fn can_open_scope(self) -> bool {
        self.scope.scope_depth < MAX_SCOPE_DEPTH
    }

    /// Leaves the block that `opened` says was entered: its locals go out
    /// of scope and are discarded from the stack.
    #[verifier::opaque]
    pub open spec fn close_scope(self, opened: bool) -> Self {
        if opened && self.scope.scope_depth > 0 {
            let n = count_of_scope(self.scope.locals, self.scope.scope_depth);
            (ParserView {
                scope: ScopeView {
                    scope_depth: (self.scope.scope_depth - 1) as i8,
                    locals: self.scope.locals.take(self.scope.locals.len() - n),
                },
                ..self
            }).emit_pops(n)
        } else {
            self
        }
    }

    // ----- expressions -----
    pub open spec fn number(self) -> Self {
        self.emit_constant(ValueView::Number(self.prev_number))
    }

    pub open spec fn string(self) -> Self {
        self.emit_constant(ValueView::Text(unquote(self.prev.raw)))
    }

    pub open spec fn literal(self) -> Self {
        match self.prev.token_type {
            TokenType::TokenFalse => self.emit_op(OpCode::OpFalse),
            TokenType::TokenTrue => self.emit_op(OpCode::OpTrue),
            TokenType::TokenNil => self.emit_op(OpCode::OpNil),
            _ => self,
        }
    }

    /// The instructions of a binary operator.
    #[verifier::opaque]
    pub open spec fn emit_binary(self, op: TokenType) -> Self {
        match op {
            TokenType::TokenPlus => self.emit_op(OpCode::OpAdd),
            TokenType::TokenMinus => self.emit_op(OpCode::OpSubtract),
            TokenType::TokenStar => self.emit_op(OpCode::OpMultiple),
            TokenType::TokenSlash => self.emit_op(OpCode::OpDivide),
            TokenType::TokenBangEqual => self.emit_op2(OpCode::OpEqual, OpCode::OpNot),
            TokenType::TokenEqualEqual => self.emit_op(OpCode::OpEqual),
            TokenType::TokenGreater => self.emit_op(OpCode::OpGreater),
            TokenType::TokenGreaterEqual => self.emit_op2(OpCode::OpLess, OpCode::OpNot),
            TokenType::TokenLess => self.emit_op(OpCode::OpLess),
            TokenType::TokenLessEqual => self.emit_op2(OpCode::OpGreater, OpCode::OpNot),
            _ => self,
        }
    }

    /// The instruction of a unary operator.
    #[verifier::opaque]
    pub open spec fn emit_unary(self, op: TokenType) -> Self {
        match op {
            TokenType::TokenMinus => self.emit_op(OpCode::OpNegate),
            TokenType::TokenBang => self.emit_op(OpCode::OpNot),
            _ => self,
        }
    }

    pub open spec fn grouping(self) -> Self
        decreases self.measure(), 11int,
    {
        self.expression().consume(TokenType::TokenRightParen, "Expect ')' after expression."@)
    }

    pub open spec fn unary(self) -> Self
        decreases self.measure(), 11int,
    {
        self.parse(ParsePrecedence::PrecedenceUnary).emit_unary(self.prev.token_type)
    }

    pub open spec fn binary(self) -> Self
        decreases self.measure(), 11int,
    {
        let op = self.prev.token_type;
        self.parse(level_of(level(rule_of(op).precedence) + 1)).emit_binary(op)
    }

    pub open spec fn and_(self) -> Self
        decreases self.measure(), 11int,
    {
        let end_jump = self.next_jump();
        self.emit_jump(OpCode::OpJumpIfFalse).emit_op(OpCode::OpPop).parse(
            ParsePrecedence::PrecedenceAnd,
        ).patch_jump(end_jump)
    }

    pub open spec fn or_(self) -> Self
        decreases self.measure(), 11int,
    {
        let else_jump = self.next_jump();
        let s1 = self.emit_jump(OpCode::OpJumpIfFalse);
        let end_jump = s1.next_jump();
        proof {
            lemma_patch_measure(s1.emit_jump(OpCode::OpJump), else_jump);
        }
        s1.emit_jump(OpCode::OpJump).patch_jump(else_jump).emit_op(OpCode::OpPop).parse(
            ParsePrecedence::PrecedenceOr,
        ).patch_jump(end_jump)
    }

    /// The state after the variable named by `prev` was looked up: an error
    /// is reported where a local is read in its own initializer, and the
    /// name of a global is added to the constants.
    #[verifier::opaque]
    pub open spec fn lookup_variable(self) -> Self {
        match resolve_slot(self.scope, self.prev.raw) {
            Some(slot) => if self.scope.locals[slot].depth == UNINITIALIZED {
                self.error("cannot read local variable in its own initializer"@)
            } else {
                self
            },
            None => self.ident_const(),
        }
    }

    /// Whether the variable named by `prev` is a local.
    #[verifier::opaque]
    pub open spec fn variable_is_local(self) -> bool {
        resolve_slot(self.scope, self.prev.raw) is Some
    }

    /// The operand of the instructions that read and write the variable
    /// named by `prev`: the slot of a local, the constant that names a
    /// global.
    #[verifier::opaque]
    pub open spec fn variable_operand(self) -> u8 {
        match resolve_slot(self.scope, self.prev.raw) {
            Some(slot) => slot as u8,
            None => self.constant_index(),
        }
    }

    pub open spec fn named_variable(self, can_assign: bool) -> Self
        decreases self.measure(), 11int,
    {
        let looked_up = self.lookup_variable();
        let arg = self.variable_operand();
        let local = self.variable_is_local();
        if can_assign && looked_up.curr_is(TokenType::TokenEqual) {
            proof {
                lemma_lookup_measure(self);
                lemma_advance_measure(looked_up);
            }
            looked_up.advance().expression().emit_op_operand(
                if local {
                    OpCode::OpSetLocal
                } else {
                    OpCode::OpSetGlobal
                },
                arg,
            )
        } else {
            looked_up.emit_op_operand(
                if local {
                    OpCode::OpGetLocal
                } else {
                    OpCode::OpGetGlobal
                },
                arg,
            )
        }
    }

    pub open spec fn variable(self, can_assign: bool) -> Self
        decreases self.measure(), 12int,
    {
        self.named_variable(can_assign)
    }

    /// Runs the parsing routine that a rule names.
    pub open spec fn apply(self, f: ParseFn, can_assign: bool) -> Self
        decreases self.measure(), 13int,
    {
        match f {
            ParseFn::Grouping => self.grouping(),
            ParseFn::Unary => self.unary(),
            ParseFn::Binary => self.binary(),
            ParseFn::Variable => self.variable(can_assign),
            ParseFn::String => self.string(),
            ParseFn::Number => self.number(),
            ParseFn::Literal => self.literal(),
            ParseFn::And => self.and_(),
            ParseFn::Or => self.or_(),
        }
    }

    /// Parses an expression whose operators bind at least as tightly as
    /// `precedence`.
    pub open spec fn parse(self, precedence: ParsePrecedence) -> Self
        decreases self.measure(), 4int,
    {
        let s1 = self.advance();
        match rule_of(s1.prev.token_type).prefix {
            None => s1.error("expected expression"@),
            Some(f) => {
                proof {
                    lemma_advance_measure(self);
                }
                let can_assign = level(precedence) <= level(ParsePrecedence::PrecedenceAssignment);
                let s2 = s1.onward(s1.apply(f, can_assign)).infix_loop(precedence);
                if can_assign && s2.curr_is(TokenType::TokenEqual) {
                    s2.advance().error("invalid assignment target"@)
                } else {
                    s2
                }
            },
        }
    }

    /// Parses the operators that continue an expression, and their right
    /// operands, while they bind at least as tightly as `precedence`.
    pub open spec fn infix_loop(self, precedence: ParsePrecedence) -> Self
        decreases self.measure(), 3int,
    {
        if level(precedence) > level(ParsePrecedence::PrecedenceNone) && level(precedence)
            <= level(rule_of(self.curr.token_type).precedence) {
            proof {
                lemma_advance_measure(self);
            }
            let s1 = self.advance();
            let s2 = match rule_of(s1.prev.token_type).infix {
                None => s1.error("expected expression"@),
                Some(f) => s1.onward(s1.apply(f, false)),
            };
            s2.infix_loop(precedence)
        } else {
            self
        }
    }

    pub open spec fn expression(self) -> Self
        decreases self.measure(), 5int,
    {
        self.parse(ParsePrecedence::PrecedenceAssignment)
    }

    // ----- statements -----
    #[verifier::opaque]
    pub open spec fn print_statement(self) -> Self
    {
        self.expression().consume(TokenType::TokenSemicolon, "Expect ';' after value."@).emit_op(
            OpCode::OpPrint,
        )
    }

    #[verifier::opaque]
    pub open spec fn expression_statement(self) -> Self
    {
        self.expression().consume(TokenType::TokenSemicolon, "Expect ';' after value."@).emit_op(
            OpCode::OpPop,
        )
    }

    #[verifier::opaque]
    pub open spec fn var_declaration(self) -> Self
    {
        let global = self.variable_index("Expect variable name"@);
        let s1 = self.parse_variable("Expect variable name"@);
        let s2 = if s1.curr_is(TokenType::TokenEqual) {
            s1.advance().expression()
        } else {
            s1.emit_op(OpCode::OpNil)
        };
        s2.consume(
            TokenType::TokenSemicolon,
            "Expect ';' after variable declaration."@,
        ).define_var(global)
    }

    pub open spec fn if_statement(self) -> Self
        decreases self.measure(), 10int,
    {
        let s1 = self.consume(TokenType::TokenLeftParen, "Expect '(' after 'if'."@);
        proof {
            lemma_consume_measure(self, TokenType::TokenLeftParen, "Expect '(' after 'if'."@);
        }
        let s2 = s1.onward(s1.expression()).consume(
            TokenType::TokenRightParen,
            "Expect ')' after condition."@,
        );
        proof {
            lemma_consume_measure(
                s1.onward(s1.expression()),
                TokenType::TokenRightParen,
                "Expect ')' after condition."@,
            );
        }
        let then_jump = s2.next_jump();
        let s3 = s2.emit_jump(OpCode::OpJumpIfFalse).emit_op(OpCode::OpPop);
        let s4 = s3.onward(s3.statement());
        let else_jump = s4.next_jump();
        proof {
            lemma_patch_measure(s4.emit_jump(OpCode::OpJump), then_jump);
        }
        let s5 = s4.emit_jump(OpCode::OpJump).patch_jump(then_jump).emit_op(OpCode::OpPop);
        let s6 = if s5.curr_is(TokenType::TokenElse) {
            proof {
                lemma_advance_measure(s5);
            }
            s5.advance().statement()
        } else {
            s5
        };
        s6.patch_jump(else_jump)
    }

    pub open spec fn while_statement(self) -> Self
        decreases self.measure(), 10int,
    {
        let loop_start = self.code.len() as int;
        let s1 = self.consume(TokenType::TokenLeftParen, "Expect '(' after 'while'."@);
        proof {
            lemma_consume_measure(self, TokenType::TokenLeftParen, "Expect '(' after 'while'."@);
        }
        let s2 = s1.onward(s1.expression()).consume(
            TokenType::TokenRightParen,
            "Expect ')' after condition."@,
        );
        proof {
            lemma_consume_measure(
                s1.onward(s1.expression()),
                TokenType::TokenRightParen,
                "Expect ')' after condition."@,
            );
        }
        let exit_jump = s2.next_jump();
        s2.emit_jump(OpCode::OpJumpIfFalse).emit_op(OpCode::OpPop).statement().emit_loop(
            loop_start,
        ).patch_jump(exit_jump).emit_op(OpCode::OpPop)
    }

    /// The initializer clause of a `for` statement.
    #[verifier::opaque]
    pub open spec fn for_initializer(self) -> Self
    {
        if self.curr_is(TokenType::TokenSemicolon) {
            self.advance()
        } else if self.curr_is(TokenType::TokenVar) {
            self.advance().var_declaration()
        } else {
            self.expression_statement()
        }
    }

    /// The condition clause of a `for` statement. With
    /// [`ParserView::for_has_condition`], which says whether there is one,
    /// and then the jump that leaves the loop is the last jump emitted.
    #[verifier::opaque]
    pub open spec fn for_condition(self) -> Self
    {
        if self.curr_is(TokenType::TokenSemicolon) {
            self.advance()
        } else {
            self.expression().consume(
                TokenType::TokenSemicolon,
                "Expect ';' after loop condition."@,
            ).emit_jump(OpCode::OpJumpIfFalse).emit_op(OpCode::OpPop)
        }
    }

    pub open spec fn for_has_condition(self) -> bool {
        !self.curr_is(TokenType::TokenSemicolon)
    }

    /// The increment clause of a `for` statement, which runs after the
    /// body: the code jumps over it into the body, and it jumps back to
    /// `loop_start`.
    #[verifier::opaque]
    pub open spec fn for_increment(self, loop_start: int) -> Self
    {
        if self.curr_is(TokenType::TokenRightParen) {
            self.advance()
        } else {
            let body_jump = self.next_jump();
            self.emit_jump(OpCode::OpJump).expression().emit_op(OpCode::OpPop).consume(
                TokenType::TokenRightParen,
                "Expect ')' after for clauses."@,
            ).emit_loop(loop_start).patch_jump(body_jump)
        }
    }

    /// Where the body of a `for` statement jumps back to: the increment
    /// clause if there is one, and the condition otherwise.
    pub open spec fn for_loop_start(self, loop_start: int) -> int {
        if self.curr_is(TokenType::TokenRightParen) {
            loop_start
        } else {
            self.code.len() as int + 3
        }
    }

    pub open spec fn for_statement(self) -> Self
        decreases self.measure(), 10int,
    {
        let opened = self.can_open_scope();
        let s1 = self.open_scope().consume(TokenType::TokenLeftParen, "Expect '(' after 'for'."@);
        proof {
            lemma_consume_measure(
                self.open_scope(),
                TokenType::TokenLeftParen,
                "Expect '(' after 'for'."@,
            );
        }
        let s2 = s1.onward(s1.for_initializer());
        let loop_start = s2.code.len() as int;
        let has_condition = s2.for_has_condition();
        let s3 = s2.onward(s2.for_condition());
        let exit_jump = s3.code.len() - 3;
        let body_start = s3.for_loop_start(loop_start);
        let s4 = s3.onward(s3.for_increment(loop_start));
        let s5 = s4.statement().emit_loop(body_start);
        let s6 = if has_condition {
            s5.patch_jump(exit_jump).emit_op(OpCode::OpPop)
        } else {
            s5
        };
        s6.close_scope(opened)
    }

    /// The declarations of a block, up to the brace that closes it.
    pub open spec fn block_items(self) -> Self
        decreases self.measure(), 9int,
    {
        if !self.curr_is(TokenType::TokenRightBrace) && !self.curr_is(TokenType::TokenEof) {
            let s1 = self.declaration();
            if s1.measure() < self.measure() {
                s1.block_items()
            } else {
                s1
            }
        } else {
            self
        }
    }

    pub open spec fn block(self) -> Self
        decreases self.measure(), 10int,
    {
        self.block_items().consume(TokenType::TokenRightBrace, "Expected '}' after block"@)
    }

    pub open spec fn statement(self) -> Self
        decreases self.measure(), 7int,
    {
        if self.curr_is(TokenType::TokenPrint) {
            proof {
                lemma_advance_measure(self);
            }
            self.advance().print_statement()
        } else if self.curr_is(TokenType::TokenIf) {
            proof {
                lemma_advance_measure(self);
            }
            self.advance().if_statement()
        } else if self.curr_is(TokenType::TokenWhile) {
            proof {
                lemma_advance_measure(self);
            }
            self.advance().while_statement()
        } else if self.curr_is(TokenType::TokenFor) {
            proof {
                lemma_advance_measure(self);
            }
            self.advance().for_statement()
        } else if self.curr_is(TokenType::TokenLeftBrace) {
            proof {
                lemma_advance_measure(self);
            }
            let s1 = self.advance();
            s1.open_scope().block().close_scope(s1.can_open_scope())
        } else {
            self.expression_statement()
        }
    }

    pub open spec fn declaration(self) -> Self
        decreases self.measure(), 8int,
    {
        let s1 = if self.curr_is(TokenType::TokenVar) {
            proof {
                lemma_advance_measure(self);
            }
            self.advance().var_declaration()
        } else {
            self.statement()
        };
        if s1.panic_mode {
            s1.synchronize()
        } else {
            s1
        }
    }

    /// The declarations of a program, up to the end of the source.
    pub open spec fn declarations(self) -> Self
        decreases self.measure(),
    {
        if self.curr_is(TokenType::TokenEof) {
            self.advance()
        } else {
            let s1 = self.declaration();
            if s1.measure() < self.measure() {
                s1.declarations()
            } else {
                s1
            }
        }
    }

    /// A whole program: its declarations, and the instruction that ends
    /// it.
    #[verifier::opaque]
    pub open spec fn program(self) -> Self {
        self.advance().declarations().consume(
            TokenType::TokenEof,
            "Expect end of expression"@,
        ).emit_return()
    }
}

/// Scanning brings the compilation no farther from the end of the source,
/// and leaves nothing but the tokens, the errors and the number values
/// changed.
pub proof fn lemma_scan_measure(s: ParserView)
    ensures
        s.scan().rest.len() <= s.rest.len(),
        s.scan().curr.token_type != TokenType::TokenEof ==> s.scan().rest.len() < s.rest.len(),
        s.scan().code == s.code,
        s.scan().constants == s.constants,
        s.scan().scope == s.scope,
        s.scan().prev == s.prev,
        s.scan().prev_number == s.prev_number,
    decreases s.rest.len(),
{
    reveal(ParserView::scan);
    if s.rest.len() > 0 {
        let t = s.rest[0];
        if t.token_type == TokenType::TokenError {
            let popped = ParserView { curr: t, rest: s.rest.drop_first(), ..s };
            lemma_scan_measure(popped.error_at(t, t.raw));
        }
    }
}

/// Consuming a token brings the compilation closer to the end of the
/// source, unless it is there already.
pub proof fn lemma_advance_measure(s: ParserView)
    ensures
        s.advance().measure() <= s.measure(),
        s.curr.token_type != TokenType::TokenEof ==> s.advance().measure() < s.measure(),
        s.advance().code == s.code,
        s.advance().constants == s.constants,
        s.advance().scope == s.scope,
        s.advance().prev == s.curr,
{
    reveal(ParserView::advance);
    lemma_scan_measure(ParserView { prev: s.curr, prev_number: s.curr_number, ..s });
}

pub proof fn lemma_consume_measure(s: ParserView, t: TokenType, msg: Seq<char>)
    ensures
        s.consume(t, msg).measure() <= s.measure(),
        s.consume(t, msg).code == s.code,
        s.consume(t, msg).constants == s.constants,
        s.consume(t, msg).scope == s.scope,
{
    reveal(ParserView::consume);
    lemma_advance_measure(s);
}

/// Patching a jump changes two bytes of the code, or reports an error, and
/// nothing else.
pub proof fn lemma_patch_measure(s: ParserView, offset: int)
    ensures
        s.patch_jump(offset).measure() == s.measure(),
        s.patch_jump(offset).code.len() == s.code.len(),
        s.patch_jump(offset).scope == s.scope,
        s.patch_jump(offset).constants == s.constants,
{
    reveal(ParserView::patch_jump);
}

pub proof fn lemma_lookup_measure(s: ParserView)
    ensures
        s.lookup_variable().measure() == s.measure(),
        s.lookup_variable().code == s.code,
        s.lookup_variable().scope == s.scope,
{
    reveal(ParserView::lookup_variable);
    reveal(ParserView::make_constant);
}

} // verus!
