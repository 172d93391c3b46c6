//! Compiling a source text into a chunk.

use vstd::prelude::*;
use vstd::utf8::encode_utf8;
use crate::balance::{
    after,
    balanced,
    decodes,
    final_height,
    lemma_balanced_decodes,
    lemma_run_keeps_height,
    lemma_typed_transport,
    typed_within,
    Heights,
};
use crate::machine::StepView;
use crate::vm::InterpretResult;
use crate::localscope::ScopeView;
use crate::machine::MachineView;
use crate::typing::{
    grows,
    lemma_advance_frame,
    lemma_consume_frame,
    lemma_grows_nothing,
    lemma_grows_then,
    top,
};
use crate::typing_stmt::{declaration_marks, lemma_declarations};
use crate::bytecodes::Bytecodes;
use crate::codegen::{Codegen, MAX_CONSTANTS};
use crate::grammar::ParserView;
use crate::lexer::{lemma_next_token_progress, tokens_from, Cursor, Lexer};
use crate::localscope::{LocalScope, LocalView};
use crate::opcode::{opcode_byte, OpCode};
use crate::parser::{Diagnostic, Parser};
use crate::token::{TokenType, TokenView};
use crate::value::{ValueRepr, ValueView};

verus! {

pub struct Compiler {
    pub function: ValueRepr,
    pub scope: LocalScope,
    pub codegen: Codegen,
}

pub struct CompilerScope {}

impl Compiler {
    pub fn new() -> (r: Self)
        ensures
            r.function@ == ValueView::Nil,
            r.scope.wf(),
            r.scope@.scope_depth == 0,
            r.scope@.locals == Seq::<LocalView>::empty(),
            r.codegen.code() == Seq::<u8>::empty(),
            r.codegen.constants() == Seq::<ValueView>::empty(),
    {
        Self { function: ValueRepr::Nil(), scope: LocalScope::new(), codegen: Codegen::new() }
    }
}

/// What compiling a source gives: the chunk, whether the source was free of
/// errors, and the errors that were found. Where `ok` is false the chunk
/// must not be run.
pub struct Compilation {
    pub code: Bytecodes,
    pub ok: bool,
    pub diagnostics: Vec<Diagnostic>,
}

/// The tokens of a source text, the first `TokenEof` included.
pub open spec fn tokens_of(source: Seq<char>) -> Seq<TokenView> {
    tokens_from(encode_utf8(source), Cursor { pos: 0, line: 1, col: 0 })
}

/// The state in which the compilation of a source ends, given the values
/// of its number literals.
pub open spec fn compiled(source: Seq<char>, numbers: Seq<u64>) -> ParserView {
    ParserView::start(tokens_of(source), numbers).program()
}

/// A compiled program ends with the instruction that ends a program.
pub proof fn lemma_program_ends_with_return(s: ParserView)
    ensures
        s.program().code.len() >= 1,
        s.program().code.last() == opcode_byte(OpCode::OpReturn),
{
    reveal(ParserView::program);
}

/// The offsets in the code of a compiled program at which its declarations
/// start, and the offset at which the last one ends.
pub open spec fn program_marks(source: Seq<char>, numbers: Seq<u64>) -> Set<int> {
    declaration_marks(ParserView::start(tokens_of(source), numbers).advance())
}

/// A program that compiles without an error is balanced: its code keeps to
/// an assignment of stack heights in which the stack is empty at the start
/// of the program, between any two of its declarations, and at the
/// instruction that ends the program.
pub proof fn lemma_compiled_chunk_is_balanced(source: Seq<char>, numbers: Seq<u64>) -> (h: Heights)
    requires
        !compiled(source, numbers).had_error,
    ensures
        balanced(compiled(source, numbers).code, h),
        h[0] == Some(0int),
        final_height(compiled(source, numbers).code, h) == 0,
        forall|mark: int| #[trigger]
            program_marks(source, numbers).contains(mark) ==> 0 <= mark < h.len() && h[mark]
                == Some(0int),
{
    reveal(ParserView::program);
    reveal(grows);
    let s0 = ParserView::start(tokens_of(source), numbers);
    let h0: Heights = seq![Some(0int)];
    assert(s0.scope.wf() && s0.scope.settled()) by {
        reveal(ScopeView::wf);
        reveal(ScopeView::settled);
    }
    lemma_advance_frame(s0);
    let s1 = s0.advance();
    let h2 = lemma_declarations(s1, h0);
    let s2 = s1.declarations();
    lemma_consume_frame(s2, TokenType::TokenEof, "Expect end of expression"@);
    let s3 = s2.consume(TokenType::TokenEof, "Expect end of expression"@);
    let s4 = s3.emit_return();
    let h4 = h2.push(Some(top(h2)));
    lemma_grows_nothing(s0, h0, s1);
    lemma_grows_then(s0, h0, s1, h0, 0, s2, h2, s2.scope.locals.len() - s1.scope.locals.len());
    lemma_grows_nothing(s2, h2, s3);
    lemma_grows_then(s0, h0, s2, h2, s2.scope.locals.len() - s1.scope.locals.len(), s3, h2, 0);
    let end = s3.code.len() as int;
    assert forall|pc: int| 0 <= pc < end && (#[trigger] h4[pc]) is Some implies typed_within(
        s4.code,
        h4,
        pc,
        0,
        end,
    ) by {
        assert(h2[pc] == h4[pc]);
        assert(typed_within(s3.code, h2, pc, 0, end));
        lemma_typed_transport(s3.code, h2, s4.code, h4, pc, 0, end);
    }
    assert(h4[0] == h2[0]);
    assert(h4[end] == h2[end]);
    assert forall|mark: int| #[trigger]
        program_marks(source, numbers).contains(mark) implies 0 <= mark < h4.len() && h4[mark]
        == Some(0int) by {
        assert(h4[mark] == h2[mark]);
    }
    h4
}

/// The code of a program that compiles without an error is a row of whole
/// instructions from its first byte to its last.
pub proof fn lemma_compiled_chunk_decodes(source: Seq<char>, numbers: Seq<u64>)
    requires
        !compiled(source, numbers).had_error,
    ensures
        decodes(compiled(source, numbers).code, 0),
{
    let h = lemma_compiled_chunk_is_balanced(source, numbers);
    lemma_balanced_decodes(compiled(source, numbers).code, h, 0);
}

/// Every declaration of a program leaves the stack as high as it found it:
/// in a run of a program that compiled without an error, the stack is
/// empty whenever the run is about to start a declaration or has finished
/// the last one, as it was before the first. This holds as long as no
/// runtime error ends the run, whatever the host answers to the arithmetic
/// instructions.
pub proof fn lemma_declarations_restore_the_stack(
    source: Seq<char>,
    numbers: Seq<u64>,
    m: MachineView,
    answers: spec_fn(nat) -> u64,
    n: nat,
)
    requires
        !compiled(source, numbers).had_error,
        m.code == compiled(source, numbers).code,
        m.ip == 0,
        m.stack.len() == 0,
        !(after(m, answers, n).1 is Done),
        program_marks(source, numbers).contains(after(m, answers, n).0.ip),
    ensures
        after(m, answers, n).0.stack.len() == 0,
{
    let h = lemma_compiled_chunk_is_balanced(source, numbers);
    lemma_run_keeps_height(m, h, answers, n);
}

/// A run of a program that compiled without an error, started with an
/// empty stack, ends with success only on the instruction that ends the
/// program, which is the last byte of the chunk, and leaves the stack as
/// empty as it found it.
pub proof fn lemma_successful_run_restores_the_stack(
    source: Seq<char>,
    numbers: Seq<u64>,
    m: MachineView,
    answers: spec_fn(nat) -> u64,
    n: nat,
)
    requires
        !compiled(source, numbers).had_error,
        m.code == compiled(source, numbers).code,
        m.ip == 0,
        m.stack.len() == 0,
        after(m, answers, n).1 == StepView::Done(InterpretResult::InterpretOk),
    ensures
        after(m, answers, n).0.stack.len() == 0,
        after(m, answers, n).0.ip == m.code.len(),
{
    let h = lemma_compiled_chunk_is_balanced(source, numbers);
    lemma_run_keeps_height(m, h, answers, n);
}

/// A machine that is loaded with a program which compiled without an
/// error leaves the stack empty after every successful run, whatever it
/// held before the program was loaded: loading empties the stack, and
/// every declaration leaves it as it found it.
pub proof fn lemma_loaded_run_restores_the_stack(
    source: Seq<char>,
    numbers: Seq<u64>,
    machine: MachineView,
    answers: spec_fn(nat) -> u64,
    n: nat,
)
    requires
        !compiled(source, numbers).had_error,
    ensures
        ({
            let loaded = machine.load(
                compiled(source, numbers).code,
                compiled(source, numbers).constants,
            );
            after(loaded, answers, n).1 == StepView::Done(InterpretResult::InterpretOk) ==> after(
                loaded,
                answers,
                n,
            ).0.stack.len() == 0
        }),
{
    let loaded = machine.load(compiled(source, numbers).code, compiled(source, numbers).constants);
    if after(loaded, answers, n).1 == StepView::Done(InterpretResult::InterpretOk) {
        lemma_successful_run_restores_the_stack(source, numbers, loaded, answers, n);
    }
}

/// The texts of the number literals among the tokens, in order.
pub open spec fn number_texts(tokens: Seq<TokenView>) -> Seq<Seq<char>>
    decreases tokens.len(),
{
    if tokens.len() == 0 {
        Seq::empty()
    } else if tokens[0].token_type == TokenType::TokenNumber {
        seq![tokens[0].raw] + number_texts(tokens.drop_first())
    } else {
        number_texts(tokens.drop_first())
    }
}

/// The views of a sequence of texts.
pub open spec fn texts(v: Seq<String>) -> Seq<Seq<char>> {
    v.map_values(|s: String| s@)
}

/// The texts of the number literals of a source, in the order in which
/// they occur. [`compile`] expects the value of each.
pub fn number_lexemes(input: String) -> (r: Vec<String>)
    ensures
        texts(r@) == number_texts(tokens_of(input@)),
{
    let mut lex = Lexer::new(input);
    let mut found: Vec<String> = Vec::new();
    let ghost source = lex.source();
    let ghost all = tokens_from(source, lex.cursor());
    assert(texts(found@) =~= Seq::<Seq<char>>::empty());
    loop
        invariant
            lex.source() == source,
            all == tokens_of(input@),
            texts(found@) + number_texts(tokens_from(source, lex.cursor())) == number_texts(all),
        decreases lex.source().len() - lex.cursor().pos,
    {
        let ghost from = lex.cursor();
        let ghost before = texts(found@);
        let budget = lex.remaining();
        let tok = lex.scan_next();
        proof {
            lemma_next_token_progress(source, from);
            let rest = tokens_from(source, from);
            assert(rest[0] == tok@);
            if tok@.token_type == TokenType::TokenEof {
                assert(rest.drop_first() =~= Seq::<TokenView>::empty());
                assert(number_texts(rest.drop_first()) =~= Seq::<Seq<char>>::empty());
            } else {
                assert(rest.drop_first() =~= tokens_from(source, lex.cursor()));
            }
        }
        if tok.is(TokenType::TokenEof) {
            proof {
                assert(texts(found@) + Seq::<Seq<char>>::empty() =~= texts(found@));
            }
            return found;
        }
        if tok.is(TokenType::TokenNumber) {
            found.push(tok.raw);
            proof {
                assert(texts(found@) =~= before.push(tok@.raw));
                assert(before.push(tok@.raw) + number_texts(tokens_from(source, lex.cursor()))
                    =~= before + (seq![tok@.raw] + number_texts(
                    tokens_from(source, lex.cursor()),
                )));
            }
        }
    }
}

/// Compiles a source into a chunk. `numbers` holds the values of the
/// number literals of the source as IEEE-754 binary64 bit patterns, in the
/// order of [`number_lexemes`]; a literal without a value counts as zero.
///
/// The chunk ends with the instruction that ends a program.
pub fn compile(input: String, numbers: Vec<u64>) -> (r: Compilation)
    ensures
        r.code.code@ == compiled(input@, numbers@).code,
        r.code.constants() == compiled(input@, numbers@).constants,
        r.ok == !compiled(input@, numbers@).had_error,
        r.diagnostics@.map_values(|d: Diagnostic| d@) == compiled(input@, numbers@).diagnostics,
        r.code.code@.len() >= 1,
        r.code.code@.last() == opcode_byte(OpCode::OpReturn),
        r.code.constants().len() <= MAX_CONSTANTS,
        r.ok ==> decodes(r.code.code@, 0),
        r.ok ==> exists|h: Heights|
            balanced(r.code.code@, h) && h[0] == Some(0int) && final_height(r.code.code@, h) == 0,
{
    let mut parser = Parser::new(Lexer::new(input), numbers);
    parser.program();
    proof {
        lemma_program_ends_with_return(ParserView::start(tokens_of(input@), numbers@));
        if !parser@.had_error {
            let h = lemma_compiled_chunk_is_balanced(input@, numbers@);
            lemma_balanced_decodes(parser@.code, h, 0);
            assert(balanced(parser@.code, h) && h[0] == Some(0int) && final_height(
                parser@.code,
                h,
            ) == 0);
        }
    }
    Compilation {
        code: parser.codegen.bytecodes,
        ok: !parser.had_error,
        diagnostics: parser.diagnostics,
    }
}

} // verus!
