use apoloo::compiler::{compile, number_lexemes, Compiler};
use apoloo::lexer::Lexer;
use apoloo::parser::Parser;
use apoloo::parser_rules::{rules, ParseFn, ParsePrecedence};
use apoloo::token::TokenType;
use apoloo::value::ValueRepr;

fn code_of(source: &str, numbers: Vec<u64>) -> Vec<u8> {
    let compilation = compile(source.to_string(), numbers);
    assert!(compilation.ok);
    compilation.code.code
}

#[test]
fn number_lexemes_are_found_in_order() {
    assert_eq!(number_lexemes("print 1 + 2.5 * x3 - \"4\"; // 5\n6".to_string()), vec![
        "1".to_string(),
        "2.5".to_string(),
        "6".to_string(),
    ]);
    assert!(number_lexemes("print nil;".to_string()).is_empty());
}

#[test]
fn every_chunk_ends_with_return() {
    for source in ["", "print 1;", "print", "{", "var a = 1; a = 2;", "@"] {
        let compilation = compile(source.to_string(), vec![1, 2]);
        assert!(compilation.code.code.len() >= 1);
        assert_eq!(*compilation.code.code.last().unwrap(), 0);
    }
}

#[test]
fn print_expression_is_compiled() {
    // print 1 + 2 * 3;
    assert_eq!(code_of("print 1 + 2 * 3;", vec![10, 20, 30]), vec![1, 0, 1, 1, 1, 2, 5, 3, 14, 0]);
    let compilation = compile("print 1 + 2 * 3;".to_string(), vec![10, 20, 30]);
    assert_eq!(compilation.code.values.len(), 3);
    assert!(matches!(compilation.code.values[0].0, ValueRepr::Number(10)));
    assert!(matches!(compilation.code.values[1].0, ValueRepr::Number(20)));
    assert!(matches!(compilation.code.values[2].0, ValueRepr::Number(30)));
}

#[test]
fn binary_operators_are_compiled() {
    assert_eq!(code_of("1 - 2;", vec![0, 0]), vec![1, 0, 1, 1, 4, 15, 0]);
    assert_eq!(code_of("1 / 2;", vec![0, 0]), vec![1, 0, 1, 1, 6, 15, 0]);
    assert_eq!(code_of("1 == 2;", vec![0, 0]), vec![1, 0, 1, 1, 11, 15, 0]);
    assert_eq!(code_of("1 != 2;", vec![0, 0]), vec![1, 0, 1, 1, 11, 10, 15, 0]);
    assert_eq!(code_of("1 > 2;", vec![0, 0]), vec![1, 0, 1, 1, 12, 15, 0]);
    assert_eq!(code_of("1 >= 2;", vec![0, 0]), vec![1, 0, 1, 1, 13, 10, 15, 0]);
    assert_eq!(code_of("1 < 2;", vec![0, 0]), vec![1, 0, 1, 1, 13, 15, 0]);
    assert_eq!(code_of("1 <= 2;", vec![0, 0]), vec![1, 0, 1, 1, 12, 10, 15, 0]);
}

#[test]
fn unary_and_literals_are_compiled() {
    assert_eq!(code_of("-1;", vec![0]), vec![1, 0, 2, 15, 0]);
    assert_eq!(code_of("!true;", vec![]), vec![8, 10, 15, 0]);
    assert_eq!(code_of("nil; false;", vec![]), vec![7, 15, 9, 15, 0]);
}

#[test]
fn global_variable_is_compiled() {
    // var a = 1; a = 2; print a;
    let compilation = compile("var a = 1; a = 2; print a;".to_string(), vec![1, 2]);
    assert!(compilation.ok);
    assert_eq!(compilation.code.code, vec![
        1, 1, 16, 0, // constant 1; define global (name 0)
        1, 3, 18, 2, 15, // constant 3; set global (name 2); pop
        17, 4, 14, // get global (name 4); print
        0,
    ]);
    assert!(matches!(&compilation.code.values[0].0, ValueRepr::String(s) if s == "a"));
    assert!(matches!(&compilation.code.values[2].0, ValueRepr::String(s) if s == "a"));
    assert!(matches!(&compilation.code.values[4].0, ValueRepr::String(s) if s == "a"));
}

#[test]
fn string_constant_loses_its_quotes() {
    let compilation = compile("print \"hi\";".to_string(), vec![]);
    assert!(matches!(&compilation.code.values[0].0, ValueRepr::String(s) if s == "hi"));
    let compilation = compile("print \"\";".to_string(), vec![]);
    assert!(matches!(&compilation.code.values[0].0, ValueRepr::String(s) if s.is_empty()));
}

#[test]
fn block_locals_are_compiled() {
    // { var a = 1; print a; a = 2; }
    assert_eq!(code_of("{ var a = 1; print a; a = 2; }", vec![1, 2]), vec![
        1, 0, // constant 0 stays in slot 0
        21, 0, 14, // get local 0; print
        1, 1, 22, 0, 15, // constant 1; set local 0; pop
        20, 1, // pop the local
        0,
    ]);
    assert_eq!(code_of("{}", vec![]), vec![20, 0, 0]);
}

#[test]
fn if_statement_is_compiled() {
    // if (true) print 1; else print 2;
    assert_eq!(code_of("if (true) print 1; else print 2;", vec![1, 2]), vec![
        8, // true
        19, 0, 7, // jump if false -> 11
        15, 1, 0, 14, // pop; print 1
        23, 0, 4, // jump -> 15
        15, 1, 1, 14, // pop; print 2
        0,
    ]);
    assert_eq!(code_of("if (true) print 1;", vec![1]), vec![
        8, 19, 0, 7, 15, 1, 0, 14, 23, 0, 1, 15, 0,
    ]);
}

#[test]
fn while_statement_is_compiled() {
    // while (false) print 1;
    assert_eq!(code_of("while (false) print 1;", vec![1]), vec![
        9, // false
        19, 0, 7, // jump if false -> 11
        15, 1, 0, 14, // pop; print 1
        24, 0, 11, // loop -> 0
        15, // pop
        0,
    ]);
}

#[test]
fn for_statement_is_compiled() {
    // for (var i = 0; i < 1; i = 2) print i;
    assert_eq!(code_of("for (var i = 0; i < 1; i = 2) print i;", vec![0, 1, 2]), vec![
        1, 0, // var i = 0 (slot 0)
        21, 0, 1, 1, 13, // i < 1
        19, 0, 18, // jump if false -> 28
        15, // pop
        23, 0, 8, // jump to the body -> 22
        1, 2, 22, 0, 15, // i = 2; pop
        24, 0, 20, // loop -> 2
        21, 0, 14, // print i
        24, 0, 14, // loop -> 14
        15, // pop
        20, 1, // pop the local
        0,
    ]);
    // for (;;) print 1; jumps back to its start
    assert_eq!(code_of("for (;;) print 1;", vec![1]), vec![1, 0, 14, 24, 0, 6, 20, 0, 0]);
}

#[test]
fn and_or_are_compiled() {
    assert_eq!(code_of("true and false;", vec![]), vec![8, 19, 0, 2, 15, 9, 15, 0]);
    assert_eq!(code_of("true or false;", vec![]), vec![8, 19, 0, 3, 23, 0, 2, 15, 9, 15, 0]);
}

#[test]
fn rule_table_names_the_routines() {
    let table = rules();
    assert_eq!(table.len(), 40);
    let minus = table[TokenType::TokenMinus.index()];
    assert_eq!(minus.prefix, Some(ParseFn::Unary));
    assert_eq!(minus.infix, Some(ParseFn::Binary));
    assert_eq!(minus.precedence, ParsePrecedence::PrecedenceTerm);
    let and = table[TokenType::TokenAnd.index()];
    assert_eq!(and.prefix, None);
    assert_eq!(and.infix, Some(ParseFn::And));
    assert_eq!(and.precedence, ParsePrecedence::PrecedenceAnd);
    let or = table[TokenType::TokenOr.index()];
    assert_eq!(or.infix, Some(ParseFn::Or));
    assert_eq!(or.precedence, ParsePrecedence::PrecedenceOr);
    let eof = table[TokenType::TokenEof.index()];
    assert_eq!(eof.prefix, None);
    assert_eq!(eof.infix, None);
    assert_eq!(eof.precedence, ParsePrecedence::PrecedenceNone);
    let star = table[TokenType::TokenStar.index()];
    assert_eq!(star.precedence, ParsePrecedence::PrecedenceFactor);
    let less = table[TokenType::TokenLess.index()];
    assert_eq!(less.precedence, ParsePrecedence::PrecedenceComparison);
    let ident = table[TokenType::TokenIdentifier.index()];
    assert_eq!(ident.prefix, Some(ParseFn::Variable));
}

#[test]
fn precedence_levels_are_ranked() {
    assert_eq!(ParsePrecedence::PrecedenceNone.to_u8(), 1);
    assert_eq!(ParsePrecedence::PrecedencePrimary.to_u8(), 11);
    for rank in 1..=11u8 {
        assert_eq!(ParsePrecedence::from_u8(rank).to_u8(), rank);
    }
    assert_eq!(ParsePrecedence::PrecedenceTerm.add(1), ParsePrecedence::PrecedenceFactor);
    assert_eq!(ParsePrecedence::PrecedenceAssignment.add(2), ParsePrecedence::PrecedenceAnd);
    assert_eq!(ParsePrecedence::PrecedenceUnary.add(0), ParsePrecedence::PrecedenceUnary);
}

#[test]
fn parser_routines_can_be_driven_by_hand() {
    let mut parser = Parser::new(Lexer::new("1 + 2".to_string()), vec![7, 8]);
    parser.advance();
    parser.expression();
    assert!(!parser.had_error);
    assert_eq!(parser.codegen.bytecodes.code, vec![1, 0, 1, 1, 3]);
    assert_eq!(parser.curr_tok_type(), TokenType::TokenEof);
    assert_eq!(parser.prev_tok_type(), TokenType::TokenNumber);
    parser.consume(&TokenType::TokenSemicolon, "Expect ';' after value.");
    assert!(parser.had_error);
    assert!(parser.panic_mode);
    assert_eq!(parser.diagnostics.len(), 1);
    assert_eq!(parser.diagnostics[0].line, 1);
    assert_eq!(parser.diagnostics[0].location, " at end");
    assert_eq!(parser.diagnostics[0].message, "Expect ';' after value.");
    assert_eq!(parser.diagnostics[0].to_string(), "[line 1] Error at end: Expect ';' after value.");
    parser.error("again");
    assert_eq!(parser.diagnostics.len(), 1);
    parser.synchronize();
    assert!(!parser.panic_mode);
    assert!(parser.had_error);
}

#[test]
fn synchronize_stops_after_a_semicolon_or_before_a_statement() {
    let mut parser = Parser::new(Lexer::new("1 2 ; 3 print 4".to_string()), vec![]);
    parser.advance();
    parser.synchronize();
    assert_eq!(parser.prev_tok_type(), TokenType::TokenSemicolon);
    assert_eq!(parser.curr_tok.raw, "3");
    parser.advance();
    parser.synchronize();
    assert_eq!(parser.curr_tok_type(), TokenType::TokenPrint);
}

#[test]
fn match_advance_consumes_only_the_expected_kind() {
    let mut parser = Parser::new(Lexer::new("var x".to_string()), vec![]);
    parser.advance();
    assert!(!parser.match_advance(&TokenType::TokenPrint));
    assert_eq!(parser.curr_tok_type(), TokenType::TokenVar);
    assert!(parser.match_advance(&TokenType::TokenVar));
    assert_eq!(parser.curr_tok_type(), TokenType::TokenIdentifier);
    assert_eq!(parser.prev_tok_type(), TokenType::TokenVar);
}

#[test]
fn new_compiler_is_empty() {
    let compiler = Compiler::new();
    assert!(matches!(compiler.function, ValueRepr::Nil()));
    assert_eq!(compiler.scope.scope_depth, 0);
    assert!(compiler.scope.locals.is_empty());
    assert!(compiler.codegen.bytecodes.code.is_empty());
    assert!(compiler.codegen.bytecodes.values.is_empty());
}

fn decode_ends_at_the_end(code: &[u8]) {
    let mut chunk = apoloo::bytecodes::Bytecodes::new();
    for byte in code {
        chunk.write(*byte);
    }
    let mut starts = Vec::new();
    let mut offset = 0;
    while offset < code.len() {
        starts.push(offset);
        offset = apoloo::debug::next_instruction(&chunk, offset);
    }
    assert_eq!(offset, code.len());
    assert_eq!(*starts.last().unwrap(), code.len() - 1);
    assert_eq!(code[code.len() - 1], 0);
    for start in &starts {
        let op = code[*start];
        assert!(op != 0 || *start == code.len() - 1);
        if op == 19 || op == 23 || op == 24 {
            let target = apoloo::debug::jump_target(&chunk, *start, op == 24).unwrap();
            assert!(target <= code.len() - 1);
            assert!(starts.contains(&target));
        }
    }
}

#[test]
fn compiled_code_is_a_row_of_instructions_that_ends_with_return() {
    let sources = [
        "",
        "print 1 + 2 * 3;",
        "var a = 1; { var b = a; a = b; }",
        "if (true) print 1; else print 2;",
        "if (nil) {}",
        "var x = 0; while (x < 3) { print x; x = x + 1; }",
        "for (var i = 0; i < 3; i = i + 1) print i;",
        "for (;;) {}",
        "for (;false;) 1;",
        "print nil or 1 and 2;",
        "while (true) if (false) while (nil) 1;",
    ];
    for source in sources {
        let numbers = vec![0; 8];
        let compilation = compile(source.to_string(), numbers);
        assert!(compilation.ok, "{}", source);
        decode_ends_at_the_end(&compilation.code.code);
    }
}

#[test]
fn a_second_local_of_one_name_is_refused() {
    let mut parser = Parser::new(Lexer::new("a a b".to_string()), vec![]);
    parser.scope.begin_scope();
    parser.advance();
    parser.advance();
    let first = parser.prev_tok.clone();
    parser.add_local(&first);
    assert!(!parser.had_error);
    assert_eq!(parser.scope.locals.len(), 1);
    assert_eq!(parser.scope.locals[0].name, "a");
    assert_eq!(parser.scope.locals[0].depth, -1);
    parser.scope.mark_initialized();
    parser.add_local(&first);
    assert!(parser.had_error);
    assert_eq!(parser.scope.locals.len(), 1);
    assert_eq!(parser.diagnostics.len(), 1);
    assert_eq!(
        parser.diagnostics[0].message,
        "already a variable with this name in this scope"
    );
    // While the compiler recovers from an error nothing more is recorded,
    // and the error stays on record.
    parser.add_local(&first);
    assert!(parser.had_error);
    assert_eq!(parser.scope.locals.len(), 1);
    assert_eq!(parser.diagnostics.len(), 1);
    parser.advance();
    parser.advance();
    let other = parser.prev_tok.clone();
    assert_eq!(other.raw, "b");
    parser.add_local(&other);
    assert_eq!(parser.scope.locals.len(), 2);
    assert_eq!(parser.scope.locals[1].name, "b");
}

#[test]
fn locals_can_be_declared_one_after_another() {
    let mut parser = Parser::new(Lexer::new("a b".to_string()), vec![]);
    parser.scope.begin_scope();
    parser.advance();
    parser.advance();
    let a = parser.prev_tok.clone();
    parser.advance();
    let b = parser.prev_tok.clone();
    parser.add_local(&a);
    parser.add_local(&b);
    parser.add_local(&a);
    assert!(parser.had_error);
    assert_eq!(parser.scope.locals.len(), 2);
    assert_eq!(parser.scope.locals[0].name, "a");
    assert_eq!(parser.scope.locals[0].depth, -1);
    assert_eq!(parser.scope.locals[1].name, "b");
    assert_eq!(parser.scope.locals[1].depth, -1);
}

#[test]
fn precedence_levels_are_ordered() {
    assert!(ParsePrecedence::PrecedenceNone < ParsePrecedence::PrecedenceAssignment);
    assert!(ParsePrecedence::PrecedenceAssignment < ParsePrecedence::PrecedenceOr);
    assert!(ParsePrecedence::PrecedenceOr < ParsePrecedence::PrecedenceAnd);
    assert!(ParsePrecedence::PrecedenceTerm < ParsePrecedence::PrecedenceFactor);
    assert!(ParsePrecedence::PrecedenceCall < ParsePrecedence::PrecedencePrimary);
    assert!(!(ParsePrecedence::PrecedenceUnary < ParsePrecedence::PrecedenceUnary));
    for low in 1..=11u8 {
        for high in 1..=11u8 {
            assert_eq!(
                ParsePrecedence::from_u8(low) < ParsePrecedence::from_u8(high),
                low < high
            );
        }
    }
}
