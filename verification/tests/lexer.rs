use apoloo::helpers::{
    bytes_equal, bytes_less, bytes_to_text, decimal_text, digits_text, is_alpha, is_alpha_num,
    is_digit, str_equal,
};
use apoloo::lexer::Lexer;
use apoloo::token::{keyword_of, kw_type_from_str, Token, TokenType};

fn scan_all(source: &str) -> Vec<Token> {
    let mut lexer = Lexer::new(source.to_string());
    let mut tokens = Vec::new();
    loop {
        let token = lexer.scan_next();
        let done = token.is(TokenType::TokenEof);
        tokens.push(token);
        if done {
            return tokens;
        }
        assert!(tokens.len() < 10_000);
    }
}

fn kinds(source: &str) -> Vec<TokenType> {
    scan_all(source).iter().map(|t| t.token_type).collect()
}

fn lexemes(source: &str) -> Vec<String> {
    scan_all(source).iter().map(|t| t.raw.clone()).collect()
}

#[test]
fn punctuation_is_scanned() {
    assert_eq!(kinds("( ) { } , . - + ; / *"), vec![
        TokenType::TokenLeftParen,
        TokenType::TokenRightParen,
        TokenType::TokenLeftBrace,
        TokenType::TokenRightBrace,
        TokenType::TokenComma,
        TokenType::TokenDot,
        TokenType::TokenMinus,
        TokenType::TokenPlus,
        TokenType::TokenSemicolon,
        TokenType::TokenSlash,
        TokenType::TokenStar,
        TokenType::TokenEof,
    ]);
}

#[test]
fn operators_of_one_or_two_characters_are_scanned() {
    assert_eq!(kinds("! != = == > >= < <="), vec![
        TokenType::TokenBang,
        TokenType::TokenBangEqual,
        TokenType::TokenEqual,
        TokenType::TokenEqualEqual,
        TokenType::TokenGreater,
        TokenType::TokenGreaterEqual,
        TokenType::TokenLess,
        TokenType::TokenLessEqual,
        TokenType::TokenEof,
    ]);
    assert_eq!(kinds("!===<==>"), vec![
        TokenType::TokenBangEqual,
        TokenType::TokenEqualEqual,
        TokenType::TokenLessEqual,
        TokenType::TokenEqual,
        TokenType::TokenGreater,
        TokenType::TokenEof,
    ]);
}

#[test]
fn keywords_are_recognised() {
    assert_eq!(
        kinds("and class else false for fun if nil or print return super this true var while"),
        vec![
            TokenType::TokenAnd,
            TokenType::TokenClass,
            TokenType::TokenElse,
            TokenType::TokenFalse,
            TokenType::TokenFor,
            TokenType::TokenFun,
            TokenType::TokenIf,
            TokenType::TokenNil,
            TokenType::TokenOr,
            TokenType::TokenPrint,
            TokenType::TokenReturn,
            TokenType::TokenSuper,
            TokenType::TokenThis,
            TokenType::TokenTrue,
            TokenType::TokenVar,
            TokenType::TokenWhile,
            TokenType::TokenEof,
        ]
    );
}

#[test]
fn identifiers_are_not_keywords() {
    assert_eq!(kinds("andy _var var_ If x1 nil0"), vec![
        TokenType::TokenIdentifier,
        TokenType::TokenIdentifier,
        TokenType::TokenIdentifier,
        TokenType::TokenIdentifier,
        TokenType::TokenIdentifier,
        TokenType::TokenIdentifier,
        TokenType::TokenEof,
    ]);
    assert_eq!(lexemes("andy _var x1"), vec!["andy", "_var", "x1", ""]);
}

#[test]
fn kw_type_from_str_maps_words() {
    assert_eq!(kw_type_from_str("and"), TokenType::TokenAnd);
    assert_eq!(kw_type_from_str("class"), TokenType::TokenClass);
    assert_eq!(kw_type_from_str("else"), TokenType::TokenElse);
    assert_eq!(kw_type_from_str("if"), TokenType::TokenIf);
    assert_eq!(kw_type_from_str("nil"), TokenType::TokenNil);
    assert_eq!(kw_type_from_str("or"), TokenType::TokenOr);
    assert_eq!(kw_type_from_str("print"), TokenType::TokenPrint);
    assert_eq!(kw_type_from_str("return"), TokenType::TokenReturn);
    assert_eq!(kw_type_from_str("super"), TokenType::TokenSuper);
    assert_eq!(kw_type_from_str("var"), TokenType::TokenVar);
    assert_eq!(kw_type_from_str("while"), TokenType::TokenWhile);
    assert_eq!(kw_type_from_str("false"), TokenType::TokenFalse);
    assert_eq!(kw_type_from_str("for"), TokenType::TokenFor);
    assert_eq!(kw_type_from_str("fun"), TokenType::TokenFun);
    assert_eq!(kw_type_from_str("this"), TokenType::TokenThis);
    assert_eq!(kw_type_from_str("true"), TokenType::TokenTrue);
    assert_eq!(kw_type_from_str("truth"), TokenType::TokenIdentifier);
    assert_eq!(kw_type_from_str(""), TokenType::TokenIdentifier);
    assert_eq!(kw_type_from_str("AND"), TokenType::TokenIdentifier);
    assert_eq!(keyword_of(b"while"), TokenType::TokenWhile);
    assert_eq!(keyword_of(&[0xff, 0xfe]), TokenType::TokenIdentifier);
}

#[test]
fn numbers_are_scanned() {
    assert_eq!(lexemes("1 23 4.5 0.125 6. .7 8.9.0"), vec![
        "1", "23", "4.5", "0.125", "6", ".", ".", "7", "8.9", ".", "0", "",
    ]);
    assert_eq!(kinds("6. 1.5"), vec![
        TokenType::TokenNumber,
        TokenType::TokenDot,
        TokenType::TokenNumber,
        TokenType::TokenEof,
    ]);
    assert_eq!(kinds("-1"), vec![TokenType::TokenMinus, TokenType::TokenNumber, TokenType::TokenEof]);
    assert_eq!(lexemes("12abc"), vec!["12", "abc", ""]);
}

#[test]
fn strings_are_scanned_with_their_quotes() {
    let tokens = scan_all("\"hi there\" \"\" \"a\\n\"");
    assert_eq!(tokens[0].token_type, TokenType::TokenString);
    assert_eq!(tokens[0].raw, "\"hi there\"");
    assert_eq!(tokens[1].raw, "\"\"");
    assert_eq!(tokens[2].raw, "\"a\\n\"");
    assert_eq!(tokens[3].token_type, TokenType::TokenEof);
}

#[test]
fn strings_hold_any_text() {
    let tokens = scan_all("\"h\u{e9}llo \u{4e16}\u{754c} // no comment\" x");
    assert_eq!(tokens[0].token_type, TokenType::TokenString);
    assert_eq!(tokens[0].raw, "\"h\u{e9}llo \u{4e16}\u{754c} // no comment\"");
    assert_eq!(tokens[1].raw, "x");
}

#[test]
fn newline_in_a_string_counts_as_a_line() {
    let tokens = scan_all("\"a\nb\" c");
    assert_eq!(tokens[0].token_type, TokenType::TokenString);
    assert_eq!(tokens[0].raw, "\"a\nb\"");
    assert_eq!(tokens[0].line, 2);
    assert_eq!(tokens[0].col, 0);
    assert_eq!(tokens[1].line, 2);
    assert_eq!(tokens[1].col, 3);
}

#[test]
fn unterminated_string_is_an_error_token() {
    let tokens = scan_all("x \"abc\ndef");
    assert_eq!(tokens[1].token_type, TokenType::TokenError);
    assert_eq!(tokens[1].raw, "unterminated string");
    assert_eq!(tokens[1].line, 2);
    assert_eq!(tokens[2].token_type, TokenType::TokenEof);
}

#[test]
fn unexpected_byte_is_an_error_token() {
    let tokens = scan_all("a # b");
    assert_eq!(tokens[1].token_type, TokenType::TokenError);
    assert_eq!(tokens[1].raw, "unexpected character #");
    assert_eq!(tokens[1].col, 2);
    assert_eq!(tokens[2].raw, "b");
    let tokens = scan_all("a \u{e9} b");
    assert_eq!(tokens[1].token_type, TokenType::TokenError);
    assert_eq!(tokens[1].raw, "unexpected character \u{c3}");
    assert_eq!(tokens[2].token_type, TokenType::TokenError);
    assert_eq!(tokens[2].raw, "unexpected character \u{a9}");
    assert_eq!(tokens[3].raw, "b");
}

#[test]
fn comments_run_to_the_end_of_the_line() {
    assert_eq!(lexemes("a // b c\nd / e //"), vec!["a", "d", "/", "e", ""]);
    assert_eq!(kinds("// only a comment"), vec![TokenType::TokenEof]);
}

#[test]
fn lines_and_columns_are_tracked() {
    let tokens = scan_all("var x = 1;\n  print x;\r\n\tx");
    let places: Vec<(i64, i64)> = tokens.iter().map(|t| (t.line, t.col)).collect();
    assert_eq!(places, vec![
        (1, 0),
        (1, 4),
        (1, 6),
        (1, 8),
        (1, 9),
        (2, 2),
        (2, 8),
        (2, 9),
        (3, 1),
        (3, 2),
    ]);
}

#[test]
fn the_source_is_scanned_as_it_is_given() {
    let tokens = scan_all("\n\nx");
    assert_eq!(tokens[0].token_type, TokenType::TokenIdentifier);
    assert_eq!(tokens[0].raw, "x");
    assert_eq!(tokens[0].line, 3);
    assert_eq!(tokens[0].col, 0);
    let tokens = scan_all("  print\n\n");
    assert_eq!(tokens[0].token_type, TokenType::TokenPrint);
    assert_eq!(tokens[0].line, 1);
    assert_eq!(tokens[0].col, 2);
    assert_eq!(tokens[1].token_type, TokenType::TokenEof);
    assert_eq!(tokens[1].line, 3);
    assert_eq!(tokens[1].col, 0);
}

#[test]
fn other_white_space_is_no_blank() {
    let tokens = scan_all("\u{c}x");
    assert_eq!(tokens[0].token_type, TokenType::TokenError);
    assert_eq!(tokens[0].raw, "unexpected character \u{c}");
    assert_eq!(tokens[1].raw, "x");
    let tokens = scan_all("x\u{b}");
    assert_eq!(tokens[1].token_type, TokenType::TokenError);
    let kinds_of = |source: &str| -> Vec<TokenType> { kinds(source) };
    assert_eq!(kinds_of("\u{a0}x"), vec![
        TokenType::TokenError,
        TokenType::TokenError,
        TokenType::TokenIdentifier,
        TokenType::TokenEof,
    ]);
    assert_eq!(kinds_of("x\u{2003}"), vec![
        TokenType::TokenIdentifier,
        TokenType::TokenError,
        TokenType::TokenError,
        TokenType::TokenError,
        TokenType::TokenEof,
    ]);
}

#[test]
fn end_of_source_is_reported_again_and_again() {
    let mut lexer = Lexer::new("a".to_string());
    assert_eq!(lexer.scan_next().token_type, TokenType::TokenIdentifier);
    for _ in 0..3 {
        let token = lexer.scan_next();
        assert_eq!(token.token_type, TokenType::TokenEof);
        assert_eq!(token.raw, "");
        assert_eq!(token.line, 1);
        assert_eq!(token.col, 1);
    }
    assert_eq!(lexer.remaining(), 0);
}

#[test]
fn scanner_over_bytes_keeps_them_as_they_are() {
    let mut lexer = Lexer::from_bytes(b"\n x".to_vec());
    assert_eq!(lexer.remaining(), 3);
    let token = lexer.scan_next();
    assert_eq!(token.raw, "x");
    assert_eq!(token.line, 2);
    assert_eq!(token.col, 1);
}

#[test]
fn token_is_compares_kinds() {
    let token = Token::new(TokenType::TokenPlus, "+", 3, 4);
    assert!(token.is(TokenType::TokenPlus));
    assert!(!token.is(TokenType::TokenMinus));
    assert_eq!(token.raw, "+");
    assert_eq!(token.line, 3);
    assert_eq!(token.col, 4);
    assert!(TokenType::TokenPlus.is(&TokenType::TokenPlus));
    assert!(!TokenType::TokenPlus.is(&TokenType::TokenStar));
    let copy = token.clone();
    assert_eq!(copy.raw, "+");
    assert_eq!(copy.token_type, TokenType::TokenPlus);
}

#[test]
fn byte_classes() {
    for b in 0..=255u8 {
        let c = b as char;
        assert_eq!(is_digit(b), c.is_ascii_digit());
        assert_eq!(is_alpha(b), c.is_ascii_alphabetic() || c == '_');
        assert_eq!(is_alpha_num(b), c.is_ascii_alphanumeric() || c == '_');
    }
}

#[test]
fn byte_strings_are_compared() {
    let samples: [&[u8]; 7] = [b"", b"a", b"ab", b"abc", b"b", b"aa", &[0xff]];
    for a in samples {
        for b in samples {
            assert_eq!(bytes_equal(a, b), a == b);
            assert_eq!(bytes_less(a, b), a < b);
        }
    }
    assert!(str_equal("abc", "abc"));
    assert!(!str_equal("abc", "abd"));
    assert!(!str_equal("abc", "ab"));
    assert!(str_equal("", ""));
}

#[test]
fn bytes_are_decoded_as_utf8() {
    assert_eq!(bytes_to_text(b"abc"), "abc");
    assert_eq!(bytes_to_text("h\u{e9}".as_bytes()), "h\u{e9}");
    assert_eq!(bytes_to_text(&[0xc3]), "");
    assert_eq!(bytes_to_text(&[]), "");
}

#[test]
fn integers_are_written_in_decimal() {
    for n in [0i64, 1, 9, 10, 11, 99, 100, 12345, -1, -10, -987, i64::MAX, i64::MIN, i64::MIN + 1] {
        assert_eq!(decimal_text(n), format!("{}", n));
    }
    for n in [0u64, 7, 10, 1000, u64::MAX] {
        assert_eq!(digits_text(n), format!("{}", n));
    }
}

#[test]
fn tokens_are_shown_with_their_place_and_kind() {
    let tokens = scan_all("var x\n= 12;");
    let shown: Vec<String> = tokens.iter().map(|t| t.to_string()).collect();
    assert_eq!(shown, vec![
        "[1:0] TokenVar var",
        "[1:4] TokenIdentifier x",
        "[2:0] TokenEqual =",
        "[2:2] TokenNumber 12",
        "[2:4] TokenSemicolon ;",
        "[2:5] TokenEof ",
    ]);
    for t in &tokens {
        assert_eq!(t.token_type.name(), format!("{:?}", t.token_type));
    }
}

#[test]
fn a_copy_of_the_scanner_scans_on_by_itself() {
    let mut lexer = Lexer::new("a b c".to_string());
    assert_eq!(lexer.scan_next().raw, "a");
    let mut copy = lexer.clone();
    assert_eq!(lexer.scan_next().raw, "b");
    assert_eq!(lexer.scan_next().raw, "c");
    assert_eq!(copy.scan_next().raw, "b");
    assert_eq!(copy.remaining(), 2);
    assert!(format!("{:?}", copy).contains("Lexer"));
}
