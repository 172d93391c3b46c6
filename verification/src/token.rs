//! Tokens of the source language.

use vstd::prelude::*;
use vstd::string::StringExecFns;
use vstd::string::StringSliceAdditionalSpecFns;
use crate::helpers::{bytes_equal, decimal, decimal_text};
use vstd::utf8::{decode_utf8, valid_utf8};

verus! {

/// The kinds of token.
#[derive(Clone, Copy, Eq, PartialEq, Structural, Hash, Debug)]
pub enum TokenType {
    // Single-character tokens.
    TokenLeftParen,
    TokenRightParen,
    TokenLeftBrace,
    TokenRightBrace,
    TokenComma,
    TokenDot,
    TokenMinus,
    TokenPlus,
    TokenSemicolon,
    TokenSlash,
    TokenStar,
    // One or two character tokens.
    TokenBang,
    TokenBangEqual,
    TokenEqual,
    TokenEqualEqual,
    TokenGreater,
    TokenGreaterEqual,
    TokenLess,
    TokenLessEqual,
    // Literals.
    TokenIdentifier,
    TokenString,
    TokenNumber,
    // Keywords.
    TokenAnd,
    TokenClass,
    TokenElse,
    TokenFalse,
    TokenFor,
    TokenFun,
    TokenIf,
    TokenNil,
    TokenOr,
    TokenPrint,
    TokenReturn,
    TokenSuper,
    TokenThis,
    TokenTrue,
    TokenVar,
    TokenWhile,
    // Sentinels.
    TokenError,
    TokenEof,
}

/// A token: its kind, the text it was read from, and where it was read.
#[derive(Debug)]
pub struct Token {
    pub token_type: TokenType,
    pub raw: String,
    pub line: i64,
    pub col: i64,
}

/// What a token is, with its text as a sequence of characters.
pub struct TokenView {
    pub token_type: TokenType,
    pub raw: Seq<char>,
    pub line: i64,
    pub col: i64,
}

impl View for Token {
    type V = TokenView;

    open spec fn view(&self) -> TokenView {
        TokenView { token_type: self.token_type, raw: self.raw@, line: self.line, col: self.col }
    }
}

impl Clone for Token {
    fn clone(&self) -> (r: Self)
        ensures
            r == *self,
    {
        Token {
            token_type: self.token_type,
            raw: self.raw.clone(),
            line: self.line,
            col: self.col,
        }
    }
}

/// The name of a kind of token.
pub open spec fn kind_name(t: TokenType) -> Seq<char> {
    match t {
        TokenType::TokenLeftParen => "TokenLeftParen"@,
        TokenType::TokenRightParen => "TokenRightParen"@,
        TokenType::TokenLeftBrace => "TokenLeftBrace"@,
        TokenType::TokenRightBrace => "TokenRightBrace"@,
        TokenType::TokenComma => "TokenComma"@,
        TokenType::TokenDot => "TokenDot"@,
        TokenType::TokenMinus => "TokenMinus"@,
        TokenType::TokenPlus => "TokenPlus"@,
        TokenType::TokenSemicolon => "TokenSemicolon"@,
        TokenType::TokenSlash => "TokenSlash"@,
        TokenType::TokenStar => "TokenStar"@,
        TokenType::TokenBang => "TokenBang"@,
        TokenType::TokenBangEqual => "TokenBangEqual"@,
        TokenType::TokenEqual => "TokenEqual"@,
        TokenType::TokenEqualEqual => "TokenEqualEqual"@,
        TokenType::TokenGreater => "TokenGreater"@,
        TokenType::TokenGreaterEqual => "TokenGreaterEqual"@,
        TokenType::TokenLess => "TokenLess"@,
        TokenType::TokenLessEqual => "TokenLessEqual"@,
        TokenType::TokenIdentifier => "TokenIdentifier"@,
        TokenType::TokenString => "TokenString"@,
        TokenType::TokenNumber => "TokenNumber"@,
        TokenType::TokenAnd => "TokenAnd"@,
        TokenType::TokenClass => "TokenClass"@,
        TokenType::TokenElse => "TokenElse"@,
        TokenType::TokenFalse => "TokenFalse"@,
        TokenType::TokenFor => "TokenFor"@,
        TokenType::TokenFun => "TokenFun"@,
        TokenType::TokenIf => "TokenIf"@,
        TokenType::TokenNil => "TokenNil"@,
        TokenType::TokenOr => "TokenOr"@,
        TokenType::TokenPrint => "TokenPrint"@,
        TokenType::TokenReturn => "TokenReturn"@,
        TokenType::TokenSuper => "TokenSuper"@,
        TokenType::TokenThis => "TokenThis"@,
        TokenType::TokenTrue => "TokenTrue"@,
        TokenType::TokenVar => "TokenVar"@,
        TokenType::TokenWhile => "TokenWhile"@,
        TokenType::TokenError => "TokenError"@,
        TokenType::TokenEof => "TokenEof"@,
    }
}

/// How a token is shown: its line and column in brackets, the name of its
/// kind, and its lexeme.
pub open spec fn shown(t: TokenView) -> Seq<char> {
    "["@ + decimal(t.line as int) + ":"@ + decimal(t.col as int) + "] "@ + kind_name(t.token_type)
        + " "@ + t.raw
}

impl Token {
    /// The token as text, for listings.
    pub fn to_string(&self) -> (r: String)
        ensures
            r@ == shown(self@),
    {
        let mut text = String::from_str("[");
        text.append(decimal_text(self.line).as_str());
        text.append(":");
        text.append(decimal_text(self.col).as_str());
        text.append("] ");
        text.append(self.token_type.name().as_str());
        text.append(" ");
        text.append(self.raw.as_str());
        text
    }

    pub fn new(type_: TokenType, raw: &str, line: i64, col: i64) -> (t: Self)
        ensures
            t@ == (TokenView { token_type: type_, raw: raw@, line, col }),
    {
        Self { token_type: type_, raw: String::from_str(raw), line, col }
    }

    /// Whether the token is of the given kind.
    pub fn is(&self, tok_type: TokenType) -> (r: bool)
        ensures
            r == (self.token_type == tok_type),
    {
        self.token_type == tok_type
    }
}

impl TokenType {
    /// The name of the kind.
    pub fn name(&self) -> (r: String)
        ensures
            r@ == kind_name(*self),
    {
        let text: &str = match self {
            TokenType::TokenLeftParen => "TokenLeftParen",
            TokenType::TokenRightParen => "TokenRightParen",
            TokenType::TokenLeftBrace => "TokenLeftBrace",
            TokenType::TokenRightBrace => "TokenRightBrace",
            TokenType::TokenComma => "TokenComma",
            TokenType::TokenDot => "TokenDot",
            TokenType::TokenMinus => "TokenMinus",
            TokenType::TokenPlus => "TokenPlus",
            TokenType::TokenSemicolon => "TokenSemicolon",
            TokenType::TokenSlash => "TokenSlash",
            TokenType::TokenStar => "TokenStar",
            TokenType::TokenBang => "TokenBang",
            TokenType::TokenBangEqual => "TokenBangEqual",
            TokenType::TokenEqual => "TokenEqual",
            TokenType::TokenEqualEqual => "TokenEqualEqual",
            TokenType::TokenGreater => "TokenGreater",
            TokenType::TokenGreaterEqual => "TokenGreaterEqual",
            TokenType::TokenLess => "TokenLess",
            TokenType::TokenLessEqual => "TokenLessEqual",
            TokenType::TokenIdentifier => "TokenIdentifier",
            TokenType::TokenString => "TokenString",
            TokenType::TokenNumber => "TokenNumber",
            TokenType::TokenAnd => "TokenAnd",
            TokenType::TokenClass => "TokenClass",
            TokenType::TokenElse => "TokenElse",
            TokenType::TokenFalse => "TokenFalse",
            TokenType::TokenFor => "TokenFor",
            TokenType::TokenFun => "TokenFun",
            TokenType::TokenIf => "TokenIf",
            TokenType::TokenNil => "TokenNil",
            TokenType::TokenOr => "TokenOr",
            TokenType::TokenPrint => "TokenPrint",
            TokenType::TokenReturn => "TokenReturn",
            TokenType::TokenSuper => "TokenSuper",
            TokenType::TokenThis => "TokenThis",
            TokenType::TokenTrue => "TokenTrue",
            TokenType::TokenVar => "TokenVar",
            TokenType::TokenWhile => "TokenWhile",
            TokenType::TokenError => "TokenError",
            TokenType::TokenEof => "TokenEof",
        };
        String::from_str(text)
    }

    /// Whether the two kinds are the same.
    pub fn is(&self, rhs: &TokenType) -> (r: bool)
        ensures
            r == (*self == *rhs),
    {
        *self == *rhs
    }
}

/// The kind of token that a word is: that of the keyword which it spells,
/// and an identifier otherwise.
pub open spec fn keyword_type(word: Seq<char>) -> TokenType {
    if word == "and"@ {
        TokenType::TokenAnd
    } else if word == "class"@ {
        TokenType::TokenClass
    } else if word == "else"@ {
        TokenType::TokenElse
    } else if word == "if"@ {
        TokenType::TokenIf
    } else if word == "nil"@ {
        TokenType::TokenNil
    } else if word == "or"@ {
        TokenType::TokenOr
    } else if word == "print"@ {
        TokenType::TokenPrint
    } else if word == "return"@ {
        TokenType::TokenReturn
    } else if word == "super"@ {
        TokenType::TokenSuper
    } else if word == "var"@ {
        TokenType::TokenVar
    } else if word == "while"@ {
        TokenType::TokenWhile
    } else if word == "false"@ {
        TokenType::TokenFalse
    } else if word == "for"@ {
        TokenType::TokenFor
    } else if word == "fun"@ {
        TokenType::TokenFun
    } else if word == "this"@ {
        TokenType::TokenThis
    } else if word == "true"@ {
        TokenType::TokenTrue
    } else {
        TokenType::TokenIdentifier
    }
}

/// Whether the bytes are the UTF-8 encoding of the given word.
fn spells(bytes: &[u8], word: &str) -> (r: bool)
    ensures
        r == (bytes@ == word.spec_bytes()),
{
    bytes_equal(bytes, word.as_bytes())
}

/// The kind of token that the UTF-8 encoding of a word stands for.
pub fn keyword_of(bytes: &[u8]) -> (t: TokenType)
    ensures
        valid_utf8(bytes@) ==> t == keyword_type(decode_utf8(bytes@)),
        !valid_utf8(bytes@) ==> t == TokenType::TokenIdentifier,
{
    assert forall|other: &str|
        (bytes@ == #[trigger] other.spec_bytes()) <==> (valid_utf8(bytes@) && decode_utf8(bytes@)
            == other@) by {
        vstd::utf8::encode_utf8_valid_utf8(other@);
        vstd::utf8::encode_utf8_decode_utf8(other@);
        if valid_utf8(bytes@) {
            vstd::utf8::decode_utf8_encode_utf8(bytes@);
        }
    }
    if spells(bytes, "and") {
        TokenType::TokenAnd
    } else if spells(bytes, "class") {
        TokenType::TokenClass
    } else if spells(bytes, "else") {
        TokenType::TokenElse
    } else if spells(bytes, "if") {
        TokenType::TokenIf
    } else if spells(bytes, "nil") {
        TokenType::TokenNil
    } else if spells(bytes, "or") {
        TokenType::TokenOr
    } else if spells(bytes, "print") {
        TokenType::TokenPrint
    } else if spells(bytes, "return") {
        TokenType::TokenReturn
    } else if spells(bytes, "super") {
        TokenType::TokenSuper
    } else if spells(bytes, "var") {
        TokenType::TokenVar
    } else if spells(bytes, "while") {
        TokenType::TokenWhile
    } else if spells(bytes, "false") {
        TokenType::TokenFalse
    } else if spells(bytes, "for") {
        TokenType::TokenFor
    } else if spells(bytes, "fun") {
        TokenType::TokenFun
    } else if spells(bytes, "this") {
        TokenType::TokenThis
    } else if spells(bytes, "true") {
        TokenType::TokenTrue
    } else {
        TokenType::TokenIdentifier
    }
}

/// The kind of token that a word is: that of the keyword which it spells,
/// and an identifier otherwise.
pub fn kw_type_from_str(token_type: &str) -> (t: TokenType)
    ensures
        t == keyword_type(token_type@),
{
    proof {
        vstd::utf8::encode_utf8_valid_utf8(token_type@);
        vstd::utf8::encode_utf8_decode_utf8(token_type@);
    }
    keyword_of(token_type.as_bytes())
}

} // verus!
