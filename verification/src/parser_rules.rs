//! The operator-precedence table that drives the expression parser.

use vstd::prelude::*;
use crate::token::TokenType;

verus! {

/// The precedence levels, from the lowest to the highest.
#[derive(Clone, Copy, Eq, PartialEq, Structural, PartialOrd, Hash, Debug)]
pub enum ParsePrecedence {
    PrecedenceNone,
    /// `=`
    PrecedenceAssignment,
    /// `or`
    PrecedenceOr,
    /// `and`
    PrecedenceAnd,
    /// `==`, `!=`
    PrecedenceEquality,
    /// `<`, `>`, `<=`, `>=`
    PrecedenceComparison,
    /// `+`, `-`
    PrecedenceTerm,
    /// `*`, `/`
    PrecedenceFactor,
    /// `!`, `-`
    PrecedenceUnary,
    /// `.`, `()`
    PrecedenceCall,
    PrecedencePrimary,
}

/// The parsing routines that the table names.
#[derive(Clone, Copy, Eq, PartialEq, Structural, Hash, Debug)]
pub enum ParseFn {
    Grouping,
    Unary,
    Binary,
    Variable,
    String,
    Number,
    Literal,
    And,
    Or,
}

/// What the parser does with a token: the routine that parses an
/// expression starting with it, the routine that parses an expression
/// continued by it, and the precedence with which it binds as an infix
/// operator.
#[derive(Clone, Copy, Eq, PartialEq, Structural, Debug)]
pub struct ParseRule {
    pub precedence: ParsePrecedence,
    pub prefix: Option<ParseFn>,
    pub infix: Option<ParseFn>,
}

/// The number of kinds of token, and so of rows in the table.
pub const TOKEN_TYPES: usize = 40;

/// The rank of a precedence level: 1 for the lowest, 11 for the highest.
pub open spec fn level(p: ParsePrecedence) -> u8 {
    match p {
        ParsePrecedence::PrecedenceNone => 1,
        ParsePrecedence::PrecedenceAssignment => 2,
        ParsePrecedence::PrecedenceOr => 3,
        ParsePrecedence::PrecedenceAnd => 4,
        ParsePrecedence::PrecedenceEquality => 5,
        ParsePrecedence::PrecedenceComparison => 6,
        ParsePrecedence::PrecedenceTerm => 7,
        ParsePrecedence::PrecedenceFactor => 8,
        ParsePrecedence::PrecedenceUnary => 9,
        ParsePrecedence::PrecedenceCall => 10,
        ParsePrecedence::PrecedencePrimary => 11,
    }
}

/// The precedence level of a rank; ranks beyond the highest give the
/// highest level.
pub open spec fn level_of(value: int) -> ParsePrecedence {
    if value <= 1 {
        ParsePrecedence::PrecedenceNone
    } else if value == 2 {
        ParsePrecedence::PrecedenceAssignment
    } else if value == 3 {
        ParsePrecedence::PrecedenceOr
    } else if value == 4 {
        ParsePrecedence::PrecedenceAnd
    } else if value == 5 {
        ParsePrecedence::PrecedenceEquality
    } else if value == 6 {
        ParsePrecedence::PrecedenceComparison
    } else if value == 7 {
        ParsePrecedence::PrecedenceTerm
    } else if value == 8 {
        ParsePrecedence::PrecedenceFactor
    } else if value == 9 {
        ParsePrecedence::PrecedenceUnary
    } else if value == 10 {
        ParsePrecedence::PrecedenceCall
    } else {
        ParsePrecedence::PrecedencePrimary
    }
}

/// The place of a kind of token in the table.
pub open spec fn token_index(t: TokenType) -> int {
    match t {
        TokenType::TokenLeftParen => 0,
        TokenType::TokenRightParen => 1,
        TokenType::TokenLeftBrace => 2,
        TokenType::TokenRightBrace => 3,
        TokenType::TokenComma => 4,
        TokenType::TokenDot => 5,
        TokenType::TokenMinus => 6,
        TokenType::TokenPlus => 7,
        TokenType::TokenSemicolon => 8,
        TokenType::TokenSlash => 9,
        TokenType::TokenStar => 10,
        TokenType::TokenBang => 11,
        TokenType::TokenBangEqual => 12,
        TokenType::TokenEqual => 13,
        TokenType::TokenEqualEqual => 14,
        TokenType::TokenGreater => 15,
        TokenType::TokenGreaterEqual => 16,
        TokenType::TokenLess => 17,
        TokenType::TokenLessEqual => 18,
        TokenType::TokenIdentifier => 19,
        TokenType::TokenString => 20,
        TokenType::TokenNumber => 21,
        TokenType::TokenAnd => 22,
        TokenType::TokenClass => 23,
        TokenType::TokenElse => 24,
        TokenType::TokenFalse => 25,
        TokenType::TokenFor => 26,
        TokenType::TokenFun => 27,
        TokenType::TokenIf => 28,
        TokenType::TokenNil => 29,
        TokenType::TokenOr => 30,
        TokenType::TokenPrint => 31,
        TokenType::TokenReturn => 32,
        TokenType::TokenSuper => 33,
        TokenType::TokenThis => 34,
        TokenType::TokenTrue => 35,
        TokenType::TokenVar => 36,
        TokenType::TokenWhile => 37,
        TokenType::TokenError => 38,
        TokenType::TokenEof => 39,
    }
}

/// A rule from its three parts.
pub open spec fn rule(
    prefix: Option<ParseFn>,
    infix: Option<ParseFn>,
    precedence: ParsePrecedence,
) -> ParseRule {
    ParseRule { precedence, prefix, infix }
}

/// The rule of each kind of token.
pub open spec fn rule_of(t: TokenType) -> ParseRule {
    match t {
        TokenType::TokenLeftParen => rule(
            Some(ParseFn::Grouping),
            None,
            ParsePrecedence::PrecedenceNone,
        ),
        TokenType::TokenMinus => rule(
            Some(ParseFn::Unary),
            Some(ParseFn::Binary),
            ParsePrecedence::PrecedenceTerm,
        ),
        TokenType::TokenPlus => rule(None, Some(ParseFn::Binary), ParsePrecedence::PrecedenceTerm),
        TokenType::TokenSlash => rule(
            None,
            Some(ParseFn::Binary),
            ParsePrecedence::PrecedenceFactor,
        ),
        TokenType::TokenStar => rule(
            None,
            Some(ParseFn::Binary),
            ParsePrecedence::PrecedenceFactor,
        ),
        TokenType::TokenBang => rule(Some(ParseFn::Unary), None, ParsePrecedence::PrecedenceNone),
        TokenType::TokenBangEqual => rule(
            None,
            Some(ParseFn::Binary),
            ParsePrecedence::PrecedenceEquality,
        ),
        TokenType::TokenEqualEqual => rule(
            None,
            Some(ParseFn::Binary),
            ParsePrecedence::PrecedenceEquality,
        ),
        TokenType::TokenGreater => rule(
            None,
            Some(ParseFn::Binary),
            ParsePrecedence::PrecedenceComparison,
        ),
        TokenType::TokenGreaterEqual => rule(
            None,
            Some(ParseFn::Binary),
            ParsePrecedence::PrecedenceComparison,
        ),
        TokenType::TokenLess => rule(
            None,
            Some(ParseFn::Binary),
            ParsePrecedence::PrecedenceComparison,
        ),
        TokenType::TokenLessEqual => rule(
            None,
            Some(ParseFn::Binary),
            ParsePrecedence::PrecedenceComparison,
        ),
        TokenType::TokenIdentifier => rule(
            Some(ParseFn::Variable),
            None,
            ParsePrecedence::PrecedenceNone,
        ),
        TokenType::TokenString => rule(Some(ParseFn::String), None, ParsePrecedence::PrecedenceNone),
        TokenType::TokenNumber => rule(Some(ParseFn::Number), None, ParsePrecedence::PrecedenceNone),
        TokenType::TokenAnd => rule(None, Some(ParseFn::And), ParsePrecedence::PrecedenceAnd),
        TokenType::TokenOr => rule(None, Some(ParseFn::Or), ParsePrecedence::PrecedenceOr),
        TokenType::TokenFalse => rule(Some(ParseFn::Literal), None, ParsePrecedence::PrecedenceNone),
        TokenType::TokenNil => rule(Some(ParseFn::Literal), None, ParsePrecedence::PrecedenceNone),
        TokenType::TokenTrue => rule(Some(ParseFn::Literal), None, ParsePrecedence::PrecedenceNone),
        _ => rule(None, None, ParsePrecedence::PrecedenceNone),
    }
}

/// The table is what [`rule_of`] says, row by row.
pub open spec fn is_rule_table(table: Seq<ParseRule>) -> bool {
    &&& table.len() == TOKEN_TYPES
    &&& forall|t: TokenType| table[token_index(t)] == #[trigger] rule_of(t)
}

impl ParsePrecedence {
    /// The precedence level with the given rank.
    pub fn from_u8(value: u8) -> (p: ParsePrecedence)
        requires
            1 <= value <= 11,
        ensures
            p == level_of(value as int),
            level(p) == value,
    {
        match value {
            1 => ParsePrecedence::PrecedenceNone,
            2 => ParsePrecedence::PrecedenceAssignment,
            3 => ParsePrecedence::PrecedenceOr,
            4 => ParsePrecedence::PrecedenceAnd,
            5 => ParsePrecedence::PrecedenceEquality,
            6 => ParsePrecedence::PrecedenceComparison,
            7 => ParsePrecedence::PrecedenceTerm,
            8 => ParsePrecedence::PrecedenceFactor,
            9 => ParsePrecedence::PrecedenceUnary,
            10 => ParsePrecedence::PrecedenceCall,
            _ => ParsePrecedence::PrecedencePrimary,
        }
    }

    /// The rank of the precedence level.
    pub fn to_u8(&self) -> (value: u8)
        ensures
            value == level(*self),
            1 <= value <= 11,
    {
        match self {
            ParsePrecedence::PrecedenceNone => 1,
            ParsePrecedence::PrecedenceAssignment => 2,
            ParsePrecedence::PrecedenceOr => 3,
            ParsePrecedence::PrecedenceAnd => 4,
            ParsePrecedence::PrecedenceEquality => 5,
            ParsePrecedence::PrecedenceComparison => 6,
            ParsePrecedence::PrecedenceTerm => 7,
            ParsePrecedence::PrecedenceFactor => 8,
            ParsePrecedence::PrecedenceUnary => 9,
            ParsePrecedence::PrecedenceCall => 10,
            ParsePrecedence::PrecedencePrimary => 11,
        }
    }

    /// The precedence level that is `value` levels higher.
    pub fn add(&self, value: u8) -> (p: ParsePrecedence)
        requires
            level(*self) + value <= 11,
        ensures
            p == level_of(level(*self) + value),
            level(p) == level(*self) + value,
    {
        let cur: u8 = self.to_u8();
        ParsePrecedence::from_u8(cur + value)
    }
}

impl TokenType {
    /// The place of this kind of token in the table of rules.
    pub fn index(&self) -> (i: usize)
        ensures
            i == token_index(*self),
            i < TOKEN_TYPES,
    {
        match self {
            TokenType::TokenLeftParen => 0,
            TokenType::TokenRightParen => 1,
            TokenType::TokenLeftBrace => 2,
            TokenType::TokenRightBrace => 3,
            TokenType::TokenComma => 4,
            TokenType::TokenDot => 5,
            TokenType::TokenMinus => 6,
            TokenType::TokenPlus => 7,
            TokenType::TokenSemicolon => 8,
            TokenType::TokenSlash => 9,
            TokenType::TokenStar => 10,
            TokenType::TokenBang => 11,
            TokenType::TokenBangEqual => 12,
            TokenType::TokenEqual => 13,
            TokenType::TokenEqualEqual => 14,
            TokenType::TokenGreater => 15,
            TokenType::TokenGreaterEqual => 16,
            TokenType::TokenLess => 17,
            TokenType::TokenLessEqual => 18,
            TokenType::TokenIdentifier => 19,
            TokenType::TokenString => 20,
            TokenType::TokenNumber => 21,
            TokenType::TokenAnd => 22,
            TokenType::TokenClass => 23,
            TokenType::TokenElse => 24,
            TokenType::TokenFalse => 25,
            TokenType::TokenFor => 26,
            TokenType::TokenFun => 27,
            TokenType::TokenIf => 28,
            TokenType::TokenNil => 29,
            TokenType::TokenOr => 30,
            TokenType::TokenPrint => 31,
            TokenType::TokenReturn => 32,
            TokenType::TokenSuper => 33,
            TokenType::TokenThis => 34,
            TokenType::TokenTrue => 35,
            TokenType::TokenVar => 36,
            TokenType::TokenWhile => 37,
            TokenType::TokenError => 38,
            TokenType::TokenEof => 39,
        }
    }
}

/// A rule from its three parts.
fn make_rule(prefix: Option<ParseFn>, infix: Option<ParseFn>, precedence: ParsePrecedence) -> (r:
    ParseRule)
    ensures
        r == rule(prefix, infix, precedence),
{
    ParseRule { precedence, prefix, infix }
}

/// The table of rules, one row for each kind of token, in the order of
/// [`TokenType::index`].
pub fn rules() -> (h: Vec<ParseRule>)
    ensures
        is_rule_table(h@),
{
    let none = ParsePrecedence::PrecedenceNone;
    let mut h: Vec<ParseRule> = Vec::new();
    h.push(make_rule(Some(ParseFn::Grouping), None, none));  // (
    h.push(make_rule(None, None, none));  // )
    h.push(make_rule(None, None, none));  // {
    h.push(make_rule(None, None, none));  // }
    h.push(make_rule(None, None, none));  // ,
    h.push(make_rule(None, None, none));  // .
    h.push(make_rule(Some(ParseFn::Unary), Some(ParseFn::Binary), ParsePrecedence::PrecedenceTerm));
    h.push(make_rule(None, Some(ParseFn::Binary), ParsePrecedence::PrecedenceTerm));  // +
    h.push(make_rule(None, None, none));  // ;
    h.push(make_rule(None, Some(ParseFn::Binary), ParsePrecedence::PrecedenceFactor));  // /
    h.push(make_rule(None, Some(ParseFn::Binary), ParsePrecedence::PrecedenceFactor));  // *
    h.push(make_rule(Some(ParseFn::Unary), None, none));  // !
    h.push(make_rule(None, Some(ParseFn::Binary), ParsePrecedence::PrecedenceEquality));  // !=
    h.push(make_rule(None, None, none));  // =
    h.push(make_rule(None, Some(ParseFn::Binary), ParsePrecedence::PrecedenceEquality));  // ==
    h.push(make_rule(None, Some(ParseFn::Binary), ParsePrecedence::PrecedenceComparison));  // >
    h.push(make_rule(None, Some(ParseFn::Binary), ParsePrecedence::PrecedenceComparison));  // >=
    h.push(make_rule(None, Some(ParseFn::Binary), ParsePrecedence::PrecedenceComparison));  // <
    h.push(make_rule(None, Some(ParseFn::Binary), ParsePrecedence::PrecedenceComparison));  // <=
    h.push(make_rule(Some(ParseFn::Variable), None, none));  // identifier
    h.push(make_rule(Some(ParseFn::String), None, none));  // string
    h.push(make_rule(Some(ParseFn::Number), None, none));  // number
    h.push(make_rule(None, Some(ParseFn::And), ParsePrecedence::PrecedenceAnd));  // and
    h.push(make_rule(None, None, none));  // class
    h.push(make_rule(None, None, none));  // else
    h.push(make_rule(Some(ParseFn::Literal), None, none));  // false
    h.push(make_rule(None, None, none));  // for
    h.push(make_rule(None, None, none));  // fun
    h.push(make_rule(None, None, none));  // if
    h.push(make_rule(Some(ParseFn::Literal), None, none));  // nil
    h.push(make_rule(None, Some(ParseFn::Or), ParsePrecedence::PrecedenceOr));  // or
    h.push(make_rule(None, None, none));  // print
    h.push(make_rule(None, None, none));  // return
    h.push(make_rule(None, None, none));  // super
    h.push(make_rule(None, None, none));  // this
    h.push(make_rule(Some(ParseFn::Literal), None, none));  // true
    h.push(make_rule(None, None, none));  // var
    h.push(make_rule(None, None, none));  // while
    h.push(make_rule(None, None, none));  // error
    h.push(make_rule(None, None, none));  // eof
    h
}

/// The rule of a kind of token, looked up in the table.
pub fn lookup(table: &Vec<ParseRule>, tok_type: TokenType) -> (r: ParseRule)
    requires
        is_rule_table(table@),
    ensures
        r == rule_of(tok_type),
{
    table[tok_type.index()]
}

} // verus!
