//! The scanner: a lazy tokenizer over the bytes of the source.

use vstd::prelude::*;
use vstd::slice::slice_subrange;
use vstd::string::StrSliceExecFns;
use vstd::string::StringExecFns;
use vstd::utf8::{decode_utf8, encode_utf8, pop_first_scalar, valid_utf8};
use crate::helpers::{bytes_to_text, is_alpha, is_alpha_num, is_digit, text_of};
use crate::helpers::{spec_is_alpha, spec_is_alpha_num, spec_is_digit};
use crate::token::{keyword_of, keyword_type, Token, TokenType, TokenView};

verus! {

/// A counter that stops at its largest value.
pub open spec fn bump(n: i64) -> i64 {
    if n < i64::MAX {
        (n + 1) as i64
    } else {
        n
    }
}

/// A place in the source: the offset of the next byte, the line it is on
/// (from 1) and its column on that line (from 0).
pub struct Cursor {
    pub pos: int,
    pub line: i64,
    pub col: i64,
}

/// The place after the byte at the cursor: a line feed starts a new line.
pub open spec fn advance_cursor(input: Seq<u8>, c: Cursor) -> Cursor {
    if input[c.pos] == 0x0a {
        Cursor { pos: c.pos + 1, line: bump(c.line), col: 0 }
    } else {
        Cursor { pos: c.pos + 1, line: c.line, col: bump(c.col) }
    }
}

/// Space, carriage return, tab and line feed separate tokens.
pub open spec fn is_blank(b: u8) -> bool {
    b == 0x20 || b == 0x0d || b == 0x09 || b == 0x0a
}

/// The place of the first byte at or after the cursor that belongs to a
/// token: blanks are passed over, and so is a comment, which runs from `//`
/// to the end of its line. `in_comment` says that the cursor is inside a
/// comment.
pub open spec fn skip_blank(input: Seq<u8>, c: Cursor, in_comment: bool) -> Cursor
    decreases input.len() - c.pos, if in_comment { 1int } else { 0int },
{
    if 0 <= c.pos < input.len() {
        let b = input[c.pos];
        if in_comment {
            if b == 0x0a {
                skip_blank(input, c, false)
            } else {
                skip_blank(input, advance_cursor(input, c), true)
            }
        } else if is_blank(b) {
            skip_blank(input, advance_cursor(input, c), false)
        } else if b == 0x2f && c.pos + 1 < input.len() && input[c.pos + 1] == 0x2f {
            skip_blank(input, advance_cursor(input, c), true)
        } else {
            c
        }
    } else {
        c
    }
}

/// The place after the digits that start at the cursor.
pub open spec fn digits_end(input: Seq<u8>, c: Cursor) -> Cursor
    decreases input.len() - c.pos,
{
    if 0 <= c.pos < input.len() && spec_is_digit(input[c.pos]) {
        digits_end(input, advance_cursor(input, c))
    } else {
        c
    }
}

/// The place after the number literal whose first digit ends at the
/// cursor: more digits, and then a fraction if a dot and a digit follow.
pub open spec fn number_end(input: Seq<u8>, c: Cursor) -> Cursor {
    let d = digits_end(input, c);
    if 0 <= d.pos && d.pos + 1 < input.len() && input[d.pos] == 0x2e && spec_is_digit(
        input[d.pos + 1],
    ) {
        digits_end(input, advance_cursor(input, d))
    } else {
        d
    }
}

/// The place after the letters, digits and underscores that start at the
/// cursor.
pub open spec fn ident_end(input: Seq<u8>, c: Cursor) -> Cursor
    decreases input.len() - c.pos,
{
    if 0 <= c.pos < input.len() && spec_is_alpha_num(input[c.pos]) {
        ident_end(input, advance_cursor(input, c))
    } else {
        c
    }
}

/// The place of the quote that closes a string literal whose body starts at
/// the cursor, or the end of the source where none closes it.
pub open spec fn string_end(input: Seq<u8>, c: Cursor) -> Cursor
    decreases input.len() - c.pos,
{
    if 0 <= c.pos < input.len() && input[c.pos] != 0x22 {
        string_end(input, advance_cursor(input, c))
    } else {
        c
    }
}

/// The kind of token that a word is, given by its bytes.
pub open spec fn word_type(bytes: Seq<u8>) -> TokenType {
    if valid_utf8(bytes) {
        keyword_type(decode_utf8(bytes))
    } else {
        TokenType::TokenIdentifier
    }
}

/// The kind of the operator that starts with the byte `b`, where `follows`
/// says that an equals sign comes next; `None` where `b` starts no operator
/// or punctuation.
pub open spec fn punctuation(b: u8, follows: bool) -> Option<TokenType> {
    if b == 0x28 {
        Some(TokenType::TokenLeftParen)
    } else if b == 0x29 {
        Some(TokenType::TokenRightParen)
    } else if b == 0x7b {
        Some(TokenType::TokenLeftBrace)
    } else if b == 0x7d {
        Some(TokenType::TokenRightBrace)
    } else if b == 0x3b {
        Some(TokenType::TokenSemicolon)
    } else if b == 0x2c {
        Some(TokenType::TokenComma)
    } else if b == 0x2e {
        Some(TokenType::TokenDot)
    } else if b == 0x2d {
        Some(TokenType::TokenMinus)
    } else if b == 0x2b {
        Some(TokenType::TokenPlus)
    } else if b == 0x2f {
        Some(TokenType::TokenSlash)
    } else if b == 0x2a {
        Some(TokenType::TokenStar)
    } else if b == 0x21 {
        Some(if follows { TokenType::TokenBangEqual } else { TokenType::TokenBang })
    } else if b == 0x3d {
        Some(if follows { TokenType::TokenEqualEqual } else { TokenType::TokenEqual })
    } else if b == 0x3c {
        Some(if follows { TokenType::TokenLessEqual } else { TokenType::TokenLess })
    } else if b == 0x3e {
        Some(if follows { TokenType::TokenGreaterEqual } else { TokenType::TokenGreater })
    } else {
        None
    }
}

/// Whether the operator that starts with `b` takes a following equals sign
/// into the token.
pub open spec fn takes_equals(b: u8) -> bool {
    b == 0x21 || b == 0x3d || b == 0x3c || b == 0x3e
}

/// The text of the source between two offsets.
pub open spec fn lexeme(input: Seq<u8>, from: int, to: int) -> Seq<char> {
    text_of(input.subrange(from, to))
}

/// The text of the error token for a byte that starts no token.
pub open spec fn unexpected_text(b: u8) -> Seq<char> {
    "unexpected character "@.push(b as char)
}

/// The next token at or after the cursor, and the place after it.
///
/// A token carries the line on which it ends and the column at which it
/// starts. At the end of the source the token is `TokenEof`, again and
/// again.
pub open spec fn next_token(input: Seq<u8>, from: Cursor) -> (TokenView, Cursor) {
    let c = skip_blank(input, from, false);
    if !(0 <= c.pos < input.len()) {
        (
            TokenView {
                token_type: TokenType::TokenEof,
                raw: Seq::empty(),
                line: c.line,
                col: c.col,
            },
            c,
        )
    } else {
        let b = input[c.pos];
        let c1 = advance_cursor(input, c);
        if spec_is_digit(b) {
            let e = number_end(input, c1);
            (
                TokenView {
                    token_type: TokenType::TokenNumber,
                    raw: lexeme(input, c.pos, e.pos),
                    line: e.line,
                    col: c.col,
                },
                e,
            )
        } else if spec_is_alpha(b) {
            let e = ident_end(input, c1);
            (
                TokenView {
                    token_type: word_type(input.subrange(c.pos, e.pos)),
                    raw: lexeme(input, c.pos, e.pos),
                    line: e.line,
                    col: c.col,
                },
                e,
            )
        } else if b == 0x22 {
            let q = string_end(input, c1);
            if 0 <= q.pos < input.len() {
                let e = advance_cursor(input, q);
                (
                    TokenView {
                        token_type: TokenType::TokenString,
                        raw: lexeme(input, c.pos, e.pos),
                        line: e.line,
                        col: c.col,
                    },
                    e,
                )
            } else {
                (
                    TokenView {
                        token_type: TokenType::TokenError,
                        raw: "unterminated string"@,
                        line: q.line,
                        col: c.col,
                    },
                    q,
                )
            }
        } else {
            let follows = takes_equals(b) && c1.pos < input.len() && input[c1.pos] == 0x3d;
            let e = if follows {
                advance_cursor(input, c1)
            } else {
                c1
            };
            match punctuation(b, follows) {
                Some(token_type) => (
                    TokenView {
                        token_type,
                        raw: lexeme(input, c.pos, e.pos),
                        line: e.line,
                        col: c.col,
                    },
                    e,
                ),
                None => (
                    TokenView {
                        token_type: TokenType::TokenError,
                        raw: unexpected_text(b),
                        line: c1.line,
                        col: c.col,
                    },
                    c1,
                ),
            }
        }
    }
}

/// Scanning passes over blanks and comments without going back and
/// without leaving the source.
pub proof fn lemma_skip_blank_bounds(input: Seq<u8>, c: Cursor, in_comment: bool)
    ensures
        c.pos <= skip_blank(input, c, in_comment).pos,
        c.pos <= input.len() ==> skip_blank(input, c, in_comment).pos <= input.len(),
        !(0 <= c.pos < input.len()) ==> skip_blank(input, c, in_comment) == c,
    decreases input.len() - c.pos, if in_comment { 1int } else { 0int },
{
    if 0 <= c.pos < input.len() {
        let b = input[c.pos];
        if in_comment {
            if b == 0x0a {
                lemma_skip_blank_bounds(input, c, false);
            } else {
                lemma_skip_blank_bounds(input, advance_cursor(input, c), true);
            }
        } else if is_blank(b) {
            lemma_skip_blank_bounds(input, advance_cursor(input, c), false);
        } else if b == 0x2f && c.pos + 1 < input.len() && input[c.pos + 1] == 0x2f {
            lemma_skip_blank_bounds(input, advance_cursor(input, c), true);
        }
    }
}

/// A run of digits ends at or after its start, inside the source.
pub proof fn lemma_digits_end_bounds(input: Seq<u8>, c: Cursor)
    ensures
        c.pos <= digits_end(input, c).pos,
        c.pos <= input.len() ==> digits_end(input, c).pos <= input.len(),
    decreases input.len() - c.pos,
{
    if 0 <= c.pos < input.len() && spec_is_digit(input[c.pos]) {
        lemma_digits_end_bounds(input, advance_cursor(input, c));
    }
}

/// A number literal ends at or after its start, inside the source.
pub proof fn lemma_number_end_bounds(input: Seq<u8>, c: Cursor)
    ensures
        c.pos <= number_end(input, c).pos,
        c.pos <= input.len() ==> number_end(input, c).pos <= input.len(),
{
    lemma_digits_end_bounds(input, c);
    let d = digits_end(input, c);
    if 0 <= d.pos && d.pos + 1 < input.len() {
        lemma_digits_end_bounds(input, advance_cursor(input, d));
    }
}

/// An identifier ends at or after its start, inside the source.
pub proof fn lemma_ident_end_bounds(input: Seq<u8>, c: Cursor)
    ensures
        c.pos <= ident_end(input, c).pos,
        c.pos <= input.len() ==> ident_end(input, c).pos <= input.len(),
    decreases input.len() - c.pos,
{
    if 0 <= c.pos < input.len() && spec_is_alpha_num(input[c.pos]) {
        lemma_ident_end_bounds(input, advance_cursor(input, c));
    }
}

/// The body of a string literal ends at or after its start, inside the
/// source.
pub proof fn lemma_string_end_bounds(input: Seq<u8>, c: Cursor)
    ensures
        c.pos <= string_end(input, c).pos,
        c.pos <= input.len() ==> string_end(input, c).pos <= input.len(),
    decreases input.len() - c.pos,
{
    if 0 <= c.pos < input.len() && input[c.pos] != 0x22 {
        lemma_string_end_bounds(input, advance_cursor(input, c));
    }
}

/// A word is a keyword or an identifier, never a sentinel.
pub proof fn lemma_word_type_is_word(bytes: Seq<u8>)
    ensures
        word_type(bytes) != TokenType::TokenEof,
        word_type(bytes) != TokenType::TokenError,
{
}

/// Scanning makes progress: a token other than `TokenEof` takes at least
/// one byte, `TokenEof` comes only at the end of the source, and the
/// scanner never leaves the source.
pub proof fn lemma_next_token_progress(input: Seq<u8>, c: Cursor)
    ensures
        c.pos <= next_token(input, c).1.pos,
        c.pos <= input.len() ==> next_token(input, c).1.pos <= input.len(),
        next_token(input, c).0.token_type != TokenType::TokenEof ==> c.pos < next_token(
            input,
            c,
        ).1.pos,
        next_token(input, c).0.token_type == TokenType::TokenEof ==> !(0 <= next_token(
            input,
            c,
        ).1.pos < input.len()),
{
    lemma_skip_blank_bounds(input, c, false);
    let s = skip_blank(input, c, false);
    if 0 <= s.pos < input.len() {
        let c1 = advance_cursor(input, s);
        lemma_number_end_bounds(input, c1);
        lemma_ident_end_bounds(input, c1);
        lemma_string_end_bounds(input, c1);
        let e = ident_end(input, c1);
        lemma_word_type_is_word(input.subrange(s.pos, e.pos));
    }
}

/// A run of digits that is not empty ends after a digit.
pub proof fn lemma_digits_end_last(input: Seq<u8>, c: Cursor)
    requires
        0 <= c.pos,
    ensures
        c.pos < digits_end(input, c).pos ==> spec_is_digit(
            input[digits_end(input, c).pos - 1],
        ),
    decreases input.len() - c.pos,
{
    if 0 <= c.pos < input.len() && spec_is_digit(input[c.pos]) {
        lemma_digits_end_last(input, advance_cursor(input, c));
        lemma_digits_end_bounds(input, advance_cursor(input, c));
    }
}

/// A run of letters, digits and underscores that is not empty ends after
/// one of them.
pub proof fn lemma_ident_end_last(input: Seq<u8>, c: Cursor)
    requires
        0 <= c.pos,
    ensures
        c.pos < ident_end(input, c).pos ==> spec_is_alpha_num(input[ident_end(input, c).pos - 1]),
    decreases input.len() - c.pos,
{
    if 0 <= c.pos < input.len() && spec_is_alpha_num(input[c.pos]) {
        lemma_ident_end_last(input, advance_cursor(input, c));
        lemma_ident_end_bounds(input, advance_cursor(input, c));
    }
}

/// The body of a string literal ends at a quote or at the end of the
/// source.
pub proof fn lemma_string_end_stops(input: Seq<u8>, c: Cursor)
    requires
        0 <= c.pos,
    ensures
        string_end(input, c).pos < input.len() ==> input[string_end(input, c).pos] == 0x22,
    decreases input.len() - c.pos,
{
    if 0 <= c.pos < input.len() && input[c.pos] != 0x22 {
        lemma_string_end_stops(input, advance_cursor(input, c));
    }
}

/// In UTF-8, a stretch of bytes that starts with an ASCII byte and ends
/// with one is UTF-8 by itself.
pub proof fn lemma_range_is_text(bytes: Seq<u8>, from: int, to: int)
    requires
        valid_utf8(bytes),
        0 <= from < to <= bytes.len(),
        bytes[from] < 0x80,
        bytes[to - 1] < 0x80,
    ensures
        valid_utf8(bytes.subrange(from, to)),
{
    let len = bytes.len() as int;
    // The text up to the last byte of the stretch, and that byte, are text.
    vstd::utf8::is_char_boundary_iff_not_is_continuation_byte(bytes, to - 1);
    vstd::utf8::valid_utf8_split(bytes, to - 1);
    let before = bytes.subrange(0, to - 1);
    let last: Seq<u8> = seq![bytes[to - 1]];
    assert(valid_utf8(last)) by {
        reveal_with_fuel(valid_utf8, 2);
        assert(pop_first_scalar(last) =~= Seq::<u8>::empty());
    }
    vstd::utf8::valid_utf8_concat(before, last);
    let upto = bytes.subrange(0, to);
    assert(upto =~= before + last);
    // The stretch starts at a character of that text.
    vstd::utf8::is_char_boundary_iff_not_is_continuation_byte(upto, from);
    vstd::utf8::valid_utf8_split(upto, from);
    assert(upto.subrange(from, upto.len() as int) =~= bytes.subrange(from, to));
}

/// The lexeme of a token is the exact text of the source between the
/// start and the end of the token: in a source that is the encoding of a
/// text, the bytes of every token but an error token are the encoding of
/// the token's lexeme.
pub proof fn lemma_lexeme_is_source_text(source: Seq<char>, c: Cursor)
    requires
        0 <= c.pos <= encode_utf8(source).len(),
    ensures
        ({
            let input = encode_utf8(source);
            let start = skip_blank(input, c, false);
            let (t, end) = next_token(input, c);
            t.token_type != TokenType::TokenError ==> encode_utf8(t.raw) == input.subrange(
                start.pos,
                end.pos,
            )
        }),
{
    let input = encode_utf8(source);
    vstd::utf8::encode_utf8_valid_utf8(source);
    lemma_skip_blank_bounds(input, c, false);
    let start = skip_blank(input, c, false);
    let (t, end) = next_token(input, c);
    if !(0 <= start.pos < input.len()) {
        assert(input.subrange(start.pos, end.pos) =~= Seq::<u8>::empty()) by {
            assert(end == start);
        }
        assert(encode_utf8(Seq::<char>::empty()) =~= Seq::<u8>::empty());
    } else if t.token_type != TokenType::TokenError {
        let b = input[start.pos];
        let c1 = advance_cursor(input, start);
        lemma_next_token_progress(input, c);
        if spec_is_digit(b) {
            lemma_digits_end_bounds(input, c1);
            lemma_digits_end_last(input, c1);
            let d = digits_end(input, c1);
            if 0 <= d.pos && d.pos + 1 < input.len() {
                lemma_digits_end_bounds(input, advance_cursor(input, d));
                lemma_digits_end_last(input, advance_cursor(input, d));
            }
        } else if spec_is_alpha(b) {
            lemma_ident_end_bounds(input, c1);
            lemma_ident_end_last(input, c1);
        } else if b == 0x22 {
            lemma_string_end_bounds(input, c1);
            lemma_string_end_stops(input, c1);
        }
        lemma_range_is_text(input, start.pos, end.pos);
        vstd::utf8::decode_utf8_encode_utf8(input.subrange(start.pos, end.pos));
    }
}

/// The tokens from the cursor to the end of the source, the first
/// `TokenEof` included.
pub open spec fn tokens_from(input: Seq<u8>, c: Cursor) -> Seq<TokenView>
    decreases input.len() - c.pos,
{
    let (t, e) = next_token(input, c);
    if t.token_type == TokenType::TokenEof {
        seq![t]
    } else {
        proof {
            lemma_next_token_progress(input, c);
        }
        seq![t] + tokens_from(input, e)
    }
}

/// At the end of the source the scanner stays where it is: the token that
/// comes after `TokenEof` is the same `TokenEof`.
pub proof fn lemma_tokens_after_eof(input: Seq<u8>, c: Cursor)
    requires
        next_token(input, c).0.token_type == TokenType::TokenEof,
    ensures
        tokens_from(input, next_token(input, c).1) == tokens_from(input, c),
        tokens_from(input, c) == seq![next_token(input, c).0],
{
    let e = next_token(input, c).1;
    lemma_skip_blank_bounds(input, c, false);
    lemma_skip_blank_bounds(input, e, false);
}

/// The scanner. It hands out the tokens of its source one by one, in
/// order, and cannot be rewound.
#[derive(Debug)]
pub struct Lexer {
    start: usize,
    current: usize,
    line: i64,
    col: i64,
    start_col: i64,
    input: Vec<u8>,
}

impl Clone for Lexer {
    fn clone(&self) -> (r: Self)
        ensures
            r.source() == self.source(),
            r.cursor() == self.cursor(),
    {
        proof {
            use_type_invariant(self);
        }
        let input = self.input.clone();
        assert(input@ =~= self.input@);
        Lexer {
            start: self.start,
            current: self.current,
            line: self.line,
            col: self.col,
            start_col: self.start_col,
            input,
        }
    }
}

impl Lexer {
    #[verifier::type_invariant]
    spec fn inv(self) -> bool {
        self.current <= self.input@.len()
    }

    /// The bytes that are scanned.
    pub closed spec fn source(&self) -> Seq<u8> {
        self.input@
    }

    /// The place of the next byte to scan.
    pub closed spec fn cursor(&self) -> Cursor {
        Cursor { pos: self.current as int, line: self.line, col: self.col }
    }

    /// A scanner at the start of a source: it scans the bytes of the text
    /// as they are given.
    pub fn new(input: String) -> (r: Lexer)
        ensures
            r.source() == encode_utf8(input@),
            r.cursor() == (Cursor { pos: 0, line: 1, col: 0 }),
    {
        let b = input.as_str().as_bytes_vec();
        Self { input: b, start: 0, current: 0, line: 1, col: 0, start_col: 0 }
    }

    /// A scanner at the start of the given bytes.
    pub fn from_bytes(input: Vec<u8>) -> (r: Lexer)
        ensures
            r.source() == input@,
            r.cursor() == (Cursor { pos: 0, line: 1, col: 0 }),
    {
        Self { input, start: 0, current: 0, line: 1, col: 0, start_col: 0 }
    }

    /// The number of bytes that are left to scan.
    pub fn remaining(&self) -> (n: usize)
        ensures
            n == self.source().len() - self.cursor().pos,
            0 <= self.cursor().pos <= self.source().len(),
    {
        proof {
            use_type_invariant(self);
        }
        self.input.len() - self.current
    }

    fn make_token(&self, type_: TokenType) -> (t: Token)
        requires
            self.start <= self.current,
        ensures
            t@ == (TokenView {
                token_type: type_,
                raw: lexeme(self.input@, self.start as int, self.current as int),
                line: self.line,
                col: self.start_col,
            }),
    {
        proof {
            use_type_invariant(self);
        }
        let text = self.fetch(self.start, self.current);
        Token { token_type: type_, raw: text, line: self.line, col: self.start_col }
    }

    fn incr_curr(&mut self)
        requires
            old(self).current < old(self).input@.len(),
        ensures
            final(self).input == old(self).input,
            final(self).start == old(self).start,
            final(self).start_col == old(self).start_col,
            final(self).current == old(self).current + 1,
            final(self).line == old(self).line,
            final(self).col == bump(old(self).col),
    {
        let len = self.input.len();
        self.current += 1;
        if self.col < i64::MAX {
            self.col += 1;
        }
    }

    fn incr_line(&mut self)
        requires
            old(self).current < old(self).input@.len(),
        ensures
            final(self).input == old(self).input,
            final(self).start == old(self).start,
            final(self).start_col == old(self).start_col,
            final(self).current == old(self).current + 1,
            final(self).line == bump(old(self).line),
            final(self).col == 0,
    {
        let len = self.input.len();
        self.current += 1;
        if self.line < i64::MAX {
            self.line += 1;
        }
        self.col = 0;
    }

    fn error_token(&self, msg: String) -> (t: Token)
        ensures
            t@ == (TokenView {
                token_type: TokenType::TokenError,
                raw: msg@,
                line: self.line,
                col: self.start_col,
            }),
    {
        Token { token_type: TokenType::TokenError, raw: msg, line: self.line, col: self.start_col }
    }

    /// Consumes the next byte and returns it.
    fn advance(&mut self) -> (b: u8)
        requires
            old(self).current < old(self).input@.len(),
        ensures
            final(self).input == old(self).input,
            final(self).start == old(self).start,
            final(self).start_col == old(self).start_col,
            b == old(self).input@[old(self).current as int],
            final(self).cursor() == advance_cursor(old(self).input@, old(self).cursor()),
    {
        let b = self.input[self.current];
        if b == 0x0a {
            self.incr_line();
        } else {
            self.incr_curr();
        }
        b
    }

    /// Consumes the next byte if it is `ch`.
    fn next_matches(&mut self, ch: u8) -> (r: bool)
        requires
            ch != 0x0a,
        ensures
            final(self).input == old(self).input,
            final(self).start == old(self).start,
            final(self).start_col == old(self).start_col,
            r == (old(self).current < old(self).input@.len() && old(self).input@[old(
                self,
            ).current as int] == ch),
            final(self).cursor() == if r {
                advance_cursor(old(self).input@, old(self).cursor())
            } else {
                old(self).cursor()
            },
    {
        if self.is_end() {
            return false;
        }
        let next = self.input[self.current];
        if ch != next {
            return false;
        }
        self.incr_curr();
        true
    }

    /// The byte `pos` places after the next one, if the source reaches that
    /// far.
    fn peek(&self, pos: Option<usize>) -> (r: Option<u8>)
        ensures
            r == match pos {
                Some(p) => if self.current + p < self.input@.len() {
                    Some(self.input@[self.current + p])
                } else {
                    None
                },
                None => if self.current < self.input@.len() {
                    Some(self.input@[self.current as int])
                } else {
                    None
                },
            },
    {
        let p = match pos {
            Some(p) => p,
            None => 0,
        };
        if p < self.input.len() - self.current_offset() {
            Some(self.input[self.current_offset() + p])
        } else {
            None
        }
    }

    fn current_offset(&self) -> (r: usize)
        ensures
            r == self.current,
            r <= self.input@.len(),
    {
        proof {
            use_type_invariant(self);
        }
        self.current
    }

    fn peek_is(&self, ch: u8, pos: Option<usize>) -> (r: bool)
        ensures
            r == (self.peek_spec(pos) == Some(ch)),
    {
        match self.peek(pos) {
            Some(c) => c == ch,
            None => false,
        }
    }

    /// What [`Lexer::peek`] returns.
    closed spec fn peek_spec(&self, pos: Option<usize>) -> Option<u8> {
        match pos {
            Some(p) => if self.current + p < self.input@.len() {
                Some(self.input@[self.current + p])
            } else {
                None
            },
            None => if self.current < self.input@.len() {
                Some(self.input@[self.current as int])
            } else {
                None
            },
        }
    }

    fn peek1(&self) -> (r: Option<u8>)
        ensures
            r == self.peek_spec(None),
    {
        self.peek(None)
    }

    fn peek1_is(&self, ch: u8) -> (r: bool)
        ensures
            r == (self.peek_spec(None) == Some(ch)),
    {
        self.peek_is(ch, None)
    }

    /// Whether the byte `pos` places after the next one is a digit.
    fn peek_is_digit(&self, pos: Option<usize>) -> (r: bool)
        ensures
            r == match self.peek_spec(pos) {
                Some(b) => spec_is_digit(b),
                None => false,
            },
    {
        match self.peek(pos) {
            Some(c) => is_digit(c),
            None => false,
        }
    }

    /// Whether the next byte may continue an identifier.
    fn peek1_is_alpha_num(&self) -> (r: bool)
        ensures
            r == match self.peek_spec(None) {
                Some(b) => spec_is_alpha_num(b),
                None => false,
            },
    {
        match self.peek(None) {
            Some(c) => is_alpha_num(c),
            None => false,
        }
    }

    fn skip_whitespaces(&mut self)
        ensures
            final(self).input == old(self).input,
            final(self).cursor() == skip_blank(old(self).input@, old(self).cursor(), false),
    {
        proof {
            use_type_invariant(&*self);
        }
        loop
            invariant
                self.input == old(self).input,
                self.current <= self.input@.len(),
                skip_blank(self.input@, self.cursor(), false) == skip_blank(
                    old(self).input@,
                    old(self).cursor(),
                    false,
                ),
            decreases self.input@.len() - self.current,
        {
            let ch = match self.peek1() {
                None => return ,
                Some(c) => c,
            };
            if ch == 0x20 || ch == 0x0d || ch == 0x09 || ch == 0x0a {
                self.advance();
            } else if ch == 0x2f && self.peek_is(0x2f, Some(1)) {
                let ghost entered = self.current;
                self.advance();
                while !self.peek1_is(0x0a) && !self.is_end()
                    invariant
                        self.input == old(self).input,
                        entered < self.current <= self.input@.len(),
                        skip_blank(self.input@, self.cursor(), true) == skip_blank(
                            old(self).input@,
                            old(self).cursor(),
                            false,
                        ),
                    decreases self.input@.len() - self.current,
                {
                    self.advance();
                }
            } else {
                return ;
            }
        }
    }

    fn number(&mut self) -> (t: Token)
        requires
            old(self).start < old(self).current,
        ensures
            final(self).input == old(self).input,
            final(self).cursor() == number_end(old(self).input@, old(self).cursor()),
            t@ == (TokenView {
                token_type: TokenType::TokenNumber,
                raw: lexeme(old(self).input@, old(self).start as int, final(self).cursor().pos),
                line: final(self).cursor().line,
                col: old(self).start_col,
            }),
    {
        proof {
            use_type_invariant(&*self);
        }
        self.digits();
        if self.peek1_is(0x2e) && self.peek_is_digit(Some(1)) {
            self.advance();
            self.digits();
        }
        self.make_token(TokenType::TokenNumber)
    }

    /// Consumes the digits that come next.
    fn digits(&mut self)
        ensures
            final(self).input == old(self).input,
            final(self).start == old(self).start,
            final(self).start_col == old(self).start_col,
            final(self).current >= old(self).current,
            final(self).cursor() == digits_end(old(self).input@, old(self).cursor()),
    {
        proof {
            use_type_invariant(&*self);
        }
        while self.peek_is_digit(None)
            invariant
                self.input == old(self).input,
                self.start == old(self).start,
                self.start_col == old(self).start_col,
                old(self).current <= self.current <= self.input@.len(),
                digits_end(self.input@, self.cursor()) == digits_end(
                    old(self).input@,
                    old(self).cursor(),
                ),
            decreases self.input@.len() - self.current,
        {
            self.advance();
        }
    }

    fn string(&mut self) -> (t: Token)
        requires
            old(self).start < old(self).current,
        ensures
            final(self).input == old(self).input,
            ({
                let q = string_end(old(self).input@, old(self).cursor());
                if 0 <= q.pos < old(self).input@.len() {
                    let e = advance_cursor(old(self).input@, q);
                    &&& final(self).cursor() == e
                    &&& t@ == (TokenView {
                        token_type: TokenType::TokenString,
                        raw: lexeme(old(self).input@, old(self).start as int, e.pos),
                        line: e.line,
                        col: old(self).start_col,
                    })
                } else {
                    &&& final(self).cursor() == q
                    &&& t@ == (TokenView {
                        token_type: TokenType::TokenError,
                        raw: "unterminated string"@,
                        line: q.line,
                        col: old(self).start_col,
                    })
                }
            }),
    {
        proof {
            use_type_invariant(&*self);
        }
        while !self.is_end() && !self.peek1_is(0x22)
            invariant
                self.input == old(self).input,
                self.start == old(self).start,
                self.start_col == old(self).start_col,
                old(self).current <= self.current <= self.input@.len(),
                string_end(self.input@, self.cursor()) == string_end(
                    old(self).input@,
                    old(self).cursor(),
                ),
            decreases self.input@.len() - self.current,
        {
            self.advance();
        }
        if self.is_end() {
            return self.error_token(String::from_str("unterminated string"));
        }
        self.advance();
        self.make_token(TokenType::TokenString)
    }

    fn ident(&mut self) -> (t: Token)
        requires
            old(self).start < old(self).current,
        ensures
            final(self).input == old(self).input,
            final(self).cursor() == ident_end(old(self).input@, old(self).cursor()),
            t@ == (TokenView {
                token_type: word_type(
                    old(self).input@.subrange(old(self).start as int, final(self).cursor().pos),
                ),
                raw: lexeme(old(self).input@, old(self).start as int, final(self).cursor().pos),
                line: final(self).cursor().line,
                col: old(self).start_col,
            }),
    {
        proof {
            use_type_invariant(&*self);
        }
        while self.peek1_is_alpha_num()
            invariant
                self.input == old(self).input,
                self.start == old(self).start,
                self.start_col == old(self).start_col,
                old(self).current <= self.current <= self.input@.len(),
                ident_end(self.input@, self.cursor()) == ident_end(
                    old(self).input@,
                    old(self).cursor(),
                ),
            decreases self.input@.len() - self.current,
        {
            self.advance();
        }
        let ident_type = self.ident_type();
        self.make_token(ident_type)
    }

    /// The text of the source between two offsets.
    fn fetch(&self, from: usize, to: usize) -> (r: String)
        requires
            from <= to <= self.input@.len(),
        ensures
            r@ == lexeme(self.input@, from as int, to as int),
    {
        bytes_to_text(slice_subrange(self.input.as_slice(), from, to))
    }

    fn ident_type(&self) -> (t: TokenType)
        requires
            self.start <= self.current,
        ensures
            t == word_type(self.input@.subrange(self.start as int, self.current as int)),
    {
        proof {
            use_type_invariant(self);
        }
        keyword_of(slice_subrange(self.input.as_slice(), self.start, self.current))
    }

    /// Scans the next token.
    pub fn scan_next(&mut self) -> (t: Token)
        ensures
            final(self).source() == old(self).source(),
            (t@, final(self).cursor()) == next_token(old(self).source(), old(self).cursor()),
    {
        self.skip_whitespaces();
        proof {
            use_type_invariant(&*self);
        }
        self.start = self.current;
        self.start_col = self.col;
        if self.is_end() {
            return self.make_token(TokenType::TokenEof);
        }
        let ch = self.advance();
        if is_digit(ch) {
            return self.number();
        }
        if is_alpha(ch) {
            return self.ident();
        }
        if ch == 0x22 {
            return self.string();
        }
        let follows = (ch == 0x21 || ch == 0x3d || ch == 0x3c || ch == 0x3e) && self.next_matches(
            0x3d,
        );
        let kind = match ch {
            0x28 => Some(TokenType::TokenLeftParen),
            0x29 => Some(TokenType::TokenRightParen),
            0x7b => Some(TokenType::TokenLeftBrace),
            0x7d => Some(TokenType::TokenRightBrace),
            0x3b => Some(TokenType::TokenSemicolon),
            0x2c => Some(TokenType::TokenComma),
            0x2e => Some(TokenType::TokenDot),
            0x2d => Some(TokenType::TokenMinus),
            0x2b => Some(TokenType::TokenPlus),
            0x2f => Some(TokenType::TokenSlash),
            0x2a => Some(TokenType::TokenStar),
            0x21 => Some(if follows { TokenType::TokenBangEqual } else { TokenType::TokenBang }),
            0x3d => Some(if follows { TokenType::TokenEqualEqual } else { TokenType::TokenEqual }),
            0x3c => Some(if follows { TokenType::TokenLessEqual } else { TokenType::TokenLess }),
            0x3e => Some(
                if follows {
                    TokenType::TokenGreaterEqual
                } else {
                    TokenType::TokenGreater
                },
            ),
            _ => None,
        };
        match kind {
            Some(token_type) => self.make_token(token_type),
            None => {
                let mut msg = String::from_str("unexpected character ");
                msg.push(ch as char);
                self.error_token(msg)
            },
        }
    }

    fn is_end(&self) -> (r: bool)
        ensures
            r == (self.current >= self.input@.len()),
    {
        self.current >= self.input.len()
    }
}

} // verus!
