//! A lexer for the covered grammar subset: whitespace, punctuators, double-
//! quoted string literals, identifiers and reserved words, each token tagged
//! with the line and column it starts on.

use vstd::prelude::*;
use vstd::string::{StrSliceExecFns, StringExecFns};
use crate::error::ParseError;
use crate::position::Position;
use crate::token::{Keyword, Punctuator, Token, TokenKind};

verus! {

/// Counts one step further, stopping at the largest representable count.
fn bump(x: u32) -> (r: u32)
    ensures
        x < u32::MAX ==> r == x + 1,
{
    if x < u32::MAX {
        x + 1
    } else {
        x
    }
}

/// Advances a column counter by a character count, stopping at the largest
/// representable column.
fn advance_column(col: u32, by: usize) -> (r: u32)
{
    let capped: u32 = if by > 0xffff_ffff_usize {
        u32::MAX
    } else {
        by as u32
    };
    if col <= u32::MAX - capped {
        col + capped
    } else {
        u32::MAX
    }
}

/// Whether the character may start an identifier.
fn is_ident_start(c: char) -> bool {
    let u = c as u32;
    (u >= 'a' as u32 && u <= 'z' as u32) || (u >= 'A' as u32 && u <= 'Z' as u32) || c == '_' || c
        == '$'
}

/// Whether the character may continue an identifier.
fn is_ident_continue(c: char) -> bool {
    let u = c as u32;
    is_ident_start(c) || (u >= '0' as u32 && u <= '9' as u32)
}

/// Whether two strings hold the same characters.
fn str_is(a: &String, b: &str) -> (r: bool)
    ensures
        r == (a@ == b@),
{
    let owned = b.to_owned();
    *a == owned
}

/// The token kind of a completed word: a reserved word, a boolean literal,
/// or a plain identifier.
fn classify_word(text: String) -> (k: TokenKind) {
    if str_is(&text, "break") {
        TokenKind::Keyword(Keyword::Break)
    } else if str_is(&text, "class") {
        TokenKind::Keyword(Keyword::Class)
    } else if str_is(&text, "const") {
        TokenKind::Keyword(Keyword::Const)
    } else if str_is(&text, "continue") {
        TokenKind::Keyword(Keyword::Continue)
    } else if str_is(&text, "for") {
        TokenKind::Keyword(Keyword::For)
    } else if str_is(&text, "get") {
        TokenKind::Keyword(Keyword::Getter)
    } else if str_is(&text, "in") {
        TokenKind::Keyword(Keyword::In)
    } else if str_is(&text, "let") {
        TokenKind::Keyword(Keyword::Let)
    } else if str_is(&text, "return") {
        TokenKind::Keyword(Keyword::Return)
    } else if str_is(&text, "set") {
        TokenKind::Keyword(Keyword::Setter)
    } else if str_is(&text, "static") {
        TokenKind::Keyword(Keyword::Static)
    } else if str_is(&text, "var") {
        TokenKind::Keyword(Keyword::Var)
    } else if str_is(&text, "while") {
        TokenKind::Keyword(Keyword::While)
    } else if str_is(&text, "true") {
        TokenKind::BoolLiteral(true)
    } else if str_is(&text, "false") {
        TokenKind::BoolLiteral(false)
    } else {
        TokenKind::Identifier(text)
    }
}

/// Turns source text into a token stream, or fails with a syntax error
/// naming the offending position. Lexing is excluded from the verified
/// grammar rules: its contract is only that it terminates and that errors
/// carry the position they arose at.
pub fn lex(source: &str) -> Result<Vec<Token>, ParseError> {
    let n = source.unicode_len();
    let mut tokens: Vec<Token> = Vec::new();
    let mut i: usize = 0;
    let mut line: u32 = 1;
    let mut col: u32 = 1;
    while i < n
        invariant
            n == source@.len(),
            i <= n,
        decreases n - i,
    {
        let c = source.get_char(i);
        let pos = Position::new(line, col);
        if c == ' ' || c == '\t' {
            i = i + 1;
            col = bump(col);
        } else if c == '\n' {
            i = i + 1;
            line = bump(line);
            col = 1;
        } else if c == '\r' {
            i = i + 1;
        } else if c == '{' {
            tokens.push(Token::new(TokenKind::Punctuator(Punctuator::OpenBlock), pos));
            i = i + 1;
            col = bump(col);
        } else if c == '}' {
            tokens.push(Token::new(TokenKind::Punctuator(Punctuator::CloseBlock), pos));
            i = i + 1;
            col = bump(col);
        } else if c == '(' {
            tokens.push(Token::new(TokenKind::Punctuator(Punctuator::OpenParen), pos));
            i = i + 1;
            col = bump(col);
        } else if c == ')' {
            tokens.push(Token::new(TokenKind::Punctuator(Punctuator::CloseParen), pos));
            i = i + 1;
            col = bump(col);
        } else if c == ';' {
            tokens.push(Token::new(TokenKind::Punctuator(Punctuator::Semicolon), pos));
            i = i + 1;
            col = bump(col);
        } else if c == ':' {
            tokens.push(Token::new(TokenKind::Punctuator(Punctuator::Colon), pos));
            i = i + 1;
            col = bump(col);
        } else if c == ',' {
            tokens.push(Token::new(TokenKind::Punctuator(Punctuator::Comma), pos));
            i = i + 1;
            col = bump(col);
        } else if c == '=' {
            tokens.push(Token::new(TokenKind::Punctuator(Punctuator::Assign), pos));
            i = i + 1;
            col = bump(col);
        } else if c == '+' {
            tokens.push(Token::new(TokenKind::Punctuator(Punctuator::Add), pos));
            i = i + 1;
            col = bump(col);
        } else if c == '.' {
            if n - i > 2 && source.get_char(i + 1) == '.' && source.get_char(i + 2) == '.' {
                tokens.push(Token::new(TokenKind::Punctuator(Punctuator::Spread), pos));
                i = i + 3;
                col = advance_column(col, 3);
            } else {
                return Err(
                    ParseError::syntax(String::from_str("unexpected character in input"), pos),
                );
            }
        } else if c == '"' {
            let mut j: usize = i + 1;
            while j < n && source.get_char(j) != '"'
                invariant
                    n == source@.len(),
                    i + 1 <= j <= n,
                decreases n - j,
            {
                j = j + 1;
            }
            if j >= n {
                return Err(
                    ParseError::syntax(String::from_str("unterminated string literal"), pos),
                );
            }
            let text = source.substring_char(i + 1, j).to_owned();
            tokens.push(Token::new(TokenKind::StringLiteral(text), pos));
            col = advance_column(col, j + 1 - i);
            i = j + 1;
        } else if is_ident_start(c) {
            let mut j: usize = i + 1;
            while j < n && is_ident_continue(source.get_char(j))
                invariant
                    n == source@.len(),
                    i + 1 <= j <= n,
                decreases n - j,
            {
                j = j + 1;
            }
            let text = source.substring_char(i, j).to_owned();
            tokens.push(Token::new(classify_word(text), pos));
            col = advance_column(col, j - i);
            i = j;
        } else {
            return Err(
                ParseError::syntax(String::from_str("unexpected character in input"), pos),
            );
        }
    }
    Ok(tokens)
}

} // verus!
