//! Lexical units: keywords, punctuators, identifiers and literals, each with
//! the source position where it starts.

use vstd::prelude::*;
use crate::position::Position;

verus! {

/// A reserved word of the grammar subset covered by this crate.
#[derive(Clone, Copy, Debug, PartialEq, Eq, Structural)]
pub enum Keyword {
    /// `break`
    Break,
    /// `class`
    Class,
    /// `const`
    Const,
    /// `continue`
    Continue,
    /// `for`
    For,
    /// `get`
    Getter,
    /// `in`
    In,
    /// `let`
    Let,
    /// `return`
    Return,
    /// `set`
    Setter,
    /// `static`
    Static,
    /// `var`
    Var,
    /// `while`
    While,
}

/// A punctuation token.
#[derive(Clone, Copy, Debug, PartialEq, Eq, Structural)]
pub enum Punctuator {
    /// `{`
    OpenBlock,
    /// `}`
    CloseBlock,
    /// `(`
    OpenParen,
    /// `)`
    CloseParen,
    /// `;`
    Semicolon,
    /// `:`
    Colon,
    /// `,`
    Comma,
    /// `=`
    Assign,
    /// `+`
    Add,
    /// `...`
    Spread,
}

/// The kind of a token: which word, symbol, name or literal it is.
#[derive(Debug)]
pub enum TokenKind {
    /// A reserved word.
    Keyword(Keyword),
    /// A punctuation symbol.
    Punctuator(Punctuator),
    /// A name written by the script author.
    Identifier(String),
    /// A double-quoted string literal, with the quotes stripped.
    StringLiteral(String),
    /// `true` or `false`.
    BoolLiteral(bool),
}

/// Mathematical image of a [`TokenKind`]: identifier and literal text as
/// character sequences.
pub enum TokenKindView {
    /// A reserved word.
    Keyword(Keyword),
    /// A punctuation symbol.
    Punctuator(Punctuator),
    /// A name written by the script author.
    Identifier(Seq<char>),
    /// A string literal with the quotes stripped.
    StringLiteral(Seq<char>),
    /// `true` or `false`.
    BoolLiteral(bool),
}

impl View for TokenKind {
    type V = TokenKindView;

    open spec fn view(&self) -> TokenKindView {
        match self {
            TokenKind::Keyword(k) => TokenKindView::Keyword(*k),
            TokenKind::Punctuator(p) => TokenKindView::Punctuator(*p),
            TokenKind::Identifier(s) => TokenKindView::Identifier(s@),
            TokenKind::StringLiteral(s) => TokenKindView::StringLiteral(s@),
            TokenKind::BoolLiteral(b) => TokenKindView::BoolLiteral(*b),
        }
    }
}

impl TokenKind {
    /// Decides whether two token kinds are the same kind with the same text.
    pub fn same_kind(&self, other: &TokenKind) -> (r: bool)
        ensures
            r == (self@ == other@),
    {
        match (self, other) {
            (TokenKind::Punctuator(a), TokenKind::Punctuator(b)) => *a == *b,
            (TokenKind::Keyword(a), TokenKind::Keyword(b)) => *a == *b,
            (TokenKind::Identifier(a), TokenKind::Identifier(b)) => *a == *b,
            (TokenKind::StringLiteral(a), TokenKind::StringLiteral(b)) => *a == *b,
            (TokenKind::BoolLiteral(a), TokenKind::BoolLiteral(b)) => *a == *b,
            _ => false,
        }
    }
}

/// A lexical unit: a kind plus the position of its first character.
#[derive(Debug)]
pub struct Token {
    /// Which word, symbol, name or literal this token is.
    pub kind: TokenKind,
    /// Position of the token's first character.
    pub position: Position,
}

impl Token {
    /// Builds a token from its kind and starting position.
    pub fn new(kind: TokenKind, position: Position) -> (t: Token)
        ensures
            t.kind == kind,
            t.position == position,
    {
        Token { kind, position }
    }

    /// The kind of this token.
    pub fn kind(&self) -> (k: &TokenKind)
        ensures
            k == &self.kind,
    {
        &self.kind
    }

    /// The position of this token's first character.
    pub fn position(&self) -> (p: Position)
        ensures
            p == self.position,
    {
        self.position
    }
}

impl Clone for Token {
    /// Copies the token.
    fn clone(&self) -> (r: Token)
        ensures
            r.kind@ == self.kind@,
            r.position == self.position,
    {
        Token { kind: self.kind.clone(), position: self.position }
    }
}

impl Clone for TokenKind {
    /// Copies the token kind.
    fn clone(&self) -> (r: TokenKind)
        ensures
            r@ == self@,
    {
        match self {
            TokenKind::Keyword(k) => TokenKind::Keyword(*k),
            TokenKind::Punctuator(p) => TokenKind::Punctuator(*p),
            TokenKind::Identifier(s) => TokenKind::Identifier(s.clone()),
            TokenKind::StringLiteral(s) => TokenKind::StringLiteral(s.clone()),
            TokenKind::BoolLiteral(b) => TokenKind::BoolLiteral(*b),
        }
    }
}

} // verus!

