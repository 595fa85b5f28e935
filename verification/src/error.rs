//! Parse errors: grammar violations, abrupt end of input, and wrong tokens at
//! mandatory positions. Errors carry the offending source position and a
//! human-readable context, and are propagated upward unchanged.

use vstd::prelude::*;
use crate::position::Position;
use crate::token::{Token, TokenKind};

verus! {

/// An error produced while parsing a script.
#[derive(Clone, Debug)]
pub enum ParseError {
    /// A grammar or scoping violation, with a message and the offending position.
    Syntax {
        /// Human-readable description of the violation.
        message: String,
        /// Where in the source the violation was found.
        position: Position,
    },
    /// A general parse failure with a fixed message and the offending position.
    General {
        /// Human-readable description of the failure.
        message: String,
        /// Where in the source the failure was found.
        position: Position,
    },
    /// A mandatory position held the wrong token.
    Expected {
        /// The kinds of token that would have been accepted.
        expected: Vec<TokenKind>,
        /// The token actually found.
        found: Token,
        /// The grammar production that required the token.
        context: String,
    },
    /// The token stream ended in the middle of a production.
    AbruptEnd,
}

impl ParseError {
    /// Builds a syntax error from a message and a position.
    pub fn syntax(message: String, position: Position) -> (e: ParseError)
        ensures
            e matches ParseError::Syntax { message: m, position: p } && m@ == message@ && p
                == position,
    {
        ParseError::Syntax { message, position }
    }

    /// Builds a general parse error from a message and a position.
    pub fn general(message: String, position: Position) -> (e: ParseError)
        ensures
            e matches ParseError::General { message: m, position: p } && m@ == message@ && p
                == position,
    {
        ParseError::General { message, position }
    }

    /// Builds an error for a wrong token at a mandatory position.
    pub fn expected(expected: Vec<TokenKind>, found: Token, context: String) -> (e: ParseError)
        ensures
            e matches ParseError::Expected { expected: k, found: f, context: c } && k == expected
                && f == found && c@ == context@,
    {
        ParseError::Expected { expected, found, context }
    }

    /// True when the error is a syntax (scoping or grammar) violation.
    pub fn is_syntax(&self) -> (r: bool)
        ensures
            r == (self matches ParseError::Syntax { .. }),
    {
        match self {
            ParseError::Syntax { .. } => true,
            _ => false,
        }
    }

    /// The message carried by a syntax or general error, the context of an
    /// expectation error, or an empty string for an abrupt end.
    pub fn message(&self) -> (r: String)
        ensures
            self matches ParseError::Syntax { message: m, .. } ==> r@ == m@,
            self matches ParseError::General { message: m, .. } ==> r@ == m@,
            self matches ParseError::Expected { context: c, .. } ==> r@ == c@,
            self matches ParseError::AbruptEnd ==> r@ == Seq::<char>::empty(),
    {
        match self {
            ParseError::Syntax { message, .. } => message.clone(),
            ParseError::General { message, .. } => message.clone(),
            ParseError::Expected { context, .. } => context.clone(),
            ParseError::AbruptEnd => String::new(),
        }
    }
}

} // verus!

verus! {

/// Mathematical image of a [`ParseError`]: messages and contexts as
/// character sequences, expected kinds as kind images.
pub enum ErrorModel {
    /// A grammar or scoping violation.
    Syntax {
        /// The violation's message.
        message: Seq<char>,
        /// The offending position.
        position: Position,
    },
    /// A general parse failure.
    General {
        /// The failure's message.
        message: Seq<char>,
        /// The offending position.
        position: Position,
    },
    /// The wrong token at a mandatory position.
    Expected {
        /// The acceptable kinds.
        expected: Seq<crate::token::TokenKindView>,
        /// The kind actually found.
        found: crate::token::TokenKindView,
        /// Where the found token starts.
        position: Position,
        /// The grammar production that required the token.
        context: Seq<char>,
    },
    /// The token stream ended mid-production.
    AbruptEnd,
}

/// The images of a sequence of token kinds.
pub open spec fn kind_views(s: Seq<TokenKind>) -> Seq<crate::token::TokenKindView> {
    Seq::new(s.len(), |i: int| s[i]@)
}

impl View for ParseError {
    type V = ErrorModel;

    open spec fn view(&self) -> ErrorModel {
        match self {
            ParseError::Syntax { message, position } => ErrorModel::Syntax {
                message: message@,
                position: *position,
            },
            ParseError::General { message, position } => ErrorModel::General {
                message: message@,
                position: *position,
            },
            ParseError::Expected { expected, found, context } => ErrorModel::Expected {
                expected: kind_views(expected@),
                found: found.kind@,
                position: found.position,
                context: context@,
            },
            ParseError::AbruptEnd => ErrorModel::AbruptEnd,
        }
    }
}

/// Whether an error is the scope tracker's rejection at a level exit: a
/// syntax error whose message is the pop-time redeclaration message of some
/// name.
pub open spec fn is_scope_rejection(e: ErrorModel) -> bool {
    e matches ErrorModel::Syntax { message, .. } && exists|n: Seq<char>|
        message == crate::declared_names::pop_redeclaration_message(n)
}

} // verus!
