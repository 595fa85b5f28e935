//! The token cursor every grammar-production parser consumes: lookahead,
//! consumption, mandatory-token expectation, and the strict-mode flag.

use vstd::prelude::*;
use vstd::string::StringExecFns;
use crate::error::{ErrorModel, ParseError};
use crate::token::{Punctuator, Token, TokenKind};

verus! {

/// Mathematical image of a [`Cursor`]: the token stream, how far it has been
/// consumed, and the strict-mode flag.
pub struct CursorModel {
    /// The whole token stream.
    pub tokens: Seq<Token>,
    /// How many tokens were consumed so far.
    pub index: int,
    /// Whether strict-mode rules are in force.
    pub strict: bool,
}

/// A cursor over a lexed token stream.
#[derive(Debug)]
pub struct Cursor {
    tokens: Vec<Token>,
    index: usize,
    strict: bool,
}

impl View for Cursor {
    type V = CursorModel;

    closed spec fn view(&self) -> CursorModel {
        CursorModel { tokens: self.tokens@, index: self.index as int, strict: self.strict }
    }
}

impl Cursor {
    /// A cursor at the start of the given token stream.
    pub fn new(tokens: Vec<Token>, strict: bool) -> (c: Cursor)
        ensures
            c@.tokens == tokens@,
            c@.index == 0,
            c@.strict == strict,
            c.wf(),
    {
        Cursor { tokens, index: 0, strict }
    }

    /// The consumed prefix never runs past the end of the stream.
    pub open spec fn wf(&self) -> bool {
        0 <= self@.index <= self@.tokens.len()
    }

    /// How many tokens are still unconsumed.
    pub open spec fn remaining(&self) -> int {
        self@.tokens.len() - self@.index
    }

    /// Whether strict-mode rules are in force.
    pub fn strict_mode(&self) -> (r: bool)
        ensures
            r == self@.strict,
    {
        self.strict
    }

    /// Turns strict-mode rules on or off.
    pub fn set_strict_mode(&mut self, strict: bool)
        ensures
            final(self)@.tokens == old(self)@.tokens,
            final(self)@.index == old(self)@.index,
            final(self)@.strict == strict,
            old(self).wf() ==> final(self).wf(),
    {
        self.strict = strict;
    }

    /// The token `offset` places ahead of the next unconsumed one, if the
    /// stream still holds one.
    pub fn peek(&self, offset: usize) -> (r: Option<&Token>)
        requires
            self.wf(),
        ensures
            self@.index + offset < self@.tokens.len() ==> (r matches Some(t) && *t
                == self@.tokens[self@.index + offset]),
            self@.index + offset >= self@.tokens.len() ==> r is None,
    {
        if self.index < self.tokens.len() && offset < self.tokens.len() - self.index {
            Some(&self.tokens[self.index + offset])
        } else {
            None
        }
    }

    /// Consumes and returns the next token, if the stream still holds one.
    pub fn next(&mut self) -> (r: Option<Token>)
        requires
            old(self).wf(),
        ensures
            final(self).wf(),
            final(self)@.tokens == old(self)@.tokens,
            final(self)@.strict == old(self)@.strict,
            old(self)@.index < old(self)@.tokens.len() ==> (final(self)@.index == old(self)@.index
                + 1 && (r matches Some(t) && t.kind@
                == old(self)@.tokens[old(self)@.index].kind@ && t.position
                == old(self)@.tokens[old(self)@.index].position)),
            old(self)@.index >= old(self)@.tokens.len() ==> (final(self)@.index
                == old(self)@.index && r is None),
    {
        if self.index < self.tokens.len() {
            let t = self.tokens[self.index].clone();
            self.index = self.index + 1;
            Some(t)
        } else {
            None
        }
    }

    /// Dissolves the cursor back into its token stream.
    pub fn into_tokens(self) -> (t: Vec<Token>)
        ensures
            t@ == self@.tokens,
    {
        self.tokens
    }

    /// Consumes the next token, which must exist and be of the expected kind;
    /// otherwise fails with an expectation error naming the grammar
    /// production, or with an abrupt end.
    pub fn expect(&mut self, expected: TokenKind, context: &str) -> (r: Result<
        Token,
        ParseError,
    >)
        requires
            old(self).wf(),
        ensures
            final(self).wf(),
            final(self)@.tokens == old(self)@.tokens,
            final(self)@.strict == old(self)@.strict,
            r is Ok <==> (old(self)@.index < old(self)@.tokens.len()
                && old(self)@.tokens[old(self)@.index].kind@ == expected@),
            r is Ok ==> final(self)@.index == old(self)@.index + 1,
            r matches Ok(t) ==> t.kind@ == expected@ && t.position
                == old(self)@.tokens[old(self)@.index].position,
            r is Err ==> final(self)@.index == old(self)@.index,
            old(self)@.index >= old(self)@.tokens.len() ==> r matches Err(
                ParseError::AbruptEnd,
            ),
            (old(self)@.index < old(self)@.tokens.len()
                && old(self)@.tokens[old(self)@.index].kind@ != expected@) ==> (r matches Err(e)
                && e@ == (ErrorModel::Expected {
                expected: seq![expected@],
                found: old(self)@.tokens[old(self)@.index].kind@,
                position: old(self)@.tokens[old(self)@.index].position,
                context: context@,
            })),
    {
        match self.peek(0) {
            None => Err(ParseError::AbruptEnd),
            Some(t) => {
                if t.kind().same_kind(&expected) {
                    let t = self.next();
                    match t {
                        Some(t) => Ok(t),
                        None => Err(ParseError::AbruptEnd),
                    }
                } else {
                    let found = t.clone();
                    let err = ParseError::expected(vec![expected], found, context.to_owned());
                    proof {
                        assert(err@ matches ErrorModel::Expected { expected: ks, .. }
                            && ks =~= seq![expected@]);
                    }
                    Err(err)
                }
            },
        }
    }

    /// Consumes the next token, which must be a semicolon.
    pub fn expect_semicolon(&mut self, context: &str) -> (r: Result<Token, ParseError>)
        requires
            old(self).wf(),
        ensures
            final(self).wf(),
            final(self)@.tokens == old(self)@.tokens,
            final(self)@.strict == old(self)@.strict,
            r is Ok <==> (old(self)@.index < old(self)@.tokens.len()
                && old(self)@.tokens[old(self)@.index].kind@ == TokenKind::Punctuator(
                Punctuator::Semicolon,
            )@),
            r is Ok ==> final(self)@.index == old(self)@.index + 1,
            r is Err ==> final(self)@.index == old(self)@.index,
            old(self)@.index >= old(self)@.tokens.len() ==> r matches Err(
                ParseError::AbruptEnd,
            ),
            (old(self)@.index < old(self)@.tokens.len()
                && old(self)@.tokens[old(self)@.index].kind@ != TokenKind::Punctuator(
                Punctuator::Semicolon,
            )@) ==> (r matches Err(e) && e@ == (ErrorModel::Expected {
                expected: seq![TokenKind::Punctuator(Punctuator::Semicolon)@],
                found: old(self)@.tokens[old(self)@.index].kind@,
                position: old(self)@.tokens[old(self)@.index].position,
                context: context@,
            })),
    {
        self.expect(TokenKind::Punctuator(Punctuator::Semicolon), context)
    }
}

} // verus!
