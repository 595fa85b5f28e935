//! The top-level parser: a full script is a statement list parsed to the end
//! of input, with an opening `"use strict"` literal turning strict-mode rules
//! on for the rest of the parse.

use vstd::prelude::*;
use vstd::string::StringExecFns;
use crate::ast;
use crate::ast::nviews;
use crate::cursor::Cursor;
use crate::declared_names::DeclaredNames;
use crate::error::ParseError;
use crate::error::is_scope_rejection;
use crate::grammar::{p_script, p_stmt_list, Production};
use crate::lexer::lex;
use crate::statement::StatementList;
use crate::token::{Token, TokenKind, TokenKindView};

verus! {

/// Parses a full script: an optional leading `"use strict"` directive, then
/// a script body.
#[derive(Clone, Copy, Debug)]
pub struct Script;

/// Whether the cursor stands at a `"use strict"` string literal.
pub open spec fn at_use_strict_directive(tokens: Seq<crate::token::Token>, index: int) -> bool {
    0 <= index < tokens.len() && tokens[index].kind@ == TokenKindView::StringLiteral(
        "use strict"@,
    )
}

impl Script {
    /// Parses the whole script that the cursor stands at. An opening
    /// `"use strict"` literal turns strict-mode rules on for the rest of the
    /// parse; nothing turns them off again.
    pub fn parse(self, cursor: &mut Cursor, env: &mut DeclaredNames) -> (r: Result<
        ast::StatementList,
        ParseError,
    >)
        requires
            old(cursor).wf(),
            old(env).wf(),
        ensures
            final(cursor).wf(),
            final(cursor)@.tokens == old(cursor)@.tokens,
            final(cursor)@.strict == (old(cursor)@.strict || at_use_strict_directive(
                old(cursor)@.tokens,
                old(cursor)@.index,
            )),
            final(env).wf(),
            r is Ok ==> final(env)@.stack == old(env)@.stack,
            ({
                let o = p_script(old(cursor)@.tokens, old(cursor)@.index, old(env)@);
                match o {
                    Production::Parsed { value, next, names } => (r matches Ok(l) && nviews(
                        l.statements@,
                    ) == value && final(cursor)@.index == next && final(env)@ == names),
                    Production::Rejected { error } => (r matches Err(e) && e@ == error),
                    Production::RejectedScope => (r matches Err(e) && is_scope_rejection(e@)),
                }
            }),
    {
        let strict: bool = match cursor.peek(0) {
            None => {
                return Ok(ast::StatementList::new(Vec::new()));
            },
            Some(tok) => match tok.kind() {
                TokenKind::StringLiteral(s) => {
                    let directive = "use strict".to_owned();
                    *s == directive
                },
                _ => false,
            },
        };
        if strict {
            cursor.set_strict_mode(true);
        }
        ScriptBody.parse(cursor, env)
    }
}

/// Parses a script body: statements until the end of input.
#[derive(Clone, Copy, Debug)]
pub struct ScriptBody;

impl ScriptBody {
    /// Parses statements until the end of input.
    pub fn parse(self, cursor: &mut Cursor, env: &mut DeclaredNames) -> (r: Result<
        ast::StatementList,
        ParseError,
    >)
        requires
            old(cursor).wf(),
            old(env).wf(),
        ensures
            final(cursor).wf(),
            final(cursor)@.tokens == old(cursor)@.tokens,
            final(cursor)@.strict == old(cursor)@.strict,
            final(env).wf(),
            r is Ok ==> final(env)@.stack == old(env)@.stack,
            ({
                let o = p_stmt_list(
                    old(cursor)@.tokens,
                    old(cursor)@.index,
                    old(env)@,
                    Seq::empty(),
                );
                match o {
                    Production::Parsed { value, next, names } => (r matches Ok(l) && nviews(
                        l.statements@,
                    ) == value && final(cursor)@.index == next && final(env)@ == names),
                    Production::Rejected { error } => (r matches Err(e) && e@ == error),
                    Production::RejectedScope => (r matches Err(e) && is_scope_rejection(e@)),
                }
            }),
    {
        let list = StatementList::new(false, false, false, false, Vec::new());
        proof {
            assert(crate::error::kind_views(list.break_tokens@) =~= Seq::<TokenKindView>::empty());
        }
        list.parse(cursor, env)
    }
}

/// The parser: holds the lexed token stream (or the lexing error) and the
/// strict-mode flag the parse starts from.
#[derive(Debug)]
pub struct Parser {
    tokens: Vec<Token>,
    lex_failure: Option<ParseError>,
    strict_mode: bool,
}

impl Parser {
    /// The token stream the source lexed to (empty when lexing failed).
    pub closed spec fn tokens_view(&self) -> Seq<Token> {
        self.tokens@
    }

    /// Whether lexing the source failed.
    pub closed spec fn lex_failed(&self) -> bool {
        self.lex_failure is Some
    }

    /// The lexing error, when lexing failed.
    pub closed spec fn lex_error_view(&self) -> crate::error::ErrorModel
        recommends
            self.lex_failed(),
    {
        self.lex_failure->0@
    }

    /// The strict-mode flag the parse starts from.
    pub closed spec fn strict_view(&self) -> bool {
        self.strict_mode
    }

    /// A parser over the given source text: the source is lexed up front,
    /// and a lexing error is reported by [`parse_all`](Self::parse_all).
    pub fn new(source: &str, strict_mode: bool) -> (p: Parser)
        ensures
            p.strict_view() == strict_mode,
    {
        match lex(source) {
            Ok(tokens) => Parser { tokens, lex_failure: None, strict_mode },
            Err(e) => Parser { tokens: Vec::new(), lex_failure: Some(e), strict_mode },
        }
    }

    /// Parses the lexed stream as a full script, threading one fresh
    /// declared-names tracker through the whole parse. The result is exactly
    /// what the specification grammar says of the token stream; a lexing
    /// failure surfaces here unchanged.
    pub fn parse_all(&mut self) -> (r: Result<ast::StatementList, ParseError>)
        ensures
            final(self).tokens_view() == old(self).tokens_view(),
            final(self).lex_failed() == old(self).lex_failed(),
            old(self).lex_failed() ==> (r matches Err(e) && e@ == old(self).lex_error_view()),
            !old(self).lex_failed() ==> ({
                let o = p_script(
                    old(self).tokens_view(),
                    0,
                    crate::declared_names::empty_names_model(),
                );
                match o {
                    Production::Parsed { value, next, names } => (r matches Ok(l) && nviews(
                        l.statements@,
                    ) == value),
                    Production::Rejected { error } => (r matches Err(e) && e@ == error),
                    Production::RejectedScope => (r matches Err(e) && is_scope_rejection(e@)),
                }
            }),
    {
        match &self.lex_failure {
            Some(e) => {
                return Err(clone_error(e));
            },
            None => (),
        }
        let mut tokens: Vec<Token> = Vec::new();
        core::mem::swap(&mut self.tokens, &mut tokens);
        let mut cursor = Cursor::new(tokens, self.strict_mode);
        let mut names = DeclaredNames::default();
        let result = Script.parse(&mut cursor, &mut names);
        let recovered = cursor.into_tokens();
        self.tokens = recovered;
        result
    }
}

/// Copies a parse error, view for view.
fn clone_error(e: &ParseError) -> (r: ParseError)
    ensures
        r@ == e@,
{
    match e {
        ParseError::Syntax { message, position } => ParseError::Syntax {
            message: message.clone(),
            position: *position,
        },
        ParseError::General { message, position } => ParseError::General {
            message: message.clone(),
            position: *position,
        },
        ParseError::Expected { expected, found, context } => {
            let mut kinds: Vec<TokenKind> = Vec::new();
            let mut i: usize = 0;
            while i < expected.len()
                invariant
                    i <= expected@.len(),
                    kinds@.len() == i,
                    forall|j: int| 0 <= j < i ==> kinds@[j]@ == expected@[j]@,
                decreases expected@.len() - i,
            {
                kinds.push(expected[i].clone());
                i = i + 1;
            }
            let r = ParseError::Expected {
                expected: kinds,
                found: found.clone(),
                context: context.clone(),
            };
            proof {
                assert(crate::error::kind_views(kinds@) =~= crate::error::kind_views(expected@));
            }
            r
        },
        ParseError::AbruptEnd => ParseError::AbruptEnd,
    }
}

/// Parses source text as a full script: lexes it, then parses the token
/// stream under [`Parser::parse_all`]'s contract. The lexer itself carries no
/// specification, so nothing is claimed here of the relation between the
/// source text and the returned tree.
pub fn parse(source: &str, strict_mode: bool) -> Result<ast::StatementList, ParseError> {
    let mut parser = Parser::new(source, strict_mode);
    parser.parse_all()
}

} // verus!
