//! Statement, block and expression parsers. Every statement parser threads
//! the same declared-names tracker, pushing and popping a scope level around
//! each lexical block; a block therefore leaves the tracker's lexical names
//! and saved levels exactly as it found them.

use vstd::prelude::*;
use vstd::string::StringExecFns;
use crate::ast;
use crate::ast::{Declaration, Node};
use crate::cursor::Cursor;
use crate::declared_names::DeclaredNames;
use crate::error::ParseError;
use crate::grammar::{
    p_args, p_block, p_decl_items, p_decls, p_expression, p_statement as p_statement_spec,
    p_stmt_list, step, tkind, with_arg_prefix, with_decl_prefix, with_node_prefix, EProduction,
    Production,
};
use crate::error::{is_scope_rejection, kind_views};
use crate::ast::{dview, dviews, nviews, NodeView};
use crate::position::Position;
use crate::token::{Keyword, Punctuator, TokenKind, TokenKindView};

verus! {

/// The statement-list parser: parses statements until the end of input or a
/// terminator token from its break set.
#[derive(Debug)]
pub struct StatementList {
    /// Whether `yield` is allowed in the parsed statements.
    pub allow_yield: bool,
    /// Whether `await` is allowed in the parsed statements.
    pub allow_await: bool,
    /// Whether `return` is allowed in the parsed statements.
    pub allow_return: bool,
    /// Whether the list sits inside a lexical block.
    pub in_block: bool,
    /// The token kinds that end the list without being consumed.
    pub break_tokens: Vec<TokenKind>,
}

/// The lexical-block parser: `{`, a statement list in its own scope level,
/// `}`.
#[derive(Debug)]
pub struct Block {
    allow_yield: bool,
    allow_await: bool,
    allow_return: bool,
}

impl StatementList {
    /// Builds a statement-list parser from its flags and terminator set.
    pub fn new(
        allow_yield: bool,
        allow_await: bool,
        allow_return: bool,
        in_block: bool,
        break_tokens: Vec<TokenKind>,
    ) -> (l: StatementList)
        ensures
            l == (StatementList { allow_yield, allow_await, allow_return, in_block, break_tokens }),
    {
        StatementList { allow_yield, allow_await, allow_return, in_block, break_tokens }
    }

    /// Parses statements until the end of input or a terminator token,
    /// collecting them in source order, exactly as the specification grammar
    /// says.
    pub fn parse(self, cursor: &mut Cursor, env: &mut DeclaredNames) -> (r: Result<
        ast::StatementList,
        ParseError,
    >)
        requires
            old(cursor).wf(),
            old(env).wf(),
        ensures
            final(cursor).wf(),
            final(cursor)@.tokens == old(cursor)@.tokens,
            final(cursor)@.index >= old(cursor)@.index,
            final(cursor)@.strict == old(cursor)@.strict,
            final(env).wf(),
            r is Ok ==> final(env)@.stack == old(env)@.stack,
            ({
                let o = p_stmt_list(
                    old(cursor)@.tokens,
                    old(cursor)@.index,
                    old(env)@,
                    kind_views(self.break_tokens@),
                );
                match o {
                    Production::Parsed { value, next, names } => (r matches Ok(l) && nviews(
                        l.statements@,
                    ) == value && final(cursor)@.index == next && final(env)@ == names),
                    Production::Rejected { error } => (r matches Err(e) && e@ == error),
                    Production::RejectedScope => (r matches Err(e) && is_scope_rejection(e@)),
                }
            }),
        decreases old(cursor).remaining(), 3nat,
    {
        let ghost toks = old(cursor)@.tokens;
        let ghost i0 = old(cursor)@.index;
        let ghost m0 = old(env)@;
        let ghost bks = kind_views(self.break_tokens@);
        let mut statements: Vec<Node> = Vec::new();
        proof {
            crate::grammar::lemma_node_prefix_empty(p_stmt_list(toks, i0, m0, bks));
        }
        loop
            invariant
                cursor.wf(),
                env.wf(),
                cursor@.tokens == toks,
                toks == old(cursor)@.tokens,
                i0 == old(cursor)@.index,
                m0 == old(env)@,
                bks == kind_views(self.break_tokens@),
                cursor@.index >= i0,
                cursor@.strict == old(cursor)@.strict,
                env@.stack == old(env)@.stack,
                p_stmt_list(toks, i0, m0, bks) == with_node_prefix(
                    nviews(statements@),
                    p_stmt_list(toks, cursor@.index, env@, bks),
                ),
            decreases cursor.remaining(),
        {
            let ghost cur = cursor@.index;
            let ghost mcur = env@;
            let ghost prefix = nviews(statements@);
            let done: bool = match cursor.peek(0) {
                None => true,
                Some(tok) => kind_in(&self.break_tokens, tok.kind()),
            };
            if done {
                proof {
                    assert(p_stmt_list(toks, cur, mcur, bks) == (Production::Parsed {
                        value: Seq::<NodeView>::empty(),
                        next: cur,
                        names: mcur,
                    }));
                    assert(prefix + Seq::<NodeView>::empty() =~= prefix);
                }
                return Ok(ast::StatementList::new(statements));
            }
            let stmt = match parse_statement(
                cursor,
                env,
                self.allow_yield,
                self.allow_await,
                self.allow_return,
            ) {
                Ok(s) => s,
                Err(e) => {
                    return Err(e);
                },
            };
            let ghost j = cursor@.index;
            proof {
                assert(step(cur, j, toks.len() as int) == j);
            }
            let ghost stmts_before = statements@;
            statements.push(stmt);
            proof {
                assert(statements@.drop_last() =~= stmts_before);
                assert(statements@.last() == statements@[statements@.len() - 1]);
                assert(nviews(statements@) == prefix.push(stmt@));
                assert(nviews(statements@) =~= prefix + seq![stmt@]);
                crate::grammar::lemma_node_prefix_compose(
                    prefix,
                    seq![stmt@],
                    p_stmt_list(toks, cursor@.index, env@, bks),
                );
                assert(p_stmt_list(toks, cur, mcur, bks) == with_node_prefix(
                    seq![stmt@],
                    p_stmt_list(toks, cursor@.index, env@, bks),
                ));
            }
        }
    }
}

/// Whether the token kind is one of the given terminator kinds.
fn kind_in(kinds: &Vec<TokenKind>, kind: &TokenKind) -> (r: bool)
    ensures
        r == kind_views(kinds@).contains(kind@),
{
    let mut i: usize = 0;
    while i < kinds.len()
        invariant
            i <= kinds@.len(),
            forall|j: int| 0 <= j < i ==> kinds@[j]@ != kind@,
        decreases kinds@.len() - i,
    {
        if kinds[i].same_kind(kind) {
            proof {
                assert(kind_views(kinds@)[i as int] == kind@);
            }
            return true;
        }
        i = i + 1;
    }
    proof {
        assert forall|j: int| 0 <= j < kind_views(kinds@).len() implies kind_views(kinds@)[j]
            != kind@ by {
            assert(kind_views(kinds@)[j] == kinds@[j]@);
        }
    }
    false
}

impl Block {
    /// Builds a block parser from its flags.
    pub fn new(allow_yield: bool, allow_await: bool, allow_return: bool) -> Block {
        Block { allow_yield, allow_await, allow_return }
    }

    /// Parses `{ statements }`, pushing a scope level before the brace and
    /// popping it after, so that lexically declared names die with the block
    /// while `var` names merge outward, exactly as the specification grammar
    /// says. On success the tracker's lexical names and saved levels are
    /// exactly as they were.
    pub fn parse(self, cursor: &mut Cursor, env: &mut DeclaredNames) -> (r: Result<
        ast::Block,
        ParseError,
    >)
        requires
            old(cursor).wf(),
            old(env).wf(),
        ensures
            final(cursor).wf(),
            final(cursor)@.tokens == old(cursor)@.tokens,
            final(cursor)@.index >= old(cursor)@.index,
            final(cursor)@.strict == old(cursor)@.strict,
            r is Ok ==> final(cursor)@.index > old(cursor)@.index,
            final(env).wf(),
            r is Ok ==> final(env)@.stack == old(env)@.stack && final(env)@.lex == old(env)@.lex,
            r is Ok ==> forall|n: Seq<char>|
                old(env)@.var.contains_key(n) ==> #[trigger] final(env)@.var.contains_key(n)
                    && final(env)@.var[n] == old(env)@.var[n],
            ({
                let o = p_block(old(cursor)@.tokens, old(cursor)@.index, old(env)@);
                match o {
                    Production::Parsed { value, next, names } => (r matches Ok(b) && nviews(
                        b.statements@,
                    ) == value && final(cursor)@.index == next && final(env)@ == names),
                    Production::Rejected { error } => (r matches Err(e) && e@ == error),
                    Production::RejectedScope => (r matches Err(e) && is_scope_rejection(e@)),
                }
            }),
        decreases old(cursor).remaining(), 1nat,
    {
        let ghost toks = old(cursor)@.tokens;
        let ghost i0 = old(cursor)@.index;
        let ghost m0 = old(env)@;
        env.push_stack();
        match cursor.expect(TokenKind::Punctuator(Punctuator::OpenBlock), "block") {
            Ok(_) => (),
            Err(e) => {
                let _ = env.pop_stack();
                return Err(e);
            },
        }
        let empty: bool = match cursor.peek(0) {
            Some(tk) => match tk.kind() {
                TokenKind::Punctuator(Punctuator::CloseBlock) => true,
                _ => false,
            },
            None => false,
        };
        if empty {
            let _ = cursor.next();
            match env.pop_stack() {
                Ok(()) => (),
                Err(e) => {
                    proof {
                        assert(is_scope_rejection(e@));
                    }
                    return Err(e);
                },
            }
            proof {
                assert(env@.stack =~= old(env)@.stack);
            }
            return Ok(ast::Block::new(Vec::new()));
        }
        let list = StatementList::new(
            self.allow_yield,
            self.allow_await,
            self.allow_return,
            true,
            vec![TokenKind::Punctuator(Punctuator::CloseBlock)],
        );
        proof {
            assert(kind_views(list.break_tokens@) =~= seq![
                TokenKindView::Punctuator(Punctuator::CloseBlock),
            ]);
        }
        let statements = match list.parse(cursor, env) {
            Ok(l) => l,
            Err(e) => {
                return Err(e);
            },
        };
        match cursor.expect(TokenKind::Punctuator(Punctuator::CloseBlock), "block") {
            Ok(_) => (),
            Err(e) => {
                return Err(e);
            },
        }
        match env.pop_stack() {
            Ok(()) => (),
            Err(e) => {
                proof {
                    assert(is_scope_rejection(e@));
                }
                return Err(e);
            },
        }
        proof {
            assert(env@.stack =~= old(env)@.stack);
        }
        Ok(ast::Block::new(statements.statements))
    }
}

/// Parses one statement, dispatching on the next token's kind, exactly as
/// the specification grammar says.
#[verifier::rlimit(60)]
fn parse_statement(
    cursor: &mut Cursor,
    env: &mut DeclaredNames,
    allow_yield: bool,
    allow_await: bool,
    allow_return: bool,
) -> (r: Result<Node, ParseError>)
    requires
        old(cursor).wf(),
        old(env).wf(),
    ensures
        final(cursor).wf(),
        final(cursor)@.tokens == old(cursor)@.tokens,
        final(cursor)@.index >= old(cursor)@.index,
        final(cursor)@.strict == old(cursor)@.strict,
        r is Ok ==> final(cursor)@.index > old(cursor)@.index,
        final(env).wf(),
        r is Ok ==> final(env)@.stack == old(env)@.stack,
        ({
            let o = p_statement_spec(old(cursor)@.tokens, old(cursor)@.index, old(env)@);
            o matches Production::Parsed { value, next, names } ==> (r matches Ok(n) && n@
                == value && final(cursor)@.index == next && final(env)@ == names)
        }),
        ({
            let o = p_statement_spec(old(cursor)@.tokens, old(cursor)@.index, old(env)@);
            o matches Production::Rejected { error } ==> (r matches Err(e) && e@ == error)
        }),
        ({
            let o = p_statement_spec(old(cursor)@.tokens, old(cursor)@.index, old(env)@);
            o is RejectedScope ==> (r matches Err(e) && is_scope_rejection(e@))
        }),
    decreases old(cursor).remaining(), 2nat,
{
    let ghost toks = old(cursor)@.tokens;
    let ghost i0 = old(cursor)@.index;
    let kind: TokenKind = match cursor.peek(0) {
        None => {
            return Err(ParseError::AbruptEnd);
        },
        Some(tok) => tok.kind().clone(),
    };
    let res: Result<Node, ParseError> = match kind {
        TokenKind::Punctuator(Punctuator::OpenBlock) => {
            let block = match Block::new(allow_yield, allow_await, allow_return).parse(
                cursor,
                env,
            ) {
                Ok(b) => b,
                Err(e) => {
                    return Err(e);
                },
            };
            proof {
                assert(p_statement_spec(toks, i0, old(env)@) == (Production::Parsed {
                    value: NodeView::Block(nviews(block.statements@)),
                    next: cursor@.index,
                    names: env@,
                }));
            }
            Ok(Node::Block(block))
        },
        TokenKind::Keyword(Keyword::While) => {
            let _ = cursor.next();
            match cursor.expect(TokenKind::Punctuator(Punctuator::OpenParen), "while statement") {
                Ok(_) => (),
                Err(e) => {
                    return Err(e);
                },
            }
            let cond = match parse_expression(cursor) {
                Ok(c) => c,
                Err(e) => {
                    return Err(e);
                },
            };
            proof {
                assert(step(i0 + 2, cursor@.index, toks.len() as int) == cursor@.index);
            }
            match cursor.expect(TokenKind::Punctuator(Punctuator::CloseParen), "while statement") {
                Ok(_) => (),
                Err(e) => {
                    return Err(e);
                },
            }
            let body = match Block::new(allow_yield, allow_await, allow_return).parse(
                cursor,
                env,
            ) {
                Ok(b) => b,
                Err(e) => {
                    return Err(e);
                },
            };
            proof {
                assert(p_statement_spec(toks, i0, old(env)@) == (Production::Parsed {
                    value: NodeView::WhileLoop(
                        Box::new(cond@),
                        Box::new(NodeView::Block(nviews(body.statements@))),
                    ),
                    next: cursor@.index,
                    names: env@,
                }));
            }
            let ghost bodyv = nviews(body.statements@);
            let inner = Node::Block(body);
            proof {
                assert(inner@ == NodeView::Block(bodyv));
            }
            let ghost condv = cond@;
            let node = Node::WhileLoop(
                ast::WhileLoop { cond: Box::new(cond), body: Box::new(inner) },
            );
            proof {
                assert(node@ == NodeView::WhileLoop(Box::new(condv), Box::new(NodeView::Block(bodyv))));
            }
            Ok(node)
        },
        TokenKind::Keyword(Keyword::Break) => {
            let _ = cursor.next();
            let label: Option<String> = match cursor.peek(0) {
                Some(tok) => match tok.kind() {
                    TokenKind::Identifier(name) => Some(name.clone()),
                    _ => None,
                },
                None => None,
            };
            let node = match label {
                Some(name) => {
                    let _ = cursor.next();
                    Node::Break(ast::Break::new(name.as_str()))
                },
                None => Node::Break(ast::Break::new_unlabelled()),
            };
            match cursor.expect_semicolon("break statement") {
                Ok(_) => (),
                Err(e) => {
                    return Err(e);
                },
            }
            proof {
                assert(p_statement_spec(toks, i0, old(env)@) == (Production::Parsed {
                    value: node@,
                    next: cursor@.index,
                    names: env@,
                }));
            }
            Ok(node)
        },
        TokenKind::Keyword(Keyword::Continue) => {
            let _ = cursor.next();
            let label: Option<String> = match cursor.peek(0) {
                Some(tok) => match tok.kind() {
                    TokenKind::Identifier(name) => Some(name.clone()),
                    _ => None,
                },
                None => None,
            };
            let node = match label {
                Some(name) => {
                    let _ = cursor.next();
                    Node::Continue(ast::Continue::new(name.as_str()))
                },
                None => Node::Continue(ast::Continue::new_unlabelled()),
            };
            match cursor.expect_semicolon("continue statement") {
                Ok(_) => (),
                Err(e) => {
                    return Err(e);
                },
            }
            proof {
                assert(p_statement_spec(toks, i0, old(env)@) == (Production::Parsed {
                    value: node@,
                    next: cursor@.index,
                    names: env@,
                }));
            }
            Ok(node)
        },
        TokenKind::Keyword(Keyword::Var) => {
            let r2 = parse_decl_list(cursor, env, Keyword::Var);
            proof {
                assert(p_statement_spec(toks, i0, old(env)@) == p_decls(
                    toks,
                    i0,
                    old(env)@,
                    Keyword::Var,
                ));
            }
            r2
        },
        TokenKind::Keyword(Keyword::Let) => {
            let r2 = parse_decl_list(cursor, env, Keyword::Let);
            proof {
                assert(p_statement_spec(toks, i0, old(env)@) == p_decls(
                    toks,
                    i0,
                    old(env)@,
                    Keyword::Let,
                ));
            }
            r2
        },
        TokenKind::Keyword(Keyword::Const) => {
            let r2 = parse_decl_list(cursor, env, Keyword::Const);
            proof {
                assert(p_statement_spec(toks, i0, old(env)@) == p_decls(
                    toks,
                    i0,
                    old(env)@,
                    Keyword::Const,
                ));
            }
            r2
        },
        _ => {
            let expr = match parse_expression(cursor) {
                Ok(e) => e,
                Err(e) => {
                    return Err(e);
                },
            };
            match cursor.expect_semicolon("expression statement") {
                Ok(_) => (),
                Err(e) => {
                    return Err(e);
                },
            }
            proof {
                assert(p_statement_spec(toks, i0, old(env)@) == (Production::Parsed {
                    value: expr@,
                    next: cursor@.index,
                    names: env@,
                }));
            }
            Ok(expr)
        },
    };
    res
}

/// Parses a `var`/`let`/`const` declaration list, recording each name with
/// the declared-names tracker: `var` names as variable declarations (which an
/// active lexical name anywhere rejects), `let`/`const` names as lexical
/// declarations of the current level (which a duplicate in the level or a
/// `var` of the level rejects).
fn parse_decl_list(cursor: &mut Cursor, env: &mut DeclaredNames, keyword: Keyword) -> (r: Result<
    Node,
    ParseError,
>)
    requires
        old(cursor).wf(),
        old(env).wf(),
        old(cursor)@.index < old(cursor)@.tokens.len(),
    ensures
        final(cursor).wf(),
        final(cursor)@.tokens == old(cursor)@.tokens,
        final(cursor)@.index >= old(cursor)@.index,
        final(cursor)@.strict == old(cursor)@.strict,
        r is Ok ==> final(cursor)@.index > old(cursor)@.index,
        final(env).wf(),
        final(env)@.stack == old(env)@.stack,
        ({
            let o = p_decls(old(cursor)@.tokens, old(cursor)@.index, old(env)@, keyword);
            match o {
                Production::Parsed { value, next, names } => (r matches Ok(n) && n@ == value
                    && final(cursor)@.index == next && final(env)@ == names),
                Production::Rejected { error } => (r matches Err(e) && e@ == error),
                Production::RejectedScope => (r matches Err(e) && is_scope_rejection(e@)),
            }
        }),
    decreases old(cursor).remaining(), 2nat,
{
    let ghost toks = old(cursor)@.tokens;
    let ghost i0 = old(cursor)@.index;
    let ghost m0 = old(env)@;
    let _ = cursor.next();
    let ghost items_start = cursor@.index;
    let mut decls: Vec<Declaration> = Vec::new();
    proof {
        crate::grammar::lemma_decl_prefix_empty(p_decl_items(toks, items_start, m0, keyword));
    }
    loop
        invariant_except_break
            cursor.wf(),
            env.wf(),
            cursor@.tokens == toks,
            toks == old(cursor)@.tokens,
            i0 == old(cursor)@.index,
            m0 == old(env)@,
            items_start == i0 + 1,
            cursor@.index >= items_start,
            cursor@.strict == old(cursor)@.strict,
            env@.stack == old(env)@.stack,
            p_decl_items(toks, items_start, m0, keyword) == with_decl_prefix(
                dviews(decls@),
                p_decl_items(toks, cursor@.index, env@, keyword),
            ),
        ensures
            cursor.wf(),
            env.wf(),
            cursor@.tokens == toks,
            cursor@.index > i0,
            cursor@.strict == old(cursor)@.strict,
            env@.stack == old(env)@.stack,
            p_decl_items(toks, items_start, m0, keyword) == (Production::Parsed {
                value: dviews(decls@),
                next: cursor@.index,
                names: env@,
            }),
        decreases cursor.remaining(),
    {
        let ghost cur = cursor@.index;
        let ghost mcur = env@;
        let ghost dprefix = dviews(decls@);
        let (name, pos) = match cursor.peek(0) {
            None => {
                return Err(ParseError::AbruptEnd);
            },
            Some(tok) => match tok.kind() {
                TokenKind::Identifier(n) => (n.clone(), tok.position()),
                _ => {
                    return Err(
                        ParseError::general(
                            String::from_str("expected a binding identifier"),
                            tok.position(),
                        ),
                    );
                },
            },
        };
        let _ = cursor.next();
        let recorded = match keyword {
            Keyword::Var => env.insert_var_name(name.as_str(), pos),
            _ => env.insert_lex_name(name.as_str(), pos),
        };
        match recorded {
            Ok(()) => (),
            Err(e) => {
                return Err(e);
            },
        }
        let has_init: bool = match cursor.peek(0) {
            Some(tok) => match tok.kind() {
                TokenKind::Punctuator(Punctuator::Assign) => true,
                _ => false,
            },
            None => false,
        };
        let init: Option<Box<Node>> = if has_init {
            let _ = cursor.next();
            match parse_expression(cursor) {
                Ok(e) => Some(Box::new(e)),
                Err(e) => {
                    return Err(e);
                },
            }
        } else {
            None
        };
        let ghost j = cursor@.index;
        proof {
            assert(step(cur, j, toks.len() as int) == j);
        }
        let ghost decls_before = decls@;
        decls.push(Declaration::new(name, init));
        proof {
            assert(decls@.drop_last() =~= decls_before);
            assert(decls@.last() == decls@[decls@.len() - 1]);
            assert(dviews(decls@) == dprefix.push(dview(decls@.last())));
            assert(dviews(decls@) =~= dprefix + seq![dview(decls@.last())]);
        }
        let more: bool = match cursor.peek(0) {
            Some(tok) => match tok.kind() {
                TokenKind::Punctuator(Punctuator::Comma) => true,
                _ => false,
            },
            None => false,
        };
        if !more {
            proof {
                assert(p_decl_items(toks, cur, mcur, keyword) == (Production::Parsed {
                    value: seq![dview(decls@.last())],
                    next: j,
                    names: env@,
                }));
                assert(dprefix + seq![dview(decls@.last())] =~= dviews(decls@));
            }
            break;
        }
        let _ = cursor.next();
        proof {
            crate::grammar::lemma_decl_prefix_compose(
                dprefix,
                seq![dview(decls@.last())],
                p_decl_items(toks, cursor@.index, env@, keyword),
            );
            assert(p_decl_items(toks, cur, mcur, keyword) == with_decl_prefix(
                seq![dview(decls@.last())],
                p_decl_items(toks, cursor@.index, env@, keyword),
            ));
        }
    }
    match cursor.expect_semicolon("declaration list") {
        Ok(_) => (),
        Err(e) => {
            return Err(e);
        },
    }
    match keyword {
        Keyword::Var => Ok(Node::VarDeclList(decls)),
        Keyword::Const => Ok(Node::ConstDeclList(decls)),
        _ => Ok(Node::LetDeclList(decls)),
    }
}

/// Parses one expression of the covered subset: a boolean or string literal,
/// a name, or a call of a name with comma-separated argument expressions.
pub fn parse_expression(cursor: &mut Cursor) -> (r: Result<Node, ParseError>)
    requires
        old(cursor).wf(),
    ensures
        final(cursor).wf(),
        final(cursor)@.tokens == old(cursor)@.tokens,
        final(cursor)@.index >= old(cursor)@.index,
        final(cursor)@.strict == old(cursor)@.strict,
        r is Ok ==> final(cursor)@.index > old(cursor)@.index,
        ({
            let o = p_expression(old(cursor)@.tokens, old(cursor)@.index);
            match o {
                EProduction::Parsed { value, next } => (r matches Ok(n) && n@ == value
                    && final(cursor)@.index == next),
                EProduction::Rejected { error } => (r matches Err(e) && e@ == error),
            }
        }),
    decreases old(cursor).remaining(), 1nat,
{
    let ghost toks = old(cursor)@.tokens;
    let ghost i0 = old(cursor)@.index;
    let kind: TokenKind = match cursor.peek(0) {
        None => {
            return Err(ParseError::AbruptEnd);
        },
        Some(tok) => tok.kind().clone(),
    };
    let pos: Position = match cursor.peek(0) {
        None => {
            return Err(ParseError::AbruptEnd);
        },
        Some(tok) => tok.position(),
    };
    match kind {
        TokenKind::BoolLiteral(b) => {
            let _ = cursor.next();
            Ok(Node::BoolLiteral(b))
        },
        TokenKind::StringLiteral(s) => {
            let _ = cursor.next();
            Ok(Node::StringLiteral(s))
        },
        TokenKind::Identifier(name) => {
            let _ = cursor.next();
            let call: bool = match cursor.peek(0) {
                Some(tok) => match tok.kind() {
                    TokenKind::Punctuator(Punctuator::OpenParen) => true,
                    _ => false,
                },
                None => false,
            };
            if !call {
                return Ok(Node::Identifier(name));
            }
            let _ = cursor.next();
            let mut args: Vec<Node> = Vec::new();
            let empty: bool = match cursor.peek(0) {
                Some(tok) => match tok.kind() {
                    TokenKind::Punctuator(Punctuator::CloseParen) => true,
                    _ => false,
                },
                None => false,
            };
            if !empty {
                let ghost args_start = cursor@.index;
                proof {
                    crate::grammar::lemma_arg_prefix_empty(p_args(toks, args_start));
                }
                loop
                    invariant_except_break
                        cursor.wf(),
                        cursor@.tokens == toks,
                        toks == old(cursor)@.tokens,
                        i0 == old(cursor)@.index,
                        cursor@.index > i0,
                        args_start == i0 + 2,
                        cursor@.index >= args_start,
                        cursor@.strict == old(cursor)@.strict,
                        tkind(toks, i0) is Identifier,
                        name@ == tkind(toks, i0)->Identifier_0,
                        i0 + 1 < toks.len() && tkind(toks, i0 + 1)
                            == TokenKindView::Punctuator(Punctuator::OpenParen),
                        !(i0 + 2 < toks.len() && tkind(toks, i0 + 2)
                            == TokenKindView::Punctuator(Punctuator::CloseParen)),
                        p_args(toks, args_start) == with_arg_prefix(
                            nviews(args@),
                            p_args(toks, cursor@.index),
                        ),
                    ensures
                        cursor.wf(),
                        cursor@.tokens == toks,
                        cursor@.index > i0,
                        cursor@.strict == old(cursor)@.strict,
                        p_args(toks, args_start) == (EProduction::Parsed {
                            value: nviews(args@),
                            next: cursor@.index,
                        }),
                    decreases cursor.remaining(),
                {
                    let ghost cur = cursor@.index;
                    let ghost prefix = nviews(args@);
                    let arg = match parse_expression(cursor) {
                        Ok(a) => a,
                        Err(e) => {
                            return Err(e);
                        },
                    };
                    let ghost j = cursor@.index;
                    let ghost args_before = args@;
                    proof {
                        assert(step(cur, j, toks.len() as int) == j);
                    }
                    args.push(arg);
                    proof {
                        assert(args@.drop_last() =~= args_before);
                        assert(args@.last() == arg);
                        assert(nviews(args@) == prefix.push(arg@));
                        assert(nviews(args@) =~= prefix + seq![arg@]);
                    }
                    let more: bool = match cursor.peek(0) {
                        Some(tok) => match tok.kind() {
                            TokenKind::Punctuator(Punctuator::Comma) => true,
                            _ => false,
                        },
                        None => false,
                    };
                    if !more {
                        proof {
                            assert(p_args(toks, cur) == (EProduction::Parsed {
                                value: seq![arg@],
                                next: j,
                            }));
                            crate::grammar::lemma_arg_prefix_compose(
                                prefix,
                                seq![arg@],
                                EProduction::Parsed { value: Seq::empty(), next: j },
                            );
                            assert(prefix + seq![arg@] =~= nviews(args@));
                        }
                        break;
                    }
                    let _ = cursor.next();
                    proof {
                        crate::grammar::lemma_arg_prefix_compose(
                            prefix,
                            seq![arg@],
                            p_args(toks, cursor@.index),
                        );
                        assert(p_args(toks, cur) == with_arg_prefix(
                            seq![arg@],
                            p_args(toks, cursor@.index),
                        ));
                    }
                }
            }
            match cursor.expect(
                TokenKind::Punctuator(Punctuator::CloseParen),
                "call expression",
            ) {
                Ok(_) => (),
                Err(e) => {
                    return Err(e);
                },
            }
            Ok(Node::Call(ast::Call { target: name, args }))
        },
        _ => Err(ParseError::general(String::from_str("expected an expression"), pos)),
    }
}

} // verus!
