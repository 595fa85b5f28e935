//! The covered grammar as mathematics: a deterministic specification parser
//! over token streams. Each executable parser is proved to return exactly
//! what these functions say — tree, consumed tokens, tracker state and error
//! alike — the same way the executor is proved against its evaluation
//! function.

use vstd::prelude::*;
use crate::ast::{DeclarationView, NodeView};
use crate::declared_names::{
    lex_insert_ok, pop_ok, popped, pushed, redeclaration_message, var_insert_ok,
    with_lex_inserted, with_var_inserted, NamesModel,
};
use crate::error::ErrorModel;
use crate::position::Position;
use crate::token::{Keyword, Punctuator, Token, TokenKindView};

verus! {

/// The outcome of a specification parse that involves no declared-names
/// tracking: the parsed value and the index of the next unconsumed token, or
/// the error.
pub enum EProduction<T> {
    /// The production succeeded.
    Parsed {
        /// The parsed value.
        value: T,
        /// The index of the next unconsumed token.
        next: int,
    },
    /// The production failed with this error.
    Rejected {
        /// The error raised.
        error: ErrorModel,
    },
}

/// The outcome of a specification parse that threads the declared-names
/// tracker. A scope rejection is the tracker refusing a level exit: which
/// colliding name it reports is left open, as the tracker's own contract
/// leaves it.
pub enum Production<T> {
    /// The production succeeded.
    Parsed {
        /// The parsed value.
        value: T,
        /// The index of the next unconsumed token.
        next: int,
        /// The tracker state after the production.
        names: NamesModel,
    },
    /// The production failed with this error.
    Rejected {
        /// The error raised.
        error: ErrorModel,
    },
    /// The tracker refused a scope exit with a redeclaration error.
    RejectedScope,
}

/// The kind of the token at an index.
pub open spec fn tkind(tokens: Seq<Token>, i: int) -> TokenKindView {
    tokens[i].kind@
}

/// The position of the token at an index.
pub open spec fn tpos(tokens: Seq<Token>, i: int) -> Position {
    tokens[i].position
}

/// The index a sub-parse left the cursor at. Successful sub-parses always
/// land strictly past their start and inside the stream (their contracts
/// prove as much); the guard keeps these definitions well-founded without
/// appeal to that fact.
pub open spec fn step(lo: int, hi: int, len: int) -> int {
    if lo < hi <= len {
        hi
    } else {
        lo + 1
    }
}

/// One expression of the covered subset: a boolean or string literal, a
/// name, or a call of a name.
pub open spec fn p_expression(tokens: Seq<Token>, i: int) -> EProduction<NodeView>
    decreases tokens.len() - i, 1nat,
{
    let len = tokens.len() as int;
    if i >= len {
        EProduction::Rejected { error: ErrorModel::AbruptEnd }
    } else {
        match tkind(tokens, i) {
            TokenKindView::BoolLiteral(b) => EProduction::Parsed {
                value: NodeView::BoolLiteral(b),
                next: i + 1,
            },
            TokenKindView::StringLiteral(s) => EProduction::Parsed {
                value: NodeView::StringLiteral(s),
                next: i + 1,
            },
            TokenKindView::Identifier(name) => {
                if i + 1 < len && tkind(tokens, i + 1) == TokenKindView::Punctuator(
                    Punctuator::OpenParen,
                ) {
                    if i + 2 < len && tkind(tokens, i + 2) == TokenKindView::Punctuator(
                        Punctuator::CloseParen,
                    ) {
                        EProduction::Parsed {
                            value: NodeView::Call(name, Seq::empty()),
                            next: i + 3,
                        }
                    } else {
                        match p_args(tokens, i + 2) {
                            EProduction::Parsed { value: args, next: j } => {
                                if j >= len {
                                    EProduction::Rejected { error: ErrorModel::AbruptEnd }
                                } else if tkind(tokens, j) == TokenKindView::Punctuator(
                                    Punctuator::CloseParen,
                                ) {
                                    EProduction::Parsed {
                                        value: NodeView::Call(name, args),
                                        next: j + 1,
                                    }
                                } else {
                                    EProduction::Rejected {
                                        error: ErrorModel::Expected {
                                            expected: seq![
                                                TokenKindView::Punctuator(Punctuator::CloseParen),
                                            ],
                                            found: tkind(tokens, j),
                                            position: tpos(tokens, j),
                                            context: "call expression"@,
                                        },
                                    }
                                }
                            },
                            EProduction::Rejected { error } => EProduction::Rejected { error },
                        }
                    }
                } else {
                    EProduction::Parsed { value: NodeView::Identifier(name), next: i + 1 }
                }
            },
            _ => EProduction::Rejected {
                error: ErrorModel::General {
                    message: "expected an expression"@,
                    position: tpos(tokens, i),
                },
            },
        }
    }
}

/// A non-empty, comma-separated argument list, up to (not consuming) what
/// follows it.
pub open spec fn p_args(tokens: Seq<Token>, i: int) -> EProduction<Seq<NodeView>>
    decreases tokens.len() - i, 2nat,
{
    let len = tokens.len() as int;
    match p_expression(tokens, i) {
        EProduction::Parsed { value: v, next: j0 } => {
            let j = step(i, j0, len);
            if j < len && tkind(tokens, j) == TokenKindView::Punctuator(Punctuator::Comma) {
                match p_args(tokens, j + 1) {
                    EProduction::Parsed { value: rest, next: k } => EProduction::Parsed {
                        value: seq![v] + rest,
                        next: k,
                    },
                    EProduction::Rejected { error } => EProduction::Rejected { error },
                }
            } else {
                EProduction::Parsed { value: seq![v], next: j }
            }
        },
        EProduction::Rejected { error } => EProduction::Rejected { error },
    }
}

/// One statement, dispatched on the next token's kind.
pub open spec fn p_statement(tokens: Seq<Token>, i: int, m: NamesModel) -> Production<NodeView>
    decreases tokens.len() - i, 4nat,
{
    let len = tokens.len() as int;
    if i >= len {
        Production::Rejected { error: ErrorModel::AbruptEnd }
    } else {
        match tkind(tokens, i) {
            TokenKindView::Punctuator(Punctuator::OpenBlock) => match p_block(tokens, i, m) {
                Production::Parsed { value, next, names } => Production::Parsed {
                    value: NodeView::Block(value),
                    next,
                    names,
                },
                Production::Rejected { error } => Production::Rejected { error },
                Production::RejectedScope => Production::RejectedScope,
            },
            TokenKindView::Keyword(Keyword::While) => {
                if i + 1 >= len {
                    Production::Rejected { error: ErrorModel::AbruptEnd }
                } else if tkind(tokens, i + 1) != TokenKindView::Punctuator(
                    Punctuator::OpenParen,
                ) {
                    Production::Rejected {
                        error: ErrorModel::Expected {
                            expected: seq![TokenKindView::Punctuator(Punctuator::OpenParen)],
                            found: tkind(tokens, i + 1),
                            position: tpos(tokens, i + 1),
                            context: "while statement"@,
                        },
                    }
                } else {
                    match p_expression(tokens, i + 2) {
                        EProduction::Rejected { error } => Production::Rejected { error },
                        EProduction::Parsed { value: cond, next: j0 } => {
                            let j = step(i + 2, j0, len);
                            if j >= len {
                                Production::Rejected { error: ErrorModel::AbruptEnd }
                            } else if tkind(tokens, j) != TokenKindView::Punctuator(
                                Punctuator::CloseParen,
                            ) {
                                Production::Rejected {
                                    error: ErrorModel::Expected {
                                        expected: seq![
                                            TokenKindView::Punctuator(Punctuator::CloseParen),
                                        ],
                                        found: tkind(tokens, j),
                                        position: tpos(tokens, j),
                                        context: "while statement"@,
                                    },
                                }
                            } else {
                                match p_block(tokens, j + 1, m) {
                                    Production::Parsed { value, next, names } => Production::Parsed {
                                        value: NodeView::WhileLoop(
                                            Box::new(cond),
                                            Box::new(NodeView::Block(value)),
                                        ),
                                        next,
                                        names,
                                    },
                                    Production::Rejected { error } => Production::Rejected {
                                        error,
                                    },
                                    Production::RejectedScope => Production::RejectedScope,
                                }
                            }
                        },
                    }
                }
            },
            TokenKindView::Keyword(Keyword::Break) => p_jump(tokens, i, m, true),
            TokenKindView::Keyword(Keyword::Continue) => p_jump(tokens, i, m, false),
            TokenKindView::Keyword(Keyword::Var) => p_decls(tokens, i, m, Keyword::Var),
            TokenKindView::Keyword(Keyword::Let) => p_decls(tokens, i, m, Keyword::Let),
            TokenKindView::Keyword(Keyword::Const) => p_decls(tokens, i, m, Keyword::Const),
            _ => match p_expression(tokens, i) {
                EProduction::Rejected { error } => Production::Rejected { error },
                EProduction::Parsed { value, next: j } => match p_semicolon(
                    tokens,
                    j,
                    "expression statement"@,
                ) {
                    EProduction::Rejected { error } => Production::Rejected { error },
                    EProduction::Parsed { next, .. } => Production::Parsed { value, next, names: m },
                },
            },
        }
    }
}

/// A mandatory semicolon at the given index.
pub open spec fn p_semicolon(tokens: Seq<Token>, i: int, context: Seq<char>) -> EProduction<
    bool,
> {
    let len = tokens.len() as int;
    if i >= len {
        EProduction::Rejected { error: ErrorModel::AbruptEnd }
    } else if tkind(tokens, i) == TokenKindView::Punctuator(Punctuator::Semicolon) {
        EProduction::Parsed { value: true, next: i + 1 }
    } else {
        EProduction::Rejected {
            error: ErrorModel::Expected {
                expected: seq![TokenKindView::Punctuator(Punctuator::Semicolon)],
                found: tkind(tokens, i),
                position: tpos(tokens, i),
                context,
            },
        }
    }
}

/// A `break` or `continue` statement: the keyword, an optional label, a
/// semicolon.
pub open spec fn p_jump(tokens: Seq<Token>, i: int, m: NamesModel, is_break: bool) -> Production<
    NodeView,
> {
    let len = tokens.len() as int;
    let labelled = i + 1 < len && tkind(tokens, i + 1) is Identifier;
    let label: Option<Seq<char>> = if labelled {
        Some(tkind(tokens, i + 1)->Identifier_0)
    } else {
        None
    };
    let semi_at = if labelled {
        i + 2
    } else {
        i + 1
    };
    let context = if is_break {
        "break statement"@
    } else {
        "continue statement"@
    };
    match p_semicolon(tokens, semi_at, context) {
        EProduction::Rejected { error } => Production::Rejected { error },
        EProduction::Parsed { next, .. } => Production::Parsed {
            value: if is_break {
                NodeView::Break(label)
            } else {
                NodeView::Continue(label)
            },
            next,
            names: m,
        },
    }
}

/// A declaration statement: the `var`/`let`/`const` keyword at the index,
/// the declared items, a semicolon.
pub open spec fn p_decls(tokens: Seq<Token>, i: int, m: NamesModel, kw: Keyword) -> Production<
    NodeView,
>
    decreases tokens.len() - i, 3nat,
{
    match p_decl_items(tokens, i + 1, m, kw) {
        Production::Parsed { value: ds, next: j, names } => match p_semicolon(
            tokens,
            j,
            "declaration list"@,
        ) {
            EProduction::Rejected { error } => Production::Rejected { error },
            EProduction::Parsed { next, .. } => Production::Parsed {
                value: if kw == Keyword::Var {
                    NodeView::VarDeclList(ds)
                } else if kw == Keyword::Const {
                    NodeView::ConstDeclList(ds)
                } else {
                    NodeView::LetDeclList(ds)
                },
                next,
                names,
            },
        },
        Production::Rejected { error } => Production::Rejected { error },
        Production::RejectedScope => Production::RejectedScope,
    }
}

/// The comma-separated items of a declaration list, each recorded with the
/// declared-names tracker as the grammar's scoping rules demand.
pub open spec fn p_decl_items(tokens: Seq<Token>, i: int, m: NamesModel, kw: Keyword) -> Production<
    Seq<DeclarationView>,
>
    decreases tokens.len() - i, 2nat,
{
    let len = tokens.len() as int;
    if i >= len {
        Production::Rejected { error: ErrorModel::AbruptEnd }
    } else if !(tkind(tokens, i) is Identifier) {
        Production::Rejected {
            error: ErrorModel::General {
                message: "expected a binding identifier"@,
                position: tpos(tokens, i),
            },
        }
    } else {
        let name = tkind(tokens, i)->Identifier_0;
        let ok = if kw == Keyword::Var {
            var_insert_ok(m, name)
        } else {
            lex_insert_ok(m, name)
        };
        if !ok {
            Production::Rejected {
                error: ErrorModel::Syntax {
                    message: redeclaration_message(name),
                    position: tpos(tokens, i),
                },
            }
        } else {
            let m1 = if kw == Keyword::Var {
                with_var_inserted(m, name, tpos(tokens, i))
            } else {
                with_lex_inserted(m, name, tpos(tokens, i))
            };
            let has_init = i + 1 < len && tkind(tokens, i + 1) == TokenKindView::Punctuator(
                Punctuator::Assign,
            );
            let after: EProduction<Option<Box<NodeView>>> = if has_init {
                match p_expression(tokens, i + 2) {
                    EProduction::Parsed { value, next } => EProduction::Parsed {
                        value: Some(Box::new(value)),
                        next,
                    },
                    EProduction::Rejected { error } => EProduction::Rejected { error },
                }
            } else {
                EProduction::Parsed { value: None, next: i + 1 }
            };
            match after {
                EProduction::Rejected { error } => Production::Rejected { error },
                EProduction::Parsed { value: init, next: j0 } => {
                    let d = DeclarationView { name, init };
                    let j = step(i, j0, len);
                    if j < len && tkind(tokens, j) == TokenKindView::Punctuator(
                        Punctuator::Comma,
                    ) {
                        match p_decl_items(tokens, j + 1, m1, kw) {
                            Production::Parsed { value: rest, next: k, names } => Production::Parsed {
                                value: seq![d] + rest,
                                next: k,
                                names,
                            },
                            Production::Rejected { error } => Production::Rejected { error },
                            Production::RejectedScope => Production::RejectedScope,
                        }
                    } else {
                        Production::Parsed { value: seq![d], next: j, names: m1 }
                    }
                },
            }
        }
    }
}

/// A lexical block: `{`, statements in a fresh tracker level, `}`, with the
/// level popped on the way out (a pop-time collision rejects the block).
pub open spec fn p_block(tokens: Seq<Token>, i: int, m: NamesModel) -> Production<Seq<NodeView>>
    decreases tokens.len() - i, 3nat,
{
    let len = tokens.len() as int;
    let m1 = pushed(m);
    if i >= len {
        Production::Rejected { error: ErrorModel::AbruptEnd }
    } else if tkind(tokens, i) != TokenKindView::Punctuator(Punctuator::OpenBlock) {
        Production::Rejected {
            error: ErrorModel::Expected {
                expected: seq![TokenKindView::Punctuator(Punctuator::OpenBlock)],
                found: tkind(tokens, i),
                position: tpos(tokens, i),
                context: "block"@,
            },
        }
    } else if i + 1 < len && tkind(tokens, i + 1) == TokenKindView::Punctuator(
        Punctuator::CloseBlock,
    ) {
        if pop_ok(m1) {
            Production::Parsed { value: Seq::empty(), next: i + 2, names: popped(m1) }
        } else {
            Production::RejectedScope
        }
    } else {
        match p_stmt_list(
            tokens,
            i + 1,
            m1,
            seq![TokenKindView::Punctuator(Punctuator::CloseBlock)],
        ) {
            Production::Parsed { value: stmts, next: j, names: m2 } => {
                if j >= len {
                    Production::Rejected { error: ErrorModel::AbruptEnd }
                } else if tkind(tokens, j) != TokenKindView::Punctuator(Punctuator::CloseBlock) {
                    Production::Rejected {
                        error: ErrorModel::Expected {
                            expected: seq![TokenKindView::Punctuator(Punctuator::CloseBlock)],
                            found: tkind(tokens, j),
                            position: tpos(tokens, j),
                            context: "block"@,
                        },
                    }
                } else if pop_ok(m2) {
                    Production::Parsed { value: stmts, next: j + 1, names: popped(m2) }
                } else {
                    Production::RejectedScope
                }
            },
            Production::Rejected { error } => Production::Rejected { error },
            Production::RejectedScope => Production::RejectedScope,
        }
    }
}

/// A statement sequence: statements until the end of input or a terminator
/// from the break set.
pub open spec fn p_stmt_list(
    tokens: Seq<Token>,
    i: int,
    m: NamesModel,
    breaks: Seq<TokenKindView>,
) -> Production<Seq<NodeView>>
    decreases tokens.len() - i, 5nat,
{
    let len = tokens.len() as int;
    if i >= len || breaks.contains(tkind(tokens, i)) {
        Production::Parsed { value: Seq::empty(), next: i, names: m }
    } else {
        match p_statement(tokens, i, m) {
            Production::Parsed { value: stmt, next: j0, names: m1 } => {
                let j = step(i, j0, len);
                match p_stmt_list(tokens, j, m1, breaks) {
                    Production::Parsed { value: rest, next: k, names } => Production::Parsed {
                        value: seq![stmt] + rest,
                        next: k,
                        names,
                    },
                    Production::Rejected { error } => Production::Rejected { error },
                    Production::RejectedScope => Production::RejectedScope,
                }
            },
            Production::Rejected { error } => Production::Rejected { error },
            Production::RejectedScope => Production::RejectedScope,
        }
    }
}

/// A full script: statements until the end of input; an empty stream is a
/// valid empty script.
pub open spec fn p_script(tokens: Seq<Token>, i: int, m: NamesModel) -> Production<Seq<NodeView>> {
    if i >= tokens.len() {
        Production::Parsed { value: Seq::empty(), next: i, names: m }
    } else {
        p_stmt_list(tokens, i, m, Seq::empty())
    }
}

/// The outcome with a prefix of already-parsed statements put in front.
pub open spec fn with_node_prefix(prefix: Seq<NodeView>, o: Production<Seq<NodeView>>) -> Production<
    Seq<NodeView>,
> {
    match o {
        Production::Parsed { value, next, names } => Production::Parsed {
            value: prefix + value,
            next,
            names,
        },
        Production::Rejected { error } => Production::Rejected { error },
        Production::RejectedScope => Production::RejectedScope,
    }
}

/// The outcome with a prefix of already-parsed declarations put in front.
pub open spec fn with_decl_prefix(
    prefix: Seq<DeclarationView>,
    o: Production<Seq<DeclarationView>>,
) -> Production<Seq<DeclarationView>> {
    match o {
        Production::Parsed { value, next, names } => Production::Parsed {
            value: prefix + value,
            next,
            names,
        },
        Production::Rejected { error } => Production::Rejected { error },
        Production::RejectedScope => Production::RejectedScope,
    }
}

/// The outcome with a prefix of already-parsed arguments put in front.
pub open spec fn with_arg_prefix(prefix: Seq<NodeView>, o: EProduction<Seq<NodeView>>) -> EProduction<
    Seq<NodeView>,
> {
    match o {
        EProduction::Parsed { value, next } => EProduction::Parsed {
            value: prefix + value,
            next,
        },
        EProduction::Rejected { error } => EProduction::Rejected { error },
    }
}

} // verus!

verus! {

/// An empty prefix changes nothing.
pub proof fn lemma_arg_prefix_empty(o: EProduction<Seq<NodeView>>)
    ensures
        with_arg_prefix(Seq::empty(), o) == o,
{
    match o {
        EProduction::Parsed { value, next } => {
            assert(Seq::<NodeView>::empty() + value =~= value);
        },
        EProduction::Rejected { .. } => (),
    }
}

/// Prefixes compose by concatenation.
pub proof fn lemma_arg_prefix_compose(
    p: Seq<NodeView>,
    q: Seq<NodeView>,
    o: EProduction<Seq<NodeView>>,
)
    ensures
        with_arg_prefix(p, with_arg_prefix(q, o)) == with_arg_prefix(p + q, o),
{
    match o {
        EProduction::Parsed { value, next } => {
            assert(p + (q + value) =~= (p + q) + value);
        },
        EProduction::Rejected { .. } => (),
    }
}

/// An empty prefix changes nothing.
pub proof fn lemma_node_prefix_empty(o: Production<Seq<NodeView>>)
    ensures
        with_node_prefix(Seq::empty(), o) == o,
{
    match o {
        Production::Parsed { value, next, names } => {
            assert(Seq::<NodeView>::empty() + value =~= value);
        },
        _ => (),
    }
}

/// Prefixes compose by concatenation.
pub proof fn lemma_node_prefix_compose(
    p: Seq<NodeView>,
    q: Seq<NodeView>,
    o: Production<Seq<NodeView>>,
)
    ensures
        with_node_prefix(p, with_node_prefix(q, o)) == with_node_prefix(p + q, o),
{
    match o {
        Production::Parsed { value, next, names } => {
            assert(p + (q + value) =~= (p + q) + value);
        },
        _ => (),
    }
}

/// An empty prefix changes nothing.
pub proof fn lemma_decl_prefix_empty(o: Production<Seq<DeclarationView>>)
    ensures
        with_decl_prefix(Seq::empty(), o) == o,
{
    match o {
        Production::Parsed { value, next, names } => {
            assert(Seq::<DeclarationView>::empty() + value =~= value);
        },
        _ => (),
    }
}

/// Prefixes compose by concatenation.
pub proof fn lemma_decl_prefix_compose(
    p: Seq<DeclarationView>,
    q: Seq<DeclarationView>,
    o: Production<Seq<DeclarationView>>,
)
    ensures
        with_decl_prefix(p, with_decl_prefix(q, o)) == with_decl_prefix(p + q, o),
{
    match o {
        Production::Parsed { value, next, names } => {
            assert(p + (q + value) =~= (p + q) + value);
        },
        _ => (),
    }
}

} // verus!

verus! {

/// Law: a braces-only block parses successfully from any collision-free
/// tracker state: both braces are consumed, the block is empty, and the
/// tracker comes back exactly as it was.
pub proof fn lemma_empty_block_parses(tokens: Seq<Token>, i: int, m: NamesModel)
    requires
        0 <= i,
        i + 1 < tokens.len(),
        tkind(tokens, i) == TokenKindView::Punctuator(Punctuator::OpenBlock),
        tkind(tokens, i + 1) == TokenKindView::Punctuator(Punctuator::CloseBlock),
        crate::declared_names::collision_free(m),
    ensures
        p_block(tokens, i, m) == (Production::Parsed {
            value: Seq::<crate::ast::NodeView>::empty(),
            next: i + 2,
            names: m,
        }),
{
    crate::declared_names::lemma_push_pop_identity(m);
}

} // verus!
