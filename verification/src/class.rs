//! The class-element-list parser: parses a class body into an optional
//! constructor, the ordered non-static elements and the ordered static
//! elements, enforcing the single-constructor and naming rules. Class bodies
//! parse under strict-mode rules.

use vstd::prelude::*;
use vstd::string::StringExecFns;
use crate::ast::{
    FormalParameter, FunctionDecl, FunctionDeclView, Node, NodeView, ParamView, pviews, nviews,
    StatementList as StatementListNode,
};
use crate::error::ErrorModel;
use crate::grammar::{tkind, tpos, EProduction, Production};
use crate::position::Position;
use crate::token::{Token, TokenKindView};
use crate::cursor::Cursor;
use crate::declared_names::DeclaredNames;
use crate::error::ParseError;
use crate::statement::{parse_expression, StatementList};
use crate::token::{Keyword, Punctuator, TokenKind};

verus! {

/// One parsed element of a class body.
#[derive(Debug)]
pub enum ClassField {
    /// A method on a class.
    Method(FunctionDecl),
    /// A field on a class, with its initializer expression.
    Field(String, Node),
    /// A getter function: takes no arguments.
    Getter(FunctionDecl),
    /// A setter function: takes one argument.
    Setter(FunctionDecl),
}

/// Which accessor marker, if any, preceded a class element's name.
#[derive(Clone, Copy, Debug, PartialEq, Eq, Structural)]
pub enum AccessorKind {
    /// No accessor marker.
    Plain,
    /// A `get` marker.
    Getter,
    /// A `set` marker.
    Setter,
}

/// The class-element-list parser.
#[derive(Clone, Copy, Debug)]
pub struct ClassElementList {
    allow_yield: bool,
    allow_await: bool,
}

impl ClassElementList {
    /// Builds a class-element-list parser from its flags.
    pub fn new(allow_yield: bool, allow_await: bool) -> ClassElementList {
        ClassElementList { allow_yield, allow_await }
    }

    /// Parses class elements until the closing brace of the class body
    /// (which stays unconsumed), exactly as the specification grammar says.
    /// At most one element may be named `constructor`, and only in
    /// non-static method form: a second constructor, or a `constructor`
    /// field, is a parse error naming the offending position. Static and
    /// non-static elements accumulate into separate ordered lists; the
    /// constructor is returned apart from both.
    pub fn parse(self, cursor: &mut Cursor) -> (r: Result<
        (Option<FunctionDecl>, Vec<ClassField>, Vec<ClassField>),
        ParseError,
    >)
        requires
            old(cursor).wf(),
        ensures
            final(cursor).wf(),
            final(cursor)@.tokens == old(cursor)@.tokens,
            final(cursor)@.index >= old(cursor)@.index,
            final(cursor)@.strict == old(cursor)@.strict,
            ({
                let o = p_class_elements(
                    old(cursor)@.tokens,
                    old(cursor)@.index,
                    old(cursor)@.strict,
                );
                match o {
                    Production::Parsed { value, next, .. } => (r matches Ok(t) && ctor_view(t.0)
                        == value.constructor && cfviews(t.1@) == value.fields && cfviews(t.2@)
                        == value.static_fields && final(cursor)@.index == next),
                    Production::Rejected { error } => (r matches Err(e) && e@ == error),
                    Production::RejectedScope => (r matches Err(e)
                        && crate::error::is_scope_rejection(e@)),
                }
            }),
    {
        let ghost toks = old(cursor)@.tokens;
        let ghost i0 = old(cursor)@.index;
        let ghost strict0 = old(cursor)@.strict;
        let mut constructor: Option<FunctionDecl> = None;
        let mut fields: Vec<ClassField> = Vec::new();
        let mut static_fields: Vec<ClassField> = Vec::new();
        let done: bool = match cursor.peek(0) {
            None => {
                return Err(ParseError::AbruptEnd);
            },
            Some(tok) => match tok.kind() {
                TokenKind::Punctuator(Punctuator::CloseBlock) => true,
                _ => false,
            },
        };
        if done {
            proof {
                assert(cfviews(fields@) =~= Seq::<ClassFieldView>::empty());
                assert(cfviews(static_fields@) =~= Seq::<ClassFieldView>::empty());
            }
            return Ok((None, fields, static_fields));
        }
        proof {
            lemma_class_prefix_empty(p_class_items(toks, i0, strict0, None));
            assert(cfviews(fields@) =~= Seq::<ClassFieldView>::empty());
            assert(cfviews(static_fields@) =~= Seq::<ClassFieldView>::empty());
        }
        loop
            invariant
                cursor.wf(),
                cursor@.tokens == toks,
                toks == old(cursor)@.tokens,
                i0 == old(cursor)@.index,
                strict0 == old(cursor)@.strict,
                cursor@.index >= i0,
                cursor@.strict == strict0,
                i0 < toks.len() && tkind(toks, i0) != TokenKindView::Punctuator(
                    Punctuator::CloseBlock,
                ),
                p_class_elements(toks, i0, strict0) == with_class_prefix(
                    cfviews(fields@),
                    cfviews(static_fields@),
                    p_class_items(toks, cursor@.index, strict0, ctor_view(constructor)),
                ),
            decreases cursor.remaining(),
        {
            let ghost cur = cursor@.index;
            let ghost ctor_before = ctor_view(constructor);
            let ghost prefix_f = cfviews(fields@);
            let ghost prefix_s = cfviews(static_fields@);
            let is_static: bool = match cursor.peek(0) {
                None => {
                    return Err(ParseError::AbruptEnd);
                },
                Some(tok) => match tok.kind() {
                    TokenKind::Keyword(Keyword::Static) => true,
                    _ => false,
                },
            };
            if is_static {
                let _ = cursor.next();
            }
            // Whether or not a static marker was seen, a getter or setter
            // marker may follow.
            let accessor: AccessorKind = match cursor.peek(0) {
                None => {
                    return Err(ParseError::AbruptEnd);
                },
                Some(tok) => match tok.kind() {
                    TokenKind::Keyword(Keyword::Getter) => AccessorKind::Getter,
                    TokenKind::Keyword(Keyword::Setter) => AccessorKind::Setter,
                    _ => AccessorKind::Plain,
                },
            };
            if accessor != AccessorKind::Plain {
                let _ = cursor.next();
            }
            let position = match cursor.peek(0) {
                None => {
                    return Err(ParseError::AbruptEnd);
                },
                Some(tok) => tok.position(),
            };
            let name: String = match cursor.peek(0) {
                None => {
                    return Err(ParseError::AbruptEnd);
                },
                Some(tok) => match tok.kind() {
                    TokenKind::Identifier(n) => n.clone(),
                    _ => {
                        return Err(
                            ParseError::general(
                                String::from_str("expected a binding identifier"),
                                tok.position(),
                            ),
                        );
                    },
                },
            };
            let _ = cursor.next();
            let is_constructor = str_is(&name, "constructor");
            if is_constructor && constructor.is_some() {
                return Err(
                    ParseError::general(
                        String::from_str("Cannot have multiple constructors on an object"),
                        position,
                    ),
                );
            }
            match cursor.peek(0) {
                None => {
                    return Err(ParseError::AbruptEnd);
                },
                Some(_) => (),
            }
            let member = match parse_class_member(cursor, name, is_constructor, accessor) {
                Ok(m) => m,
                Err(e) => {
                    return Err(e);
                },
            };
            let ghost e_idx = cursor@.index;
            let ghost memberv = member@;
            let ghost fields1: Seq<ClassFieldView> = match memberv {
                MemberView::Constructor(_) => Seq::empty(),
                MemberView::Element(f) => if is_static {
                    Seq::empty()
                } else {
                    seq![f]
                },
            };
            let ghost statics1: Seq<ClassFieldView> = match memberv {
                MemberView::Constructor(_) => Seq::empty(),
                MemberView::Element(f) => if is_static {
                    seq![f]
                } else {
                    Seq::empty()
                },
            };
            match member {
                ClassMember::Constructor(d) => {
                    constructor = Some(d);
                },
                ClassMember::Element(f) => {
                    if is_static {
                        let ghost before = static_fields@;
                        static_fields.push(f);
                        proof {
                            assert(cfviews(static_fields@) =~= prefix_s.push(
                                static_fields@.last()@,
                            ));
                            assert(cfviews(static_fields@) =~= prefix_s + statics1);
                            assert(cfviews(fields@) =~= prefix_f + fields1);
                        }
                    } else {
                        let ghost before = fields@;
                        fields.push(f);
                        proof {
                            assert(cfviews(fields@) =~= prefix_f.push(fields@.last()@));
                            assert(cfviews(fields@) =~= prefix_f + fields1);
                            assert(cfviews(static_fields@) =~= prefix_s + statics1);
                        }
                    }
                },
            }
            proof {
                assert(cfviews(fields@) =~= prefix_f + fields1);
                assert(cfviews(static_fields@) =~= prefix_s + statics1);
            }
            let at_end: bool = match cursor.peek(0) {
                None => {
                    return Err(ParseError::AbruptEnd);
                },
                Some(tok) => match tok.kind() {
                    TokenKind::Punctuator(Punctuator::CloseBlock) => true,
                    _ => false,
                },
            };
            if at_end {
                proof {
                    assert(p_class_items(toks, cur, strict0, ctor_before) == (Production::Parsed {
                        value: ClassBodyView {
                            constructor: ctor_view(constructor),
                            fields: fields1,
                            static_fields: statics1,
                        },
                        next: e_idx,
                        names: crate::declared_names::empty_names_model(),
                    }));
                }
                return Ok((constructor, fields, static_fields));
            }
            proof {
                assert(crate::grammar::step(cur, e_idx, toks.len() as int) == e_idx);
                assert(p_class_items(toks, cur, strict0, ctor_before) == with_class_prefix(
                    fields1,
                    statics1,
                    p_class_items(toks, e_idx, strict0, ctor_view(constructor)),
                ));
                lemma_class_prefix_compose(
                    prefix_f,
                    prefix_s,
                    fields1,
                    statics1,
                    p_class_items(toks, e_idx, strict0, ctor_view(constructor)),
                );
            }
        }
    }
}

/// Whether two strings hold the same characters.
fn str_is(a: &String, b: &str) -> (r: bool)
    ensures
        r == (a@ == b@),
{
    let owned = b.to_owned();
    *a == owned
}

/// Parses the tail of one class element after its name — a parenthesized
/// method or an initialized field — exactly as the specification grammar
/// says.
fn parse_class_member(
    cursor: &mut Cursor,
    name: String,
    is_constructor: bool,
    accessor: AccessorKind,
) -> (r: Result<ClassMember, ParseError>)
    requires
        old(cursor).wf(),
        old(cursor)@.index < old(cursor)@.tokens.len(),
    ensures
        final(cursor).wf(),
        final(cursor)@.tokens == old(cursor)@.tokens,
        final(cursor)@.index >= old(cursor)@.index,
        final(cursor)@.strict == old(cursor)@.strict,
        ({
            let o = p_class_member(
                old(cursor)@.tokens,
                old(cursor)@.index,
                old(cursor)@.strict,
                name@,
                is_constructor,
                accessor,
            );
            match o {
                Production::Parsed { value, next, .. } => (r matches Ok(m) && m@ == value
                    && final(cursor)@.index == next),
                Production::Rejected { error } => (r matches Err(e) && e@ == error),
                Production::RejectedScope => (r matches Err(e) && crate::error::is_scope_rejection(
                    e@,
                )),
            }
        }),
{
    let ghost toks = old(cursor)@.tokens;
    let ghost i0 = old(cursor)@.index;
    let ghost gname = name@;
    let ghost strict0 = old(cursor)@.strict;
    let (next_kind, next_pos) = match cursor.next() {
        None => {
            return Err(ParseError::AbruptEnd);
        },
        Some(tok) => (tok.kind, tok.position),
    };
    match next_kind {
        // A method definition.
        TokenKind::Punctuator(Punctuator::OpenParen) => {
            let param_position = match cursor.peek(0) {
                None => {
                    return Err(ParseError::AbruptEnd);
                },
                Some(tok) => tok.position(),
            };
            let params = match parse_formal_parameters(cursor) {
                Ok(p) => p,
                Err(e) => {
                    return Err(e);
                },
            };
            // Class bodies are strict: a trailing rest parameter on a method
            // is rejected under strict-mode rules.
            if params.len() > 0 && cursor.strict_mode() {
                if params[params.len() - 1].is_rest_param() {
                    return Err(
                        ParseError::general(
                            String::from_str(
                                "Cannot have spread parameters on a class method in strict mode",
                            ),
                            param_position,
                        ),
                    );
                }
            }
            match cursor.expect(
                TokenKind::Punctuator(Punctuator::CloseParen),
                "class function declaration",
            ) {
                Ok(_) => (),
                Err(e) => {
                    return Err(e);
                },
            }
            match cursor.expect(
                TokenKind::Punctuator(Punctuator::OpenBlock),
                "class function declaration",
            ) {
                Ok(_) => (),
                Err(e) => {
                    return Err(e);
                },
            }
            let body = match parse_function_body(cursor, false, false) {
                Ok(b) => b,
                Err(e) => {
                    return Err(e);
                },
            };
            match cursor.expect(
                TokenKind::Punctuator(Punctuator::CloseBlock),
                "class function declaration",
            ) {
                Ok(_) => (),
                Err(e) => {
                    return Err(e);
                },
            }
            let ghost pv = pviews(params@);
            let ghost bv = nviews(body.statements@);
            let decl = FunctionDecl::new(name, params, body);
            let ghost dv = decl@;
            proof {
                assert(dv == (FunctionDeclView { name: gname, parameters: pv, body: bv }));
            }
            let member = if is_constructor {
                ClassMember::Constructor(decl)
            } else {
                match accessor {
                    AccessorKind::Getter => ClassMember::Element(ClassField::Getter(decl)),
                    AccessorKind::Setter => ClassMember::Element(ClassField::Setter(decl)),
                    AccessorKind::Plain => ClassMember::Element(ClassField::Method(decl)),
                }
            };
            proof {
                if is_constructor {
                    assert(member@ == MemberView::Constructor(dv));
                } else if accessor == AccessorKind::Getter {
                    assert(member@ == MemberView::Element(ClassFieldView::Getter(dv)));
                } else if accessor == AccessorKind::Setter {
                    assert(member@ == MemberView::Element(ClassFieldView::Setter(dv)));
                } else {
                    assert(member@ == MemberView::Element(ClassFieldView::Method(dv)));
                }
                assert(p_class_member(toks, i0, strict0, gname, is_constructor, accessor)
                    == (Production::Parsed {
                    value: member@,
                    next: cursor@.index,
                    names: crate::declared_names::empty_names_model(),
                }));
            }
            Ok(member)
        },
        // A field definition with an initializer.
        TokenKind::Punctuator(Punctuator::Assign) => {
            if is_constructor {
                return Err(
                    ParseError::general(
                        String::from_str("Fields cannot be named `constructor`"),
                        next_pos,
                    ),
                );
            }
            let value = match parse_expression(cursor) {
                Ok(v) => v,
                Err(e) => {
                    return Err(e);
                },
            };
            // Class bodies are always strict, so the terminating semicolon of
            // a field initializer is always required.
            match cursor.expect_semicolon("after a class field declaration") {
                Ok(_) => (),
                Err(e) => {
                    return Err(e);
                },
            }
            let ghost vv = value@;
            let member = ClassMember::Element(ClassField::Field(name, value));
            proof {
                assert(member@ == MemberView::Element(ClassFieldView::Field(gname, vv)));
                assert(p_class_member(toks, i0, strict0, gname, is_constructor, accessor)
                    == (Production::Parsed {
                    value: member@,
                    next: cursor@.index,
                    names: crate::declared_names::empty_names_model(),
                }));
            }
            Ok(member)
        },
        _ => {
            let err = ParseError::expected(
                vec![
                    TokenKind::Punctuator(Punctuator::OpenParen),
                    TokenKind::Punctuator(Punctuator::Assign),
                ],
                crate::token::Token::new(next_kind, next_pos),
                String::from_str("class method or field declaration"),
            );
            proof {
                assert(err@ matches ErrorModel::Expected { expected: ks, .. } && ks =~= seq![
                    TokenKindView::Punctuator(Punctuator::OpenParen),
                    TokenKindView::Punctuator(Punctuator::Assign),
                ]);
            }
            Err(err)
        },
    }
}

/// Parses a formal parameter list up to (but not consuming) the closing
/// parenthesis, exactly as the specification grammar says: names separated
/// by commas, each optionally marked `...rest`.
fn parse_formal_parameters(cursor: &mut Cursor) -> (r: Result<Vec<FormalParameter>, ParseError>)
    requires
        old(cursor).wf(),
    ensures
        final(cursor).wf(),
        final(cursor)@.tokens == old(cursor)@.tokens,
        final(cursor)@.index >= old(cursor)@.index,
        final(cursor)@.strict == old(cursor)@.strict,
        ({
            let o = p_formal_params(old(cursor)@.tokens, old(cursor)@.index);
            match o {
                EProduction::Parsed { value, next } => (r matches Ok(ps) && pviews(ps@) == value
                    && final(cursor)@.index == next),
                EProduction::Rejected { error } => (r matches Err(e) && e@ == error),
            }
        }),
{
    let ghost toks = old(cursor)@.tokens;
    let ghost i0 = old(cursor)@.index;
    let mut params: Vec<FormalParameter> = Vec::new();
    let empty: bool = match cursor.peek(0) {
        None => {
            return Err(ParseError::AbruptEnd);
        },
        Some(tok) => match tok.kind() {
            TokenKind::Punctuator(Punctuator::CloseParen) => true,
            _ => false,
        },
    };
    if empty {
        proof {
            assert(pviews(params@) =~= Seq::<ParamView>::empty());
        }
        return Ok(params);
    }
    proof {
        lemma_param_prefix_empty(p_param_items(toks, i0));
    }
    loop
        invariant
            cursor.wf(),
            cursor@.tokens == toks,
            toks == old(cursor)@.tokens,
            i0 == old(cursor)@.index,
            cursor@.index >= i0,
            cursor@.strict == old(cursor)@.strict,
            i0 < toks.len() && tkind(toks, i0) != TokenKindView::Punctuator(
                Punctuator::CloseParen,
            ),
            p_param_items(toks, i0) == with_param_prefix(
                pviews(params@),
                p_param_items(toks, cursor@.index),
            ),
        decreases cursor.remaining(),
    {
        let ghost cur = cursor@.index;
        let ghost prefix = pviews(params@);
        let is_rest: bool = match cursor.peek(0) {
            None => {
                return Err(ParseError::AbruptEnd);
            },
            Some(tok) => match tok.kind() {
                TokenKind::Punctuator(Punctuator::Spread) => true,
                _ => false,
            },
        };
        if is_rest {
            let _ = cursor.next();
        }
        let name: String = match cursor.peek(0) {
            None => {
                return Err(ParseError::AbruptEnd);
            },
            Some(tok) => match tok.kind() {
                TokenKind::Identifier(n) => n.clone(),
                _ => {
                    return Err(
                        ParseError::general(
                            String::from_str("expected a parameter name"),
                            tok.position(),
                        ),
                    );
                },
            },
        };
        let _ = cursor.next();
        let ghost params_before = params@;
        params.push(FormalParameter::new(name, is_rest));
        proof {
            assert(pviews(params@) =~= prefix.push(params@.last()@));
            assert(pviews(params@) =~= prefix + seq![params@.last()@]);
        }
        let more: bool = match cursor.peek(0) {
            Some(tok) => match tok.kind() {
                TokenKind::Punctuator(Punctuator::Comma) => true,
                _ => false,
            },
            None => false,
        };
        if !more {
            proof {
                assert(p_param_items(toks, cur) == (EProduction::Parsed {
                    value: seq![params@.last()@],
                    next: cursor@.index,
                }));
            }
            return Ok(params);
        }
        let _ = cursor.next();
        proof {
            lemma_param_prefix_compose(
                prefix,
                seq![params@.last()@],
                p_param_items(toks, cursor@.index),
            );
            assert(p_param_items(toks, cur) == with_param_prefix(
                seq![params@.last()@],
                p_param_items(toks, cursor@.index),
            ));
        }
    }
}

/// Parses a function body: statements until the closing brace of the body
/// (which stays unconsumed), in a fresh declared-names tracker of its own.
fn parse_function_body(cursor: &mut Cursor, allow_yield: bool, allow_await: bool) -> (r: Result<
    StatementListNode,
    ParseError,
>)
    requires
        old(cursor).wf(),
    ensures
        final(cursor).wf(),
        final(cursor)@.tokens == old(cursor)@.tokens,
        final(cursor)@.index >= old(cursor)@.index,
        final(cursor)@.strict == old(cursor)@.strict,
        ({
            let o = crate::grammar::p_stmt_list(
                old(cursor)@.tokens,
                old(cursor)@.index,
                crate::declared_names::empty_names_model(),
                seq![TokenKindView::Punctuator(Punctuator::CloseBlock)],
            );
            match o {
                Production::Parsed { value, next, .. } => (r matches Ok(l) && nviews(
                    l.statements@,
                ) == value && final(cursor)@.index == next),
                Production::Rejected { error } => (r matches Err(e) && e@ == error),
                Production::RejectedScope => (r matches Err(e) && crate::error::is_scope_rejection(
                    e@,
                )),
            }
        }),
{
    let mut names = DeclaredNames::default();
    let list = StatementList::new(
        allow_yield,
        allow_await,
        true,
        true,
        vec![TokenKind::Punctuator(Punctuator::CloseBlock)],
    );
    proof {
        assert(crate::error::kind_views(list.break_tokens@) =~= seq![
            TokenKindView::Punctuator(Punctuator::CloseBlock),
        ]);
    }
    list.parse(cursor, &mut names)
}

} // verus!

verus! {

/// Mathematical image of a [`ClassField`].
pub enum ClassFieldView {
    /// A method.
    Method(FunctionDeclView),
    /// A field with its initializer's image.
    Field(Seq<char>, NodeView),
    /// A getter.
    Getter(FunctionDeclView),
    /// A setter.
    Setter(FunctionDeclView),
}

impl View for ClassField {
    type V = ClassFieldView;

    open spec fn view(&self) -> ClassFieldView {
        match self {
            ClassField::Method(d) => ClassFieldView::Method(d@),
            ClassField::Field(n, v) => ClassFieldView::Field(n@, v@),
            ClassField::Getter(d) => ClassFieldView::Getter(d@),
            ClassField::Setter(d) => ClassFieldView::Setter(d@),
        }
    }
}

/// The images of a class-field sequence.
pub open spec fn cfviews(s: Seq<ClassField>) -> Seq<ClassFieldView> {
    Seq::new(s.len(), |i: int| s[i]@)
}

/// The image of the optional constructor.
pub open spec fn ctor_view(c: Option<FunctionDecl>) -> Option<FunctionDeclView> {
    match c {
        Some(d) => Some(d@),
        None => None,
    }
}

/// What a parse of the class-element list yields on success: the optional
/// constructor and the non-static and static element lists, in source order.
pub struct ClassBodyView {
    /// The constructor, if the body declared one.
    pub constructor: Option<FunctionDeclView>,
    /// The non-static elements, in source order.
    pub fields: Seq<ClassFieldView>,
    /// The `static`-prefixed elements, in source order.
    pub static_fields: Seq<ClassFieldView>,
}

/// A formal parameter list up to (not consuming) the closing parenthesis.
pub open spec fn p_formal_params(tokens: Seq<Token>, i: int) -> EProduction<Seq<ParamView>>
    decreases tokens.len() - i, 2nat,
{
    let len = tokens.len() as int;
    if i >= len {
        EProduction::Rejected { error: ErrorModel::AbruptEnd }
    } else if tkind(tokens, i) == TokenKindView::Punctuator(Punctuator::CloseParen) {
        EProduction::Parsed { value: Seq::empty(), next: i }
    } else {
        p_param_items(tokens, i)
    }
}

/// The comma-separated items of a non-empty parameter list.
pub open spec fn p_param_items(tokens: Seq<Token>, i: int) -> EProduction<Seq<ParamView>>
    decreases tokens.len() - i, 1nat,
{
    let len = tokens.len() as int;
    let is_rest = i < len && tkind(tokens, i) == TokenKindView::Punctuator(Punctuator::Spread);
    let i1 = if is_rest {
        i + 1
    } else {
        i
    };
    if i1 >= len {
        EProduction::Rejected { error: ErrorModel::AbruptEnd }
    } else if !(tkind(tokens, i1) is Identifier) {
        EProduction::Rejected {
            error: ErrorModel::General {
                message: "expected a parameter name"@,
                position: tpos(tokens, i1),
            },
        }
    } else {
        let param = ParamView { name: tkind(tokens, i1)->Identifier_0, is_rest };
        let j = i1 + 1;
        if j < len && tkind(tokens, j) == TokenKindView::Punctuator(Punctuator::Comma) {
            match p_param_items(tokens, j + 1) {
                EProduction::Parsed { value: rest, next: k } => EProduction::Parsed {
                    value: seq![param] + rest,
                    next: k,
                },
                EProduction::Rejected { error } => EProduction::Rejected { error },
            }
        } else {
            EProduction::Parsed { value: seq![param], next: j }
        }
    }
}

/// The class-element list from the given index up to (not consuming) the
/// closing brace: each element is a `static?` marker, an optional accessor
/// marker, a name, and either a parenthesized method or an initialized
/// field, under the single-constructor and strict-mode rules.
pub open spec fn p_class_items(
    tokens: Seq<Token>,
    i: int,
    strict: bool,
    ctor0: Option<FunctionDeclView>,
) -> Production<ClassBodyView>
    decreases tokens.len() - i, 6nat,
{
    let len = tokens.len() as int;
    if i >= len {
        Production::Rejected { error: ErrorModel::AbruptEnd }
    } else {
        let is_static = tkind(tokens, i) == TokenKindView::Keyword(Keyword::Static);
        let i1 = if is_static {
            i + 1
        } else {
            i
        };
        if i1 >= len {
            Production::Rejected { error: ErrorModel::AbruptEnd }
        } else {
            let accessor = if tkind(tokens, i1) == TokenKindView::Keyword(Keyword::Getter) {
                AccessorKind::Getter
            } else if tkind(tokens, i1) == TokenKindView::Keyword(Keyword::Setter) {
                AccessorKind::Setter
            } else {
                AccessorKind::Plain
            };
            let i2 = if accessor != AccessorKind::Plain {
                i1 + 1
            } else {
                i1
            };
            if i2 >= len {
                Production::Rejected { error: ErrorModel::AbruptEnd }
            } else if !(tkind(tokens, i2) is Identifier) {
                Production::Rejected {
                    error: ErrorModel::General {
                        message: "expected a binding identifier"@,
                        position: tpos(tokens, i2),
                    },
                }
            } else {
                let name = tkind(tokens, i2)->Identifier_0;
                let is_ctor = name == "constructor"@;
                if is_ctor && ctor0 is Some {
                    Production::Rejected {
                        error: ErrorModel::General {
                            message: "Cannot have multiple constructors on an object"@,
                            position: tpos(tokens, i2),
                        },
                    }
                } else if i2 + 1 >= len {
                    Production::Rejected { error: ErrorModel::AbruptEnd }
                } else {
                    match p_class_member(tokens, i2 + 1, strict, name, is_ctor, accessor) {
                        Production::Rejected { error } => Production::Rejected { error },
                        Production::RejectedScope => Production::RejectedScope,
                        Production::Parsed { value: member, next: e, .. } => p_class_finish(
                            tokens,
                            i,
                            strict,
                            ctor0,
                            is_static,
                            member,
                            e,
                        ),
                    }
                }
            }
        }
    }
}

/// What one class member parses to: the constructor, or one field for the
/// static or non-static list.
pub enum MemberView {
    /// The class's constructor.
    Constructor(FunctionDeclView),
    /// Any other element.
    Element(ClassFieldView),
}

/// The tail of one class element after its name: a parenthesized method or
/// an initialized field.
pub open spec fn p_class_member(
    tokens: Seq<Token>,
    i: int,
    strict: bool,
    name: Seq<char>,
    is_ctor: bool,
    accessor: AccessorKind,
) -> Production<MemberView>
    decreases tokens.len() - i, 4nat,
{
    let len = tokens.len() as int;
    if tkind(tokens, i) == TokenKindView::Punctuator(Punctuator::OpenParen) {
        if i + 1 >= len {
            Production::Rejected { error: ErrorModel::AbruptEnd }
        } else {
            let ppos = tpos(tokens, i + 1);
            match p_formal_params(tokens, i + 1) {
                EProduction::Rejected { error } => Production::Rejected { error },
                EProduction::Parsed { value: params, next: j } => {
                    if params.len() > 0 && strict && params.last().is_rest {
                        Production::Rejected {
                            error: ErrorModel::General {
                                message:
                                    "Cannot have spread parameters on a class method in strict mode"@,
                                position: ppos,
                            },
                        }
                    } else if j >= len {
                        Production::Rejected { error: ErrorModel::AbruptEnd }
                    } else if tkind(tokens, j) != TokenKindView::Punctuator(
                        Punctuator::CloseParen,
                    ) {
                        Production::Rejected {
                            error: ErrorModel::Expected {
                                expected: seq![
                                    TokenKindView::Punctuator(Punctuator::CloseParen),
                                ],
                                found: tkind(tokens, j),
                                position: tpos(tokens, j),
                                context: "class function declaration"@,
                            },
                        }
                    } else if j + 1 >= len {
                        Production::Rejected { error: ErrorModel::AbruptEnd }
                    } else if tkind(tokens, j + 1) != TokenKindView::Punctuator(
                        Punctuator::OpenBlock,
                    ) {
                        Production::Rejected {
                            error: ErrorModel::Expected {
                                expected: seq![TokenKindView::Punctuator(Punctuator::OpenBlock)],
                                found: tkind(tokens, j + 1),
                                position: tpos(tokens, j + 1),
                                context: "class function declaration"@,
                            },
                        }
                    } else {
                        match crate::grammar::p_stmt_list(
                            tokens,
                            j + 2,
                            crate::declared_names::empty_names_model(),
                            seq![TokenKindView::Punctuator(Punctuator::CloseBlock)],
                        ) {
                            Production::Rejected { error } => Production::Rejected { error },
                            Production::RejectedScope => Production::RejectedScope,
                            Production::Parsed { value: body, next: k, .. } => {
                                if k >= len {
                                    Production::Rejected { error: ErrorModel::AbruptEnd }
                                } else if tkind(tokens, k) != TokenKindView::Punctuator(
                                    Punctuator::CloseBlock,
                                ) {
                                    Production::Rejected {
                                        error: ErrorModel::Expected {
                                            expected: seq![
                                                TokenKindView::Punctuator(Punctuator::CloseBlock),
                                            ],
                                            found: tkind(tokens, k),
                                            position: tpos(tokens, k),
                                            context: "class function declaration"@,
                                        },
                                    }
                                } else {
                                    let decl = FunctionDeclView { name, parameters: params, body };
                                    let member = if is_ctor {
                                        MemberView::Constructor(decl)
                                    } else if accessor == AccessorKind::Getter {
                                        MemberView::Element(ClassFieldView::Getter(decl))
                                    } else if accessor == AccessorKind::Setter {
                                        MemberView::Element(ClassFieldView::Setter(decl))
                                    } else {
                                        MemberView::Element(ClassFieldView::Method(decl))
                                    };
                                    Production::Parsed {
                                        value: member,
                                        next: k + 1,
                                        names: crate::declared_names::empty_names_model(),
                                    }
                                }
                            },
                        }
                    }
                },
            }
        }
    } else if tkind(tokens, i) == TokenKindView::Punctuator(Punctuator::Assign) {
        if is_ctor {
            Production::Rejected {
                error: ErrorModel::General {
                    message: "Fields cannot be named `constructor`"@,
                    position: tpos(tokens, i),
                },
            }
        } else {
            match crate::grammar::p_expression(tokens, i + 1) {
                EProduction::Rejected { error } => Production::Rejected { error },
                EProduction::Parsed { value: v, next: j } => {
                    match crate::grammar::p_semicolon(
                        tokens,
                        j,
                        "after a class field declaration"@,
                    ) {
                        EProduction::Rejected { error } => Production::Rejected { error },
                        EProduction::Parsed { next, .. } => Production::Parsed {
                            value: MemberView::Element(ClassFieldView::Field(name, v)),
                            next,
                            names: crate::declared_names::empty_names_model(),
                        },
                    }
                },
            }
        }
    } else {
        Production::Rejected {
            error: ErrorModel::Expected {
                expected: seq![
                    TokenKindView::Punctuator(Punctuator::OpenParen),
                    TokenKindView::Punctuator(Punctuator::Assign),
                ],
                found: tkind(tokens, i),
                position: tpos(tokens, i),
                context: "class method or field declaration"@,
            },
        }
    }
}

/// After one element: stop at the closing brace, or parse the remaining
/// elements and put this element's contribution in front.
pub open spec fn p_class_finish(
    tokens: Seq<Token>,
    i: int,
    strict: bool,
    ctor0: Option<FunctionDeclView>,
    is_static: bool,
    member: MemberView,
    e: int,
) -> Production<ClassBodyView>
    decreases tokens.len() - i, 5nat,
{
    let len = tokens.len() as int;
    let ctor1 = match member {
        MemberView::Constructor(d) => Some(d),
        MemberView::Element(_) => ctor0,
    };
    let fields1: Seq<ClassFieldView> = match member {
        MemberView::Constructor(_) => Seq::empty(),
        MemberView::Element(f) => if is_static {
            Seq::empty()
        } else {
            seq![f]
        },
    };
    let statics1: Seq<ClassFieldView> = match member {
        MemberView::Constructor(_) => Seq::empty(),
        MemberView::Element(f) => if is_static {
            seq![f]
        } else {
            Seq::empty()
        },
    };
    if e >= len {
        Production::Rejected { error: ErrorModel::AbruptEnd }
    } else if tkind(tokens, e) == TokenKindView::Punctuator(Punctuator::CloseBlock) {
        Production::Parsed {
            value: ClassBodyView { constructor: ctor1, fields: fields1, static_fields: statics1 },
            next: e,
            names: crate::declared_names::empty_names_model(),
        }
    } else if i >= len {
        // Unreachable from the element list, whose index is always inside
        // the stream; written out so the recursion is well-founded on every
        // input.
        Production::Rejected { error: ErrorModel::AbruptEnd }
    } else {
        match p_class_items(tokens, crate::grammar::step(i, e, tokens.len() as int), strict, ctor1) {
            Production::Parsed { value: rest, next: k, names } => Production::Parsed {
                value: ClassBodyView {
                    constructor: rest.constructor,
                    fields: fields1 + rest.fields,
                    static_fields: statics1 + rest.static_fields,
                },
                next: k,
                names,
            },
            Production::Rejected { error } => Production::Rejected { error },
            Production::RejectedScope => Production::RejectedScope,
        }
    }
}

/// A class body: empty at the closing brace, or its element list.
pub open spec fn p_class_elements(tokens: Seq<Token>, i: int, strict: bool) -> Production<
    ClassBodyView,
> {
    let len = tokens.len() as int;
    if i >= len {
        Production::Rejected { error: ErrorModel::AbruptEnd }
    } else if tkind(tokens, i) == TokenKindView::Punctuator(Punctuator::CloseBlock) {
        Production::Parsed {
            value: ClassBodyView {
                constructor: None,
                fields: Seq::empty(),
                static_fields: Seq::empty(),
            },
            next: i,
            names: crate::declared_names::empty_names_model(),
        }
    } else {
        p_class_items(tokens, i, strict, None)
    }
}

/// An empty prefix changes nothing.
pub proof fn lemma_param_prefix_empty(o: EProduction<Seq<ParamView>>)
    ensures
        with_param_prefix(Seq::empty(), o) == o,
{
    match o {
        EProduction::Parsed { value, next } => {
            assert(Seq::<ParamView>::empty() + value =~= value);
        },
        EProduction::Rejected { .. } => (),
    }
}

/// Prefixes compose by concatenation.
pub proof fn lemma_param_prefix_compose(
    p: Seq<ParamView>,
    q: Seq<ParamView>,
    o: EProduction<Seq<ParamView>>,
)
    ensures
        with_param_prefix(p, with_param_prefix(q, o)) == with_param_prefix(p + q, o),
{
    match o {
        EProduction::Parsed { value, next } => {
            assert(p + (q + value) =~= (p + q) + value);
        },
        EProduction::Rejected { .. } => (),
    }
}

/// The outcome with a prefix of already-parsed parameters put in front.
pub open spec fn with_param_prefix(prefix: Seq<ParamView>, o: EProduction<Seq<ParamView>>) -> EProduction<
    Seq<ParamView>,
> {
    match o {
        EProduction::Parsed { value, next } => EProduction::Parsed {
            value: prefix + value,
            next,
        },
        EProduction::Rejected { error } => EProduction::Rejected { error },
    }
}

/// One parsed class member: the constructor, or an element for one of the
/// two lists.
#[derive(Debug)]
pub enum ClassMember {
    /// The class's constructor.
    Constructor(FunctionDecl),
    /// Any other element.
    Element(ClassField),
}

impl View for ClassMember {
    type V = MemberView;

    open spec fn view(&self) -> MemberView {
        match self {
            ClassMember::Constructor(d) => MemberView::Constructor(d@),
            ClassMember::Element(f) => MemberView::Element(f@),
        }
    }
}

/// An empty prefix changes nothing.
pub proof fn lemma_class_prefix_empty(o: Production<ClassBodyView>)
    ensures
        with_class_prefix(Seq::empty(), Seq::empty(), o) == o,
{
    match o {
        Production::Parsed { value, next, names } => {
            assert(Seq::<ClassFieldView>::empty() + value.fields =~= value.fields);
            assert(Seq::<ClassFieldView>::empty() + value.static_fields =~= value.static_fields);
        },
        _ => (),
    }
}

/// Prefixes compose by concatenation.
pub proof fn lemma_class_prefix_compose(
    f1: Seq<ClassFieldView>,
    s1: Seq<ClassFieldView>,
    f2: Seq<ClassFieldView>,
    s2: Seq<ClassFieldView>,
    o: Production<ClassBodyView>,
)
    ensures
        with_class_prefix(f1, s1, with_class_prefix(f2, s2, o)) == with_class_prefix(
            f1 + f2,
            s1 + s2,
            o,
        ),
{
    match o {
        Production::Parsed { value, next, names } => {
            assert(f1 + (f2 + value.fields) =~= (f1 + f2) + value.fields);
            assert(s1 + (s2 + value.static_fields) =~= (s1 + s2) + value.static_fields);
        },
        _ => (),
    }
}

/// The outcome with an earlier elements' contribution put in front.
pub open spec fn with_class_prefix(
    fs: Seq<ClassFieldView>,
    ss: Seq<ClassFieldView>,
    o: Production<ClassBodyView>,
) -> Production<ClassBodyView> {
    match o {
        Production::Parsed { value, next, names } => Production::Parsed {
            value: ClassBodyView {
                constructor: value.constructor,
                fields: fs + value.fields,
                static_fields: ss + value.static_fields,
            },
            next,
            names,
        },
        Production::Rejected { error } => Production::Rejected { error },
        Production::RejectedScope => Production::RejectedScope,
    }
}

} // verus!
