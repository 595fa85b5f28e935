//! The tree-walking executor: evaluates AST nodes against a mutable execution
//! context. Its behaviour is specified by a recursive evaluation function
//! over the context model, and every executor is proved to implement it.
//!
//! The executed subset is the iteration/control-flow core: blocks, `break`
//! and `continue`, `for`-`in` loops, declarations, identifiers, literals,
//! assignment and string addition. Running a `while` loop or a call yields a
//! thrown unsupported-statement value: their execution cannot be bounded by
//! the tree alone.

use vstd::prelude::*;
use vstd::string::StringExecFns;
use crate::ast::{Break, Continue, Declaration, ForInLoop, Node};
use crate::context::{
    chain_create, chain_get, chain_has, chain_set, const_assign_message, gpop, gpush,
    reference_error_message, Context, GBinding, GCtx, GState, InterpreterState, VariableScope,
};
use crate::value::{GValue, Value};

verus! {

/// What an evaluation yields: a completed value, or a thrown value.
pub enum GRes {
    /// Normal completion.
    Val(GValue),
    /// A thrown value propagating outward.
    Thrown(GValue),
}

/// The full outcome of an evaluation: the context after it, and its result.
pub struct GOut {
    /// The context after the evaluation.
    pub ctx: GCtx,
    /// The evaluation's result.
    pub res: GRes,
}

/// The image of an optional label.
pub open spec fn opt_label_view(l: Option<String>) -> Option<Seq<char>> {
    match l {
        Some(s) => Some(s@),
        None => None,
    }
}

/// Whether a `break`/`continue` signal label targets a construct with the
/// given own label: a bare signal targets the innermost construct, a labelled
/// one only the construct carrying the same label.
pub open spec fn label_matches(signal: Option<Seq<char>>, own: Option<Seq<char>>) -> bool {
    match signal {
        None => true,
        Some(s) => own == Some(s),
    }
}

/// Message thrown when a for-in head declares more than one name.
pub open spec fn forin_multi_decl_message() -> Seq<char> {
    "only one variable can be declared in the head of a for-in loop"@
}

/// Message thrown when a for-in head declaration carries an initializer.
pub open spec fn forin_initializer_message() -> Seq<char> {
    "a declaration in the head of a for-in loop can't have an initializer"@
}

/// Message thrown when a for-in head is not a recognized binding target.
pub open spec fn forin_unknown_head_message() -> Seq<char> {
    "unknown left hand side in head of for-in loop"@
}

/// Message thrown when `+` is applied to anything but two strings.
pub open spec fn add_type_message() -> Seq<char> {
    "addition is only supported between two string values"@
}

/// Message thrown when a node outside the executed subset is run.
pub open spec fn unsupported_message() -> Seq<char> {
    "this statement kind is not executed by this core"@
}

/// The enumeration keys of a value: an object's property names in
/// enumeration order; anything else enumerates nothing.
pub open spec fn enum_keys(v: GValue) -> Seq<Seq<char>> {
    match v {
        GValue::Object(props) => Seq::new(props.len(), |i: int| props[i].0),
        _ => Seq::empty(),
    }
}

/// The images of a list of key strings.
pub open spec fn strs_view(s: Seq<String>) -> Seq<Seq<char>> {
    Seq::new(s.len(), |i: int| s[i]@)
}

/// Binding a for-in key to a bare name: an existing binding is reused
/// (assignment, which an immutable binding refuses), otherwise a new mutable
/// function-scoped binding is created and initialized.
pub open spec fn bind_existing_or_function(name: Seq<char>, key: Seq<char>, cx: GCtx) -> GOut {
    if chain_has(cx.envs, name) {
        if chain_get(cx.envs, name).mutable {
            GOut {
                ctx: GCtx { envs: chain_set(cx.envs, name, GValue::Str(key)), state: cx.state },
                res: GRes::Val(GValue::Undefined),
            }
        } else {
            GOut { ctx: cx, res: GRes::Thrown(GValue::Str(const_assign_message())) }
        }
    } else {
        GOut {
            ctx: GCtx {
                envs: chain_create(
                    cx.envs,
                    GBinding { name, value: GValue::Str(key), mutable: true },
                    VariableScope::Function,
                ),
                state: cx.state,
            },
            res: GRes::Val(GValue::Undefined),
        }
    }
}

/// Binding the current enumeration key to the loop head's target, per the
/// declared form of the head.
pub open spec fn bind_forin_head(head: Node, key: Seq<char>, cx: GCtx) -> GOut {
    match head {
        Node::Identifier(name) => bind_existing_or_function(name@, key, cx),
        Node::VarDeclList(list) => if list@.len() != 1 {
            GOut { ctx: cx, res: GRes::Thrown(GValue::Str(forin_multi_decl_message())) }
        } else if list@[0].init is Some {
            GOut { ctx: cx, res: GRes::Thrown(GValue::Str(forin_initializer_message())) }
        } else {
            bind_existing_or_function(list@[0].name@, key, cx)
        },
        Node::LetDeclList(list) => if list@.len() != 1 {
            GOut { ctx: cx, res: GRes::Thrown(GValue::Str(forin_multi_decl_message())) }
        } else if list@[0].init is Some {
            GOut { ctx: cx, res: GRes::Thrown(GValue::Str(forin_initializer_message())) }
        } else {
            GOut {
                ctx: GCtx {
                    envs: chain_create(
                        cx.envs,
                        GBinding { name: list@[0].name@, value: GValue::Str(key), mutable: true },
                        VariableScope::Block,
                    ),
                    state: cx.state,
                },
                res: GRes::Val(GValue::Undefined),
            }
        },
        Node::ConstDeclList(list) => if list@.len() != 1 {
            GOut { ctx: cx, res: GRes::Thrown(GValue::Str(forin_multi_decl_message())) }
        } else if list@[0].init is Some {
            GOut { ctx: cx, res: GRes::Thrown(GValue::Str(forin_initializer_message())) }
        } else {
            GOut {
                ctx: GCtx {
                    envs: chain_create(
                        cx.envs,
                        GBinding { name: list@[0].name@, value: GValue::Str(key), mutable: false },
                        VariableScope::Block,
                    ),
                    state: cx.state,
                },
                res: GRes::Val(GValue::Undefined),
            }
        },
        Node::Assign(_) => GOut {
            ctx: cx,
            res: GRes::Thrown(GValue::Str(forin_initializer_message())),
        },
        _ => GOut { ctx: cx, res: GRes::Thrown(GValue::Str(forin_unknown_head_message())) },
    }
}

/// What evaluating a node does to the context, and what it yields.
pub open spec fn eval_node(n: Node, cx: GCtx) -> GOut
    decreases n, 0nat,
{
    match n {
        Node::Identifier(s) => if chain_has(cx.envs, s@) {
            GOut { ctx: cx, res: GRes::Val(chain_get(cx.envs, s@).value) }
        } else {
            GOut { ctx: cx, res: GRes::Thrown(GValue::Str(reference_error_message(s@))) }
        },
        Node::BoolLiteral(b) => GOut { ctx: cx, res: GRes::Val(GValue::Bool(b)) },
        Node::StringLiteral(s) => GOut { ctx: cx, res: GRes::Val(GValue::Str(s@)) },
        Node::Add(a, b) => {
            let oa = eval_node(*a, cx);
            match oa.res {
                GRes::Thrown(_) => oa,
                GRes::Val(va) => {
                    let ob = eval_node(*b, oa.ctx);
                    match ob.res {
                        GRes::Thrown(_) => ob,
                        GRes::Val(vb) => if va is Str && vb is Str {
                            GOut {
                                ctx: ob.ctx,
                                res: GRes::Val(GValue::Str(va->Str_0 + vb->Str_0)),
                            }
                        } else {
                            GOut { ctx: ob.ctx, res: GRes::Thrown(GValue::Str(add_type_message())) }
                        },
                    }
                },
            }
        },
        Node::Assign(a) => {
            let ov = eval_node(*a.value, cx);
            match ov.res {
                GRes::Thrown(_) => ov,
                GRes::Val(v) => if chain_has(ov.ctx.envs, a.target@) {
                    if chain_get(ov.ctx.envs, a.target@).mutable {
                        GOut {
                            ctx: GCtx {
                                envs: chain_set(ov.ctx.envs, a.target@, v),
                                state: ov.ctx.state,
                            },
                            res: GRes::Val(v),
                        }
                    } else {
                        GOut {
                            ctx: ov.ctx,
                            res: GRes::Thrown(GValue::Str(const_assign_message())),
                        }
                    }
                } else {
                    GOut {
                        ctx: ov.ctx,
                        res: GRes::Thrown(GValue::Str(reference_error_message(a.target@))),
                    }
                },
            }
        },
        Node::VarDeclList(ds) => eval_decls(ds@, VariableScope::Function, true, cx),
        Node::LetDeclList(ds) => eval_decls(ds@, VariableScope::Block, true, cx),
        Node::ConstDeclList(ds) => eval_decls(ds@, VariableScope::Block, false, cx),
        Node::ForInLoop(f) => {
            let oe = eval_node(*f.expr, cx);
            match oe.res {
                GRes::Thrown(_) => oe,
                GRes::Val(v) => if v is Undefined || v is Null {
                    GOut { ctx: oe.ctx, res: GRes::Val(GValue::Undefined) }
                } else {
                    eval_forin(f, enum_keys(v), GValue::Undefined, oe.ctx)
                },
            }
        },
        Node::WhileLoop(_) => GOut {
            ctx: cx,
            res: GRes::Thrown(GValue::Str(unsupported_message())),
        },
        Node::Break(b) => GOut {
            ctx: GCtx { envs: cx.envs, state: GState::Break(opt_label_view(b.label)) },
            res: GRes::Val(GValue::Undefined),
        },
        Node::Continue(c) => GOut {
            ctx: GCtx { envs: cx.envs, state: GState::Continue(opt_label_view(c.label)) },
            res: GRes::Val(GValue::Undefined),
        },
        Node::Block(b) => {
            let out = eval_stmts(b.statements@, gpush(cx), GValue::Undefined);
            GOut { ctx: gpop(out.ctx), res: out.res }
        },
        Node::Call(_) => GOut { ctx: cx, res: GRes::Thrown(GValue::Str(unsupported_message())) },
    }
}

/// Sequential evaluation of statements: after each one, the control-flow
/// state is consulted, and anything but normal execution stops the sequence
/// with the last computed value.
pub open spec fn eval_stmts(stmts: Seq<Node>, cx: GCtx, acc: GValue) -> GOut
    decreases stmts, 0nat,
{
    if stmts.len() == 0 {
        GOut { ctx: cx, res: GRes::Val(acc) }
    } else {
        let o = eval_node(stmts.first(), cx);
        match o.res {
            GRes::Thrown(_) => o,
            GRes::Val(v) => if o.ctx.state is Executing {
                eval_stmts(stmts.drop_first(), o.ctx, v)
            } else {
                GOut { ctx: o.ctx, res: GRes::Val(v) }
            },
        }
    }
}

/// Evaluation of a declaration list: each declaration evaluates its
/// initializer (if any) and creates a binding in the record the scope
/// selects. The list's own value is the absence-of-value sentinel.
pub open spec fn eval_decls(
    ds: Seq<Declaration>,
    scope: VariableScope,
    mutable: bool,
    cx: GCtx,
) -> GOut
    decreases ds, 0nat,
{
    if ds.len() == 0 {
        GOut { ctx: cx, res: GRes::Val(GValue::Undefined) }
    } else {
        let d = ds.first();
        match d.init {
            None => eval_decls(
                ds.drop_first(),
                scope,
                mutable,
                GCtx {
                    envs: chain_create(
                        cx.envs,
                        GBinding { name: d.name@, value: GValue::Undefined, mutable },
                        scope,
                    ),
                    state: cx.state,
                },
            ),
            Some(e) => {
                let oi = eval_node(*e, cx);
                match oi.res {
                    GRes::Thrown(_) => oi,
                    GRes::Val(v) => eval_decls(
                        ds.drop_first(),
                        scope,
                        mutable,
                        GCtx {
                            envs: chain_create(
                                oi.ctx.envs,
                                GBinding { name: d.name@, value: v, mutable },
                                scope,
                            ),
                            state: oi.ctx.state,
                        },
                    ),
                }
            },
        }
    }
}

/// One pass of a `for`-`in` loop per remaining enumeration key: each pass
/// pushes a fresh declarative record, binds the key, runs the body, consults
/// the control-flow state, and pops the record again. A `break` naming this
/// loop (or naming nothing) ends the loop normally and clears the signal; one
/// naming another construct ends it with the signal intact. A matching
/// `continue` clears the signal and iterates on; a foreign one ends the loop
/// with the signal intact. A `return` ends the loop with the signal intact.
pub open spec fn eval_forin(f: ForInLoop, keys: Seq<Seq<char>>, acc: GValue, cx: GCtx) -> GOut
    decreases f, keys.len(),
{
    let cx1 = gpush(cx);
    if keys.len() == 0 {
        GOut { ctx: gpop(cx1), res: GRes::Val(acc) }
    } else {
        let ob = bind_forin_head(*f.variable, keys.first(), cx1);
        match ob.res {
            GRes::Thrown(_) => GOut { ctx: gpop(ob.ctx), res: ob.res },
            GRes::Val(_) => {
                let obody = eval_node(*f.body, ob.ctx);
                match obody.res {
                    GRes::Thrown(_) => GOut { ctx: gpop(obody.ctx), res: obody.res },
                    GRes::Val(v) => match obody.ctx.state {
                        GState::Break(l) => if label_matches(l, opt_label_view(f.label)) {
                            GOut {
                                ctx: GCtx {
                                    envs: gpop(obody.ctx).envs,
                                    state: GState::Executing,
                                },
                                res: GRes::Val(v),
                            }
                        } else {
                            GOut { ctx: gpop(obody.ctx), res: GRes::Val(v) }
                        },
                        GState::Continue(l) => if label_matches(l, opt_label_view(f.label)) {
                            eval_forin(
                                f,
                                keys.drop_first(),
                                v,
                                GCtx { envs: gpop(obody.ctx).envs, state: GState::Executing },
                            )
                        } else {
                            GOut { ctx: gpop(obody.ctx), res: GRes::Val(v) }
                        },
                        GState::Return => GOut { ctx: gpop(obody.ctx), res: GRes::Val(v) },
                        GState::Executing => eval_forin(f, keys.drop_first(), v, gpop(obody.ctx)),
                        GState::Error => eval_forin(f, keys.drop_first(), v, gpop(obody.ctx)),
                    },
                }
            },
        }
    }
}

/// The executor's contract shape: the final context and result are exactly
/// what the evaluation function says.
pub open spec fn gout_matches(out: GOut, cx: GCtx, r: Result<Value, Value>) -> bool {
    &&& out.ctx == cx
    &&& match r {
        Ok(v) => out.res == GRes::Val(v@),
        Err(e) => out.res == GRes::Thrown(e@),
    }
}

} // verus!

verus! {

/// Replacing a binding's value never changes how many records the chain has.
proof fn lemma_chain_set_len(envs: Seq<Seq<GBinding>>, name: Seq<char>, value: GValue)
    ensures
        chain_set(envs, name, value).len() == envs.len(),
    decreases envs,
{
    if envs.len() > 0 && !env_has_last(envs, name) {
        lemma_chain_set_len(envs.drop_last(), name, value);
    }
}

/// Whether the innermost record of the chain binds the name.
spec fn env_has_last(envs: Seq<Seq<GBinding>>, name: Seq<char>) -> bool {
    crate::context::env_has(envs.last(), name)
}

/// Decides whether a signal label targets a construct with the given label.
fn label_matches_exec(signal: &Option<String>, own: &Option<String>) -> (r: bool)
    ensures
        r == label_matches(opt_label_view(*signal), opt_label_view(*own)),
{
    match signal {
        None => true,
        Some(s) => match own {
            Some(o) => *s == *o,
            None => false,
        },
    }
}

/// Collects the enumeration keys of a value: an object's property names in
/// order, nothing for anything else.
fn collect_keys(v: &Value) -> (keys: Vec<String>)
    ensures
        strs_view(keys@) == enum_keys(v@),
{
    match v {
        Value::Object(fields) => {
            let mut out: Vec<String> = Vec::new();
            let mut i: usize = 0;
            while i < fields.len()
                invariant
                    i <= fields@.len(),
                    out@.len() == i,
                    forall|j: int| 0 <= j < i ==> out@[j]@ == fields@[j].0@,
                decreases fields@.len() - i,
            {
                out.push(fields[i].0.clone());
                i = i + 1;
            }
            proof {
                crate::value::lemma_props_view_elements(fields@);
                assert(strs_view(out@) =~= enum_keys(v@));
            }
            out
        },
        _ => {
            let out: Vec<String> = Vec::new();
            proof {
                assert(strs_view(out@) =~= enum_keys(v@));
            }
            out
        },
    }
}

/// Binds a for-in key to a bare name: reuse an existing binding, else create
/// a mutable function-scoped one.
fn bind_single(name: &String, key: &String, context: &mut Context) -> (r: Result<(), Value>)
    requires
        old(context)@.envs.len() > 0,
    ensures
        ({
            let out = bind_existing_or_function(name@, key@, old(context)@);
            &&& out.ctx == final(context)@
            &&& (r is Ok <==> out.res is Val)
            &&& (r matches Err(e) ==> out.res == GRes::Thrown(e@))
        }),
        final(context)@.envs.len() == old(context)@.envs.len(),
{
    if context.has_binding(name.as_str()) {
        match context.set_mutable_binding(name.as_str(), Value::Str(key.clone())) {
            Ok(()) => {
                proof {
                    lemma_chain_set_len(old(context)@.envs, name@, GValue::Str(key@));
                }
                Ok(())
            },
            Err(e) => Err(e),
        }
    } else {
        context.create_initialized_binding(
            name.clone(),
            Value::Str(key.clone()),
            true,
            VariableScope::Function,
        );
        Ok(())
    }
}

/// Binds the current enumeration key to the loop head's target.
fn bind_head(head: &Node, key: &String, context: &mut Context) -> (r: Result<(), Value>)
    requires
        old(context)@.envs.len() > 0,
    ensures
        ({
            let out = bind_forin_head(*head, key@, old(context)@);
            &&& out.ctx == final(context)@
            &&& (r is Ok <==> out.res is Val)
            &&& (r matches Err(e) ==> out.res == GRes::Thrown(e@))
        }),
        final(context)@.envs.len() == old(context)@.envs.len(),
{
    match head {
        Node::Identifier(name) => bind_single(name, key, context),
        Node::VarDeclList(list) => {
            if list.len() != 1 {
                return Err(
                    Value::Str(
                        String::from_str(
                            "only one variable can be declared in the head of a for-in loop",
                        ),
                    ),
                );
            }
            if list[0].init.is_some() {
                return Err(
                    Value::Str(
                        String::from_str(
                            "a declaration in the head of a for-in loop can't have an initializer",
                        ),
                    ),
                );
            }
            bind_single(&list[0].name, key, context)
        },
        Node::LetDeclList(list) => {
            if list.len() != 1 {
                return Err(
                    Value::Str(
                        String::from_str(
                            "only one variable can be declared in the head of a for-in loop",
                        ),
                    ),
                );
            }
            if list[0].init.is_some() {
                return Err(
                    Value::Str(
                        String::from_str(
                            "a declaration in the head of a for-in loop can't have an initializer",
                        ),
                    ),
                );
            }
            context.create_initialized_binding(
                list[0].name.clone(),
                Value::Str(key.clone()),
                true,
                VariableScope::Block,
            );
            Ok(())
        },
        Node::ConstDeclList(list) => {
            if list.len() != 1 {
                return Err(
                    Value::Str(
                        String::from_str(
                            "only one variable can be declared in the head of a for-in loop",
                        ),
                    ),
                );
            }
            if list[0].init.is_some() {
                return Err(
                    Value::Str(
                        String::from_str(
                            "a declaration in the head of a for-in loop can't have an initializer",
                        ),
                    ),
                );
            }
            context.create_initialized_binding(
                list[0].name.clone(),
                Value::Str(key.clone()),
                false,
                VariableScope::Block,
            );
            Ok(())
        },
        Node::Assign(_) => Err(
            Value::Str(
                String::from_str(
                    "a declaration in the head of a for-in loop can't have an initializer",
                ),
            ),
        ),
        _ => Err(
            Value::Str(String::from_str("unknown left hand side in head of for-in loop")),
        ),
    }
}

impl Node {
    /// Runs the node against the context, per the evaluation function.
    pub fn run(&self, context: &mut Context) -> (r: Result<Value, Value>)
        requires
            old(context)@.envs.len() > 0,
        ensures
            gout_matches(eval_node(*self, old(context)@), final(context)@, r),
            final(context)@.envs.len() == old(context)@.envs.len(),
        decreases *self,
    {
        match self {
            Node::Identifier(s) => {
                if context.has_binding(s.as_str()) {
                    Ok(context.get_binding_value(s.as_str()))
                } else {
                    let mut m = s.clone();
                    m.append(" is not defined");
                    Err(Value::Str(m))
                }
            },
            Node::BoolLiteral(b) => Ok(Value::Bool(*b)),
            Node::StringLiteral(s) => Ok(Value::Str(s.clone())),
            Node::Add(a, b) => {
                let va = match a.run(context) {
                    Ok(v) => v,
                    Err(e) => {
                        return Err(e);
                    },
                };
                let vb = match b.run(context) {
                    Ok(v) => v,
                    Err(e) => {
                        return Err(e);
                    },
                };
                match (va, vb) {
                    (Value::Str(x), Value::Str(y)) => {
                        let mut r = x;
                        r.append(y.as_str());
                        Ok(Value::Str(r))
                    },
                    _ => Err(
                        Value::Str(
                            String::from_str(
                                "addition is only supported between two string values",
                            ),
                        ),
                    ),
                }
            },
            Node::Assign(a) => {
                let v = match a.value.run(context) {
                    Ok(v) => v,
                    Err(e) => {
                        return Err(e);
                    },
                };
                if context.has_binding(a.target.as_str()) {
                    let ghost envs_mid = context@.envs;
                    match context.set_mutable_binding(a.target.as_str(), v.clone()) {
                        Ok(()) => {
                            proof {
                                lemma_chain_set_len(envs_mid, a.target@, v@);
                            }
                            Ok(v)
                        },
                        Err(e) => Err(e),
                    }
                } else {
                    let mut m = a.target.clone();
                    m.append(" is not defined");
                    Err(Value::Str(m))
                }
            },
            Node::VarDeclList(ds) => run_decls(ds, VariableScope::Function, true, context),
            Node::LetDeclList(ds) => run_decls(ds, VariableScope::Block, true, context),
            Node::ConstDeclList(ds) => run_decls(ds, VariableScope::Block, false, context),
            Node::ForInLoop(f) => f.run(context),
            Node::WhileLoop(_) => Err(
                Value::Str(String::from_str("this statement kind is not executed by this core")),
            ),
            Node::Break(b) => b.run(context),
            Node::Continue(c) => c.run(context),
            Node::Block(b) => {
                context.push_environment();
                let r = run_statements(&b.statements, context);
                context.pop_environment();
                r
            },
            Node::Call(_) => Err(
                Value::Str(String::from_str("this statement kind is not executed by this core")),
            ),
        }
    }
}

/// Runs a statement sequence, consulting the control-flow state after each
/// statement.
fn run_statements(stmts: &Vec<Node>, context: &mut Context) -> (r: Result<Value, Value>)
    requires
        old(context)@.envs.len() > 0,
    ensures
        gout_matches(eval_stmts(stmts@, old(context)@, GValue::Undefined), final(context)@, r),
        final(context)@.envs.len() == old(context)@.envs.len(),
    decreases stmts@,
{
    let mut acc = Value::Undefined;
    let mut i: usize = 0;
    proof {
        assert(stmts@.skip(0) =~= stmts@);
    }
    while i < stmts.len()
        invariant
            i <= stmts@.len(),
            context@.envs.len() == old(context)@.envs.len(),
            old(context)@.envs.len() > 0,
            eval_stmts(stmts@.skip(i as int), context@, acc@) == eval_stmts(
                stmts@,
                old(context)@,
                GValue::Undefined,
            ),
            context@.state is Executing || i == 0,
        decreases stmts@.len() - i,
    {
        let ghost tail = stmts@.skip(i as int);
        proof {
            assert(tail.first() == stmts@[i as int]);
            assert(tail.drop_first() =~= stmts@.skip(i + 1));
        }
        let v = match stmts[i].run(context) {
            Ok(v) => v,
            Err(e) => {
                return Err(e);
            },
        };
        acc = v;
        let st = context.state_snapshot();
        match st {
            InterpreterState::Executing => (),
            _ => {
                return Ok(acc);
            },
        }
        i = i + 1;
    }
    proof {
        assert(stmts@.skip(stmts@.len() as int) =~= Seq::<Node>::empty());
    }
    Ok(acc)
}

/// Runs a declaration list: evaluates each initializer and creates the
/// binding in the record the scope selects.
fn run_decls(
    ds: &Vec<Declaration>,
    scope: VariableScope,
    mutable: bool,
    context: &mut Context,
) -> (r: Result<Value, Value>)
    requires
        old(context)@.envs.len() > 0,
    ensures
        gout_matches(eval_decls(ds@, scope, mutable, old(context)@), final(context)@, r),
        final(context)@.envs.len() == old(context)@.envs.len(),
    decreases ds@,
{
    let mut i: usize = 0;
    proof {
        assert(ds@.skip(0) =~= ds@);
    }
    while i < ds.len()
        invariant
            i <= ds@.len(),
            context@.envs.len() == old(context)@.envs.len(),
            old(context)@.envs.len() > 0,
            eval_decls(ds@.skip(i as int), scope, mutable, context@) == eval_decls(
                ds@,
                scope,
                mutable,
                old(context)@,
            ),
        decreases ds@.len() - i,
    {
        let ghost tail = ds@.skip(i as int);
        proof {
            assert(tail.first() == ds@[i as int]);
            assert(tail.drop_first() =~= ds@.skip(i + 1));
        }
        match &ds[i].init {
            None => {
                context.create_initialized_binding(
                    ds[i].name.clone(),
                    Value::Undefined,
                    mutable,
                    scope,
                );
            },
            Some(e) => {
                let v = match e.run(context) {
                    Ok(v) => v,
                    Err(err) => {
                        return Err(err);
                    },
                };
                context.create_initialized_binding(ds[i].name.clone(), v, mutable, scope);
            },
        }
        i = i + 1;
    }
    proof {
        assert(ds@.skip(ds@.len() as int) =~= Seq::<Declaration>::empty());
    }
    Ok(Value::Undefined)
}

impl Break {
    /// Runs the `break` statement: sets the control-flow state to the break
    /// signal carrying this statement's label, and yields the
    /// absence-of-value sentinel. No other effect.
    pub fn run(&self, context: &mut Context) -> (r: Result<Value, Value>)
        ensures
            gout_matches(eval_node(Node::Break(*self), old(context)@), final(context)@, r),
            final(context)@.envs == old(context)@.envs,
            final(context)@.state == GState::Break(opt_label_view(self.label)),
            r matches Ok(v) && v@ == GValue::Undefined,
    {
        let label = match &self.label {
            Some(s) => Some(s.clone()),
            None => None,
        };
        context.set_state(InterpreterState::Break(label));
        Ok(Value::Undefined)
    }
}

impl Continue {
    /// Runs the `continue` statement: sets the control-flow state to the
    /// continue signal carrying this statement's label, and yields the
    /// absence-of-value sentinel. No other effect.
    pub fn run(&self, context: &mut Context) -> (r: Result<Value, Value>)
        ensures
            gout_matches(eval_node(Node::Continue(*self), old(context)@), final(context)@, r),
            final(context)@.envs == old(context)@.envs,
            final(context)@.state == GState::Continue(opt_label_view(self.label)),
            r matches Ok(v) && v@ == GValue::Undefined,
    {
        let label = match &self.label {
            Some(s) => Some(s.clone()),
            None => None,
        };
        context.set_state(InterpreterState::Continue(label));
        Ok(Value::Undefined)
    }
}

impl ForInLoop {
    /// Runs the `for`-`in` loop: evaluates the enumerated expression; an
    /// absence-of-value sentinel makes the loop a no-op. Otherwise each
    /// enumeration key runs one pass in a fresh declarative record, with the
    /// control-flow state consulted after each body run.
    pub fn run(&self, context: &mut Context) -> (r: Result<Value, Value>)
        requires
            old(context)@.envs.len() > 0,
        ensures
            gout_matches(eval_node(Node::ForInLoop(*self), old(context)@), final(context)@, r),
            final(context)@.envs.len() == old(context)@.envs.len(),
        decreases *self,
    {
        let objv = match self.expr.run(context) {
            Ok(v) => v,
            Err(e) => {
                return Err(e);
            },
        };
        if objv.is_null_or_undefined() {
            return Ok(Value::Undefined);
        }
        let keys = collect_keys(&objv);
        let ghost cx0 = context@;
        let ghost kviews = strs_view(keys@);
        proof {
            assert(eval_node(Node::ForInLoop(*self), old(context)@) == eval_forin(
                *self,
                kviews,
                GValue::Undefined,
                cx0,
            ));
        }
        let mut result = Value::Undefined;
        let mut idx: usize = 0;
        proof {
            assert(kviews.skip(0) =~= kviews);
        }
        while idx < keys.len()
            invariant
                idx <= keys@.len(),
                kviews == strs_view(keys@),
                context@.envs.len() == old(context)@.envs.len(),
                old(context)@.envs.len() > 0,
                eval_node(Node::ForInLoop(*self), old(context)@) == eval_forin(
                    *self,
                    kviews.skip(idx as int),
                    result@,
                    context@,
                ),
            decreases keys@.len() - idx,
        {
            let ghost cx_head = context@;
            let ghost tail = kviews.skip(idx as int);
            proof {
                assert(tail.first() == kviews[idx as int]);
                assert(keys@[idx as int]@ == kviews[idx as int]);
                assert(tail.drop_first() =~= kviews.skip(idx + 1));
            }
            context.push_environment();
            match bind_head(&self.variable, &keys[idx], context) {
                Err(e) => {
                    context.pop_environment();
                    return Err(e);
                },
                Ok(()) => (),
            }
            let v = match self.body.run(context) {
                Ok(v) => v,
                Err(e) => {
                    context.pop_environment();
                    return Err(e);
                },
            };
            let st = context.state_snapshot();
            match st {
                InterpreterState::Break(l) => {
                    let hit = label_matches_exec(&l, &self.label);
                    context.pop_environment();
                    if hit {
                        context.set_state(InterpreterState::Executing);
                    }
                    return Ok(v);
                },
                InterpreterState::Continue(l) => {
                    let hit = label_matches_exec(&l, &self.label);
                    context.pop_environment();
                    if !hit {
                        return Ok(v);
                    }
                    context.set_state(InterpreterState::Executing);
                },
                InterpreterState::Return => {
                    context.pop_environment();
                    return Ok(v);
                },
                InterpreterState::Executing => {
                    context.pop_environment();
                },
                InterpreterState::Error => {
                    context.pop_environment();
                },
            }
            result = v;
            idx = idx + 1;
        }
        proof {
            assert(kviews.skip(keys@.len() as int) =~= Seq::<Seq<char>>::empty());
            assert(gpop(gpush(context@)).envs =~= context@.envs);
            assert(gpop(gpush(context@)) =~~= context@);
        }
        Ok(result)
    }
}

} // verus!

verus! {

/// Law: running a `break` sets the control-flow state to the break signal
/// carrying the statement's own label (none for a bare `break`), yields the
/// absence-of-value sentinel, and touches no binding.
pub proof fn lemma_break_sets_state(b: Break, cx: GCtx)
    ensures
        eval_node(Node::Break(b), cx).ctx.state == GState::Break(opt_label_view(b.label)),
        eval_node(Node::Break(b), cx).ctx.envs == cx.envs,
        eval_node(Node::Break(b), cx).res == GRes::Val(GValue::Undefined),
{
}

/// Law: a `for`-`in` head that declares more than one name fails on the
/// first pass with the only-one-variable syntax error, whatever the keys,
/// the accumulated value and the context.
pub proof fn lemma_forin_multi_name_head_fails(
    f: ForInLoop,
    keys: Seq<Seq<char>>,
    acc: GValue,
    cx: GCtx,
)
    requires
        keys.len() > 0,
        (*f.variable matches Node::VarDeclList(l) && l@.len() != 1) || (*f.variable
            matches Node::LetDeclList(l) && l@.len() != 1) || (*f.variable
            matches Node::ConstDeclList(l) && l@.len() != 1),
    ensures
        eval_forin(f, keys, acc, cx).res == GRes::Thrown(
            GValue::Str(forin_multi_decl_message()),
        ),
{
}

/// Law: a `for`-`in` loop over either absence-of-value sentinel is a no-op:
/// it yields the sentinel and leaves the context exactly as the evaluation of
/// its enumerated expression left it.
pub proof fn lemma_forin_over_absent_value_is_noop(f: ForInLoop, cx: GCtx)
    requires
        (eval_node(*f.expr, cx).res matches GRes::Val(v) && (v is Undefined || v is Null)),
    ensures
        eval_node(Node::ForInLoop(f), cx) == (GOut {
            ctx: eval_node(*f.expr, cx).ctx,
            res: GRes::Val(GValue::Undefined),
        }),
{
}

} // verus!

verus! {

/// Law: a `for`-`in` loop over exactly two enumeration keys whose passes
/// complete normally — the head binds, the body completes with a value and
/// leaves the state executing — binds and runs the body exactly twice, in
/// enumeration order, each pass in its own freshly pushed declarative
/// record, and yields the second pass's value.
pub proof fn lemma_forin_visits_each_key_in_order(
    f: ForInLoop,
    k1: Seq<char>,
    k2: Seq<char>,
    acc: GValue,
    cx: GCtx,
)
    requires
        ({
            let ob1 = bind_forin_head(*f.variable, k1, gpush(cx));
            ob1.res is Val
        }),
        ({
            let ob1 = bind_forin_head(*f.variable, k1, gpush(cx));
            let o1 = eval_node(*f.body, ob1.ctx);
            o1.res is Val && o1.ctx.state is Executing
        }),
        ({
            let ob1 = bind_forin_head(*f.variable, k1, gpush(cx));
            let o1 = eval_node(*f.body, ob1.ctx);
            let ob2 = bind_forin_head(*f.variable, k2, gpush(gpop(o1.ctx)));
            ob2.res is Val
        }),
        ({
            let ob1 = bind_forin_head(*f.variable, k1, gpush(cx));
            let o1 = eval_node(*f.body, ob1.ctx);
            let ob2 = bind_forin_head(*f.variable, k2, gpush(gpop(o1.ctx)));
            let o2 = eval_node(*f.body, ob2.ctx);
            o2.res is Val && o2.ctx.state is Executing
        }),
    ensures
        ({
            let ob1 = bind_forin_head(*f.variable, k1, gpush(cx));
            let o1 = eval_node(*f.body, ob1.ctx);
            let ob2 = bind_forin_head(*f.variable, k2, gpush(gpop(o1.ctx)));
            let o2 = eval_node(*f.body, ob2.ctx);
            eval_forin(f, seq![k1, k2], acc, cx) == (GOut { ctx: gpop(o2.ctx), res: o2.res })
        }),
{
    let keys = seq![k1, k2];
    assert(keys.first() == k1);
    assert(keys.drop_first() =~= seq![k2]);
    assert(seq![k2].first() == k2);
    assert(seq![k2].drop_first() =~= Seq::<Seq<char>>::empty());
    let ob1 = bind_forin_head(*f.variable, k1, gpush(cx));
    let o1 = eval_node(*f.body, ob1.ctx);
    let ob2 = bind_forin_head(*f.variable, k2, gpush(gpop(o1.ctx)));
    let o2 = eval_node(*f.body, ob2.ctx);
    let v1 = o1.res->Val_0;
    let v2 = o2.res->Val_0;
    assert(gpop(gpush(gpop(o2.ctx))).envs =~= gpop(o2.ctx).envs);
    assert(gpop(gpush(gpop(o2.ctx))) =~~= gpop(o2.ctx));
    assert(eval_forin(f, Seq::<Seq<char>>::empty(), v2, gpop(o2.ctx)) == (GOut {
        ctx: gpop(o2.ctx),
        res: GRes::Val(v2),
    }));
    assert(eval_forin(f, seq![k2], v1, gpop(o1.ctx)) == eval_forin(
        f,
        Seq::<Seq<char>>::empty(),
        v2,
        gpop(o2.ctx),
    ));
    assert(eval_forin(f, keys, acc, cx) == eval_forin(f, seq![k2], v1, gpop(o1.ctx)));
}

} // verus!
