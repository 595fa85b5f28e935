use boa::ast::{Assign, Block, Break, Continue, Declaration, ForInLoop, Node, WhileLoop};
use boa::context::{Context, InterpreterState, VariableScope};
use boa::value::Value;

fn decl(name: &str) -> Declaration {
    Declaration::new(name.to_string(), None)
}

fn ident(name: &str) -> Node {
    Node::Identifier(name.to_string())
}

/// A context with `obj` bound to an object with keys `a` and `b` (in that
/// enumeration order) and `acc` bound to an empty string.
fn context_with_object() -> Context {
    let mut context = Context::new();
    context.create_mutable_binding("obj".to_string(), VariableScope::Function);
    context.initialize_binding(
        "obj",
        Value::Object(vec![
            ("a".to_string(), Value::Str("1".to_string())),
            ("b".to_string(), Value::Str("2".to_string())),
        ]),
    );
    context.create_mutable_binding("acc".to_string(), VariableScope::Function);
    context.initialize_binding("acc", Value::Str(String::new()));
    context
}

fn accumulate_body() -> Node {
    // { acc = acc + x; }
    Node::Block(Block::new(vec![Node::Assign(Assign {
        target: "acc".to_string(),
        value: Box::new(Node::Add(
            Box::new(ident("acc")),
            Box::new(ident("x")),
        )),
    })]))
}

fn acc_value(context: &Context) -> String {
    match context.get_binding_value("acc") {
        Value::Str(s) => s,
        _ => panic!("acc is not a string"),
    }
}

#[test]
fn forin_iterates_keys_in_enumeration_order() {
    let mut context = context_with_object();
    let loop_node = ForInLoop::new(
        Node::LetDeclList(vec![decl("x")]),
        ident("obj"),
        accumulate_body(),
    );
    loop_node.run(&mut context).unwrap();
    // The body ran exactly twice, once per key, in enumeration order.
    assert_eq!(acc_value(&context), "ab");
    // The per-iteration declarative scope is gone: `x` is not visible.
    assert!(!context.has_binding("x"));
    assert_eq!(
        context.executor().get_current_state(),
        &InterpreterState::Executing
    );
}

#[test]
fn forin_with_bare_identifier_head_creates_function_binding() {
    let mut context = context_with_object();
    let loop_node = ForInLoop::new(ident("k"), ident("obj"), accumulate_body_with("k"));
    loop_node.run(&mut context).unwrap();
    assert_eq!(acc_value(&context), "ab");
    // A bare-identifier head without an existing binding creates a
    // function-scoped one, which survives the loop and holds the last key.
    assert!(context.has_binding("k"));
    match context.get_binding_value("k") {
        Value::Str(s) => assert_eq!(s, "b"),
        _ => panic!("k is not a string"),
    }
}

fn accumulate_body_with(var: &str) -> Node {
    Node::Block(Block::new(vec![Node::Assign(Assign {
        target: "acc".to_string(),
        value: Box::new(Node::Add(
            Box::new(ident("acc")),
            Box::new(ident(var)),
        )),
    })]))
}

#[test]
fn forin_multi_name_head_is_a_syntax_error() {
    let mut context = context_with_object();
    let loop_node = ForInLoop::new(
        Node::LetDeclList(vec![decl("a"), decl("b")]),
        ident("obj"),
        Node::Block(Block::new(vec![])),
    );
    let err = loop_node.run(&mut context).unwrap_err();
    match err {
        Value::Str(s) => assert_eq!(
            s,
            "only one variable can be declared in the head of a for-in loop"
        ),
        _ => panic!("expected a thrown string"),
    }
}

#[test]
fn forin_head_initializer_is_a_syntax_error() {
    let mut context = context_with_object();
    let loop_node = ForInLoop::new(
        Node::VarDeclList(vec![Declaration::new(
            "x".to_string(),
            Some(Box::new(Node::BoolLiteral(true))),
        )]),
        ident("obj"),
        Node::Block(Block::new(vec![])),
    );
    let err = loop_node.run(&mut context).unwrap_err();
    match err {
        Value::Str(s) => assert_eq!(
            s,
            "a declaration in the head of a for-in loop can't have an initializer"
        ),
        _ => panic!("expected a thrown string"),
    }
}

#[test]
fn forin_over_undefined_is_a_noop() {
    let mut context = Context::new();
    context.create_mutable_binding("obj".to_string(), VariableScope::Function);
    let loop_node = ForInLoop::new(
        Node::LetDeclList(vec![decl("x")]),
        ident("obj"),
        Node::Block(Block::new(vec![])),
    );
    let result = loop_node.run(&mut context).unwrap();
    assert!(matches!(result, Value::Undefined));
}

#[test]
fn forin_over_missing_name_is_a_reference_error() {
    let mut context = Context::new();
    let loop_node = ForInLoop::new(
        Node::LetDeclList(vec![decl("x")]),
        ident("nothing"),
        Node::Block(Block::new(vec![])),
    );
    let err = loop_node.run(&mut context).unwrap_err();
    match err {
        Value::Str(s) => assert_eq!(s, "nothing is not defined"),
        _ => panic!("expected a thrown string"),
    }
}

#[test]
fn forin_const_head_refuses_assignment_in_body() {
    let mut context = context_with_object();
    let loop_node = ForInLoop::new(
        Node::ConstDeclList(vec![decl("x")]),
        ident("obj"),
        Node::Block(Block::new(vec![Node::Assign(Assign {
            target: "x".to_string(),
            value: Box::new(Node::StringLiteral("other".to_string())),
        })])),
    );
    let err = loop_node.run(&mut context).unwrap_err();
    match err {
        Value::Str(s) => assert_eq!(s, "Assignment to constant variable."),
        _ => panic!("expected a thrown string"),
    }
}

#[test]
fn bare_break_in_forin_stops_after_first_key() {
    let mut context = context_with_object();
    let loop_node = ForInLoop::new(
        Node::LetDeclList(vec![decl("x")]),
        ident("obj"),
        Node::Block(Block::new(vec![
            Node::Assign(Assign {
                target: "acc".to_string(),
                value: Box::new(Node::Add(
                    Box::new(ident("acc")),
                    Box::new(ident("x")),
                )),
            }),
            Node::Break(Break::new_unlabelled()),
        ])),
    );
    loop_node.run(&mut context).unwrap();
    assert_eq!(acc_value(&context), "a");
    // A break that targets this loop is consumed by it.
    assert_eq!(
        context.executor().get_current_state(),
        &InterpreterState::Executing
    );
}

#[test]
fn foreign_labelled_break_propagates_outward() {
    let mut context = context_with_object();
    let mut loop_node = ForInLoop::new(
        Node::LetDeclList(vec![decl("x")]),
        ident("obj"),
        Node::Block(Block::new(vec![Node::Break(Break::new("outer"))])),
    );
    loop_node.set_label("inner".to_string());
    loop_node.run(&mut context).unwrap();
    assert_eq!(
        context.executor().get_current_state(),
        &InterpreterState::Break(Some("outer".into()))
    );
}

#[test]
fn matching_continue_moves_to_next_key() {
    let mut context = context_with_object();
    let loop_node = ForInLoop::new(
        Node::LetDeclList(vec![decl("x")]),
        ident("obj"),
        Node::Block(Block::new(vec![
            Node::Assign(Assign {
                target: "acc".to_string(),
                value: Box::new(Node::Add(
                    Box::new(ident("acc")),
                    Box::new(ident("x")),
                )),
            }),
            Node::Continue(Continue::new_unlabelled()),
        ])),
    );
    loop_node.run(&mut context).unwrap();
    assert_eq!(acc_value(&context), "ab");
    assert_eq!(
        context.executor().get_current_state(),
        &InterpreterState::Executing
    );
}

#[test]
fn bare_continue_sets_continue_state() {
    let mut context = Context::new();
    let cont = Continue::new("again");
    cont.run(&mut context).unwrap();
    assert_eq!(
        context.executor().get_current_state(),
        &InterpreterState::Continue(Some("again".into()))
    );
}

#[test]
fn bare_break_sets_unlabelled_break_state() {
    let mut context = Context::new();
    let brk = Break::new_unlabelled();
    brk.run(&mut context).unwrap();
    assert_eq!(
        context.executor().get_current_state(),
        &InterpreterState::Break(None)
    );
}

#[test]
fn while_loop_execution_is_unsupported() {
    let mut context = Context::new();
    let node = Node::WhileLoop(WhileLoop {
        cond: Box::new(Node::BoolLiteral(true)),
        body: Box::new(Node::Block(Block::new(vec![]))),
    });
    let err = node.run(&mut context).unwrap_err();
    match err {
        Value::Str(s) => assert_eq!(s, "this statement kind is not executed by this core"),
        _ => panic!("expected a thrown string"),
    }
}

#[test]
fn block_scopes_let_bindings() {
    let mut context = Context::new();
    // { let inner; } leaves no binding behind.
    let node = Node::Block(Block::new(vec![Node::LetDeclList(vec![decl("inner")])]));
    node.run(&mut context).unwrap();
    assert!(!context.has_binding("inner"));
}

#[test]
fn var_declaration_is_function_scoped() {
    let mut context = Context::new();
    // { var hoisted; } leaves a function-scoped binding behind.
    let node = Node::Block(Block::new(vec![Node::VarDeclList(vec![decl("hoisted")])]));
    node.run(&mut context).unwrap();
    assert!(context.has_binding("hoisted"));
}

#[test]
fn string_addition_concatenates() {
    let mut context = Context::new();
    let node = Node::Add(
        Box::new(Node::StringLiteral("for".to_string())),
        Box::new(Node::StringLiteral("in".to_string())),
    );
    match node.run(&mut context).unwrap() {
        Value::Str(s) => assert_eq!(s, "forin"),
        _ => panic!("expected a string"),
    }
}

#[test]
fn addition_of_non_strings_throws() {
    let mut context = Context::new();
    let node = Node::Add(
        Box::new(Node::BoolLiteral(true)),
        Box::new(Node::StringLiteral("x".to_string())),
    );
    let err = node.run(&mut context).unwrap_err();
    match err {
        Value::Str(s) => assert_eq!(s, "addition is only supported between two string values"),
        _ => panic!("expected a thrown string"),
    }
}
