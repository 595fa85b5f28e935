use boa::ast::{Block, Break, ForInLoop, Node, StatementList};

#[test]
fn forin_display_renders_head_and_body() {
    let loop_node = ForInLoop::new(
        Node::Identifier("x".to_string()),
        Node::Identifier("obj".to_string()),
        Node::Block(Block::new(vec![])),
    );
    assert_eq!(loop_node.display(0), "for (x in obj) {\n}");
}

#[test]
fn forin_display_indents_its_closing_brace() {
    let loop_node = ForInLoop::new(
        Node::Identifier("x".to_string()),
        Node::Identifier("obj".to_string()),
        Node::Block(Block::new(vec![])),
    );
    assert_eq!(loop_node.display(1), "for (x in obj) {\n    }");
}

#[test]
fn labelled_break_prints_its_label() {
    let list = StatementList::new(vec![Node::Break(Break::new("label"))]);
    assert_eq!(list.display(0), "break label;\n");
}

#[test]
fn bare_break_prints_no_label() {
    let list = StatementList::new(vec![Node::Break(Break::new_unlabelled())]);
    assert_eq!(list.display(0), "break;\n");
}

#[test]
fn forin_accessors_return_the_parts() {
    let mut loop_node = ForInLoop::new(
        Node::Identifier("x".to_string()),
        Node::Identifier("obj".to_string()),
        Node::Block(Block::new(vec![])),
    );
    assert!(matches!(loop_node.variable(), Node::Identifier(_)));
    assert!(matches!(loop_node.expr(), Node::Identifier(_)));
    assert!(matches!(loop_node.body(), Node::Block(_)));
    assert!(loop_node.label().is_none());
    loop_node.set_label("outer".to_string());
    assert_eq!(loop_node.label().as_deref(), Some("outer"));
}
