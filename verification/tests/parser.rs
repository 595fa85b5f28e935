use boa::error::ParseError;
use boa::parser::{parse, Parser};

#[test]
fn empty_source_parses_to_empty_list() {
    let list = parse("", false).unwrap();
    assert_eq!(list.statements().len(), 0);
}

#[test]
fn declaration_list_round_trips() {
    let source = "let a;\nvar b;\nconst c = true;\n";
    let list = parse(source, false).unwrap();
    assert_eq!(list.display(0), source);
}

#[test]
fn nested_blocks_round_trip() {
    let source = "{\n    {\n        let deep;\n    }\n}\n";
    let list = parse(source, false).unwrap();
    assert_eq!(list.display(0), source);
}

#[test]
fn var_nested_under_let_is_a_redeclaration_error() {
    // { let a; { var a; } } -- the hoisted var collides with the lexical `a`.
    let err = parse("{ let a; { var a; } }", false).unwrap_err();
    assert!(err.is_syntax());
    assert_eq!(err.message(), "Redeclaration of variable `a`");
}

#[test]
fn duplicate_let_is_a_redeclaration_error() {
    let err = parse("let a; let a;", false).unwrap_err();
    assert!(err.is_syntax());
    assert_eq!(err.message(), "Redeclaration of variable `a`");
}

#[test]
fn var_then_let_is_a_redeclaration_error() {
    let err = parse("var a; let a;", false).unwrap_err();
    assert!(err.is_syntax());
}

#[test]
fn let_then_var_is_a_redeclaration_error() {
    let err = parse("let a; var a;", false).unwrap_err();
    assert!(err.is_syntax());
}

#[test]
fn lexical_name_is_free_after_its_block() {
    assert!(parse("{ let a; } let a;", false).is_ok());
}

#[test]
fn let_shadows_outer_var_inside_block() {
    // var a; { let a; } -- the inner lexical `a` dies with the block.
    assert!(parse("var a; { let a; }", false).is_ok());
}

#[test]
fn shadowing_across_nested_blocks_is_legal() {
    assert!(parse("{ let x; { let x; } }", false).is_ok());
}

#[test]
fn unclosed_block_is_an_abrupt_end() {
    let err = parse("{", false).unwrap_err();
    assert!(matches!(err, ParseError::AbruptEnd));
}

#[test]
fn missing_semicolon_is_an_expectation_error() {
    let err = parse("break }", false).unwrap_err();
    assert!(matches!(err, ParseError::Expected { .. }));
}

#[test]
fn unexpected_character_is_a_syntax_error() {
    let err = parse("let 5;", false).unwrap_err();
    assert!(err.is_syntax());
    assert_eq!(err.message(), "unexpected character in input");
}

#[test]
fn parser_type_parses_all() {
    let mut parser = Parser::new("let a;", false);
    let list = parser.parse_all().unwrap();
    assert_eq!(list.statements().len(), 1);
}

#[test]
fn use_strict_directive_is_recognized() {
    // The directive alone is a string-literal expression statement.
    assert!(parse("\"use strict\";", false).is_ok());
}

#[test]
fn var_merged_out_of_block_blocks_later_let() {
    // The var in the block is function-scoped: it survives the block and
    // collides with the later lexical declaration.
    let err = parse("{ var a; } let a;", false).unwrap_err();
    assert!(err.is_syntax());
}

#[test]
fn call_with_arguments_round_trips() {
    let source = "log(\"done\", flag);\n";
    let list = parse(source, false).unwrap();
    assert_eq!(list.display(0), source);
}
