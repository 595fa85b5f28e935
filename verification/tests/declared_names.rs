use boa::declared_names::DeclaredNames;
use boa::position::Position;

fn pos() -> Position {
    Position::new(1, 1)
}

#[test]
fn duplicate_lex_name_in_same_level_fails() {
    let mut env = DeclaredNames::default();
    assert!(env.insert_lex_name("a", pos()).is_ok());
    assert!(env.insert_lex_name("a", pos()).is_err());
}

#[test]
fn var_after_lex_same_level_fails() {
    let mut env = DeclaredNames::default();
    assert!(env.insert_lex_name("a", pos()).is_ok());
    assert!(env.insert_var_name("a", pos()).is_err());
}

#[test]
fn var_after_lex_enclosing_level_fails() {
    let mut env = DeclaredNames::default();
    assert!(env.insert_lex_name("a", pos()).is_ok());
    env.push_stack();
    assert!(env.insert_var_name("a", pos()).is_err());
    assert!(env.pop_stack().is_ok());
}

#[test]
fn lex_after_var_fails() {
    let mut env = DeclaredNames::default();
    assert!(env.insert_var_name("a", pos()).is_ok());
    assert!(env.insert_lex_name("a", pos()).is_err());
}

#[test]
fn lex_shadowing_across_levels_is_legal() {
    let mut env = DeclaredNames::default();
    env.push_stack();
    assert!(env.insert_lex_name("x", pos()).is_ok());
    env.push_stack();
    assert!(env.insert_lex_name("x", pos()).is_ok());
    assert!(env.pop_stack().is_ok());
    assert!(env.pop_stack().is_ok());
}

#[test]
fn var_redeclaration_across_levels_is_legal() {
    let mut env = DeclaredNames::default();
    env.push_stack();
    assert!(env.insert_var_name("x", pos()).is_ok());
    env.push_stack();
    assert!(env.insert_var_name("x", pos()).is_ok());
    assert!(env.pop_stack().is_ok());
    assert!(env.pop_stack().is_ok());
}

#[test]
fn intervening_lex_in_inner_level_fails_at_insert() {
    // The same sequence as above, with a lexical declaration of the name in
    // the inner level: the collision is caught at the insert itself, since
    // the name is already an active `var` of that level.
    let mut env = DeclaredNames::default();
    env.push_stack();
    assert!(env.insert_var_name("x", pos()).is_ok());
    env.push_stack();
    assert!(env.insert_var_name("x", pos()).is_ok());
    assert!(env.insert_lex_name("x", pos()).is_err());
    assert!(env.pop_stack().is_ok());
    assert!(env.pop_stack().is_ok());
}

#[test]
fn merged_var_survives_pop() {
    // A `var` declared in a nested level merges outward on pop: a lexical
    // declaration of the same name afterwards collides with it.
    let mut env = DeclaredNames::default();
    env.push_stack();
    assert!(env.insert_var_name("v", pos()).is_ok());
    assert!(env.pop_stack().is_ok());
    assert!(env.insert_lex_name("v", pos()).is_err());
}

#[test]
fn lex_dies_with_its_level() {
    let mut env = DeclaredNames::default();
    env.push_stack();
    assert!(env.insert_lex_name("x", pos()).is_ok());
    assert!(env.check_any_lex("x"));
    assert!(env.pop_stack().is_ok());
    assert!(!env.check_any_lex("x"));
    assert!(env.insert_lex_name("x", pos()).is_ok());
}

#[test]
fn redeclaration_error_message_names_the_variable() {
    let mut env = DeclaredNames::default();
    assert!(env.insert_lex_name("answer", pos()).is_ok());
    let err = env.insert_lex_name("answer", pos()).unwrap_err();
    assert!(err.is_syntax());
    assert_eq!(err.message(), "Redeclaration of variable `answer`");
}
