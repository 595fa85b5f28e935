use boa::class::{ClassElementList, ClassField};
use boa::cursor::Cursor;
use boa::lexer::lex;

fn cursor_for(body: &str, strict: bool) -> Cursor {
    Cursor::new(lex(body).unwrap(), strict)
}

#[test]
fn class_body_splits_elements() {
    let mut cursor = cursor_for(
        "constructor() { } foo() { } static bar = true; get baz() { } }",
        true,
    );
    let (constructor, fields, static_fields) =
        ClassElementList::new(false, false).parse(&mut cursor).unwrap();
    let ctor = constructor.unwrap();
    assert_eq!(ctor.name(), "constructor");
    assert_eq!(fields.len(), 2);
    assert!(matches!(fields[0], ClassField::Method(_)));
    assert!(matches!(fields[1], ClassField::Getter(_)));
    assert_eq!(static_fields.len(), 1);
    assert!(matches!(static_fields[0], ClassField::Field(_, _)));
}

#[test]
fn empty_class_body_has_no_elements() {
    let mut cursor = cursor_for("}", true);
    let (constructor, fields, static_fields) =
        ClassElementList::new(false, false).parse(&mut cursor).unwrap();
    assert!(constructor.is_none());
    assert_eq!(fields.len(), 0);
    assert_eq!(static_fields.len(), 0);
}

#[test]
fn second_constructor_is_rejected() {
    let mut cursor = cursor_for("constructor() { } constructor() { } }", true);
    let err = ClassElementList::new(false, false)
        .parse(&mut cursor)
        .unwrap_err();
    assert_eq!(err.message(), "Cannot have multiple constructors on an object");
}

#[test]
fn constructor_field_is_rejected() {
    let mut cursor = cursor_for("constructor = true; }", true);
    let err = ClassElementList::new(false, false)
        .parse(&mut cursor)
        .unwrap_err();
    assert_eq!(err.message(), "Fields cannot be named `constructor`");
}

#[test]
fn rest_parameter_is_rejected_in_strict_mode() {
    let mut cursor = cursor_for("foo(...args) { } }", true);
    let err = ClassElementList::new(false, false)
        .parse(&mut cursor)
        .unwrap_err();
    assert_eq!(
        err.message(),
        "Cannot have spread parameters on a class method in strict mode"
    );
}

#[test]
fn setter_takes_its_parameter() {
    let mut cursor = cursor_for("set width(value) { } }", true);
    let (constructor, fields, _) =
        ClassElementList::new(false, false).parse(&mut cursor).unwrap();
    assert!(constructor.is_none());
    assert_eq!(fields.len(), 1);
    match &fields[0] {
        ClassField::Setter(decl) => {
            assert_eq!(decl.name(), "width");
            assert_eq!(decl.parameters.len(), 1);
            assert_eq!(decl.parameters[0].name, "value");
            assert!(!decl.parameters[0].is_rest);
        },
        _ => panic!("expected a setter"),
    }
}

#[test]
fn field_without_semicolon_is_rejected() {
    let mut cursor = cursor_for("foo = true }", true);
    assert!(ClassElementList::new(false, false).parse(&mut cursor).is_err());
}
