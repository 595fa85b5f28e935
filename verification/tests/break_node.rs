use boa::ast::Break;
use boa::context::{Context, InterpreterState};
use boa::parser::parse;

#[test]
fn check_post_state() {
    let mut context = Context::new();

    let brk: Break = Break::new("label");

    brk.run(&mut context).unwrap();

    assert_eq!(
        context.executor().get_current_state(),
        &InterpreterState::Break(Some("label".into()))
    );
}

#[test]
fn fmt() {
    let scenario = r#"
        {
            while (true) {
                break outer;
            }
            skipped_call();
        }
        while (true) {
            break;
        }
        "#[1..] // Remove the preceding newline
        .lines()
        .map(|l| &l[8..]) // Remove preceding whitespace from each line
        .collect::<Vec<&'static str>>()
        .join("\n");
    assert_eq!(parse(&scenario, false).unwrap().display(0), scenario);
}
