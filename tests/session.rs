use lambda_calculus::pipeline::evaluator::eval;
use lambda_calculus::pipeline::locally_nameless_tree::{BoundVar, Expr, Lookup};
use lambda_calculus::pipeline::runtime::{Globals, Locals, RTValue};
use lambda_calculus::session::Runner;

fn printed(runner: &mut Runner, line: &str) -> String {
    match runner.run_stmt(line) {
        Ok(Some(text)) => text,
        other => panic!("no value for {:?}: {:?}", line, other),
    }
}

#[test]
fn literal_prints_itself() {
    let mut runner = Runner::new();
    assert_eq!(printed(&mut runner, "42"), "42");
    assert_eq!(printed(&mut runner, "-7"), "-7");
}

#[test]
fn identity_declaration_then_call() {
    let mut runner = Runner::new();
    assert_eq!(runner.run_stmt("let id = \\x -> x"), Ok(None));
    assert_eq!(printed(&mut runner, "id 5"), "5");
    assert_eq!(printed(&mut runner, "id"), "<Function>");
}

#[test]
fn add_from_builtin_plus() {
    let mut runner = Runner::new();
    assert_eq!(runner.run_stmt("let add = \\x -> \\y -> plus x y"), Ok(None));
    assert_eq!(printed(&mut runner, "add 2 3"), "5");
}

#[test]
fn unbound_global_leaves_session_intact() {
    let mut runner = Runner::new();
    assert_eq!(runner.run_stmt("let one = 1"), Ok(None));
    assert_eq!(runner.run_stmt("y"), Err("Unbound global y".to_string()));
    assert_eq!(printed(&mut runner, "plus one 1"), "2");
}

#[test]
fn malformed_declaration_is_a_parse_error() {
    let mut runner = Runner::new();
    assert_eq!(
        runner.run_stmt("let = 5"),
        Err("Expected identifier (sequence of lowercase ascii letters)".to_string())
    );
    assert_eq!(printed(&mut runner, "plus 1 1"), "2");
}

#[test]
fn repeatedly_applies_n_times() {
    let mut runner = Runner::new();
    assert_eq!(printed(&mut runner, "repeatedly 3 (plus 2) 1"), "7");
    assert_eq!(printed(&mut runner, "repeatedly 0 (plus 2) 1"), "1");
    assert_eq!(printed(&mut runner, "repeatedly -4 (plus 2) 1"), "1");
}

#[test]
fn redefinition_replaces_binding() {
    let mut runner = Runner::new();
    assert_eq!(runner.run_stmt("let v = 1"), Ok(None));
    assert_eq!(runner.run_stmt("let v = plus v 10"), Ok(None));
    assert_eq!(printed(&mut runner, "v"), "11");
}

#[test]
fn runtime_errors() {
    let mut runner = Runner::new();
    assert_eq!(runner.run_stmt("5 3"), Err("Cannot call number 5 as a fn".to_string()));
    assert_eq!(
        runner.run_stmt("plus (\\x -> x) 1"),
        Err("Expected number, got <Function>".to_string())
    );
    assert_eq!(
        runner.run_stmt("plus 1 (\\x -> x)"),
        Err("Expected number, got <Function>".to_string())
    );
    assert_eq!(
        runner.run_stmt("repeatedly (\\x -> x) 1"),
        Err("Expected number, got <Function>".to_string())
    );
    assert_eq!(
        runner.run_stmt("repeatedly 3 5"),
        Err("Expected function, got 5".to_string())
    );
    assert_eq!(
        runner.run_stmt("plus 9223372036854775807 1"),
        Err("Integer overflow".to_string())
    );
}

#[test]
fn runaway_self_application_stops() {
    let mut runner = Runner::new();
    assert_eq!(
        runner.run_stmt("(\\x -> x x) (\\x -> x x)"),
        Err("Evaluation nested too deeply".to_string())
    );
}

#[test]
fn unresolved_index_is_reported() {
    let globals = Globals::new();
    let expr = Expr::Lookup(Lookup::Bound(BoundVar::new(2)));
    match eval(&expr, &globals) {
        Err(message) => assert_eq!(message, "Unbound local index 2"),
        Ok(_) => panic!("a bound index outside every frame evaluated"),
    }
}

#[test]
fn locals_and_globals() {
    let empty = Locals::empty();
    assert!(empty.lookup(0).is_none());
    let one = empty.bind_local(RTValue::Integer(1));
    let two = one.bind_local(RTValue::Integer(2));
    assert_eq!(two.lookup(0).map(|v| v.to_text()), Some("2".to_string()));
    assert_eq!(two.lookup(1).map(|v| v.to_text()), Some("1".to_string()));
    assert!(two.lookup(2).is_none());
    assert_eq!(one.lookup(0).map(|v| v.to_text()), Some("1".to_string()));
    let mut globals = Globals::new();
    assert!(globals.lookup("a").is_none());
    globals.define("a", RTValue::Integer(-5));
    globals.define("b", RTValue::Integer(6));
    globals.define("a", RTValue::Integer(8));
    assert_eq!(globals.lookup("a").map(|v| v.to_text()), Some("8".to_string()));
    assert_eq!(globals.lookup("b").map(|v| v.to_text()), Some("6".to_string()));
}

#[test]
fn integers_print_in_decimal() {
    assert_eq!(RTValue::Integer(0).to_text(), "0");
    assert_eq!(RTValue::Integer(1234567890).to_text(), "1234567890");
    assert_eq!(RTValue::Integer(i64::MIN).to_text(), "-9223372036854775808");
    assert_eq!(RTValue::Integer(i64::MAX).to_text(), "9223372036854775807");
}

#[test]
fn builtins_are_preloaded() {
    let runner = Runner::new();
    assert!(runner.globals.lookup("plus").is_some());
    assert!(runner.globals.lookup("repeatedly").is_some());
    assert!(runner.globals.lookup("minus").is_none());
}
