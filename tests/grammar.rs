use lambda_calculus::pipeline::parse_tree::{Apply, Decl, Expr, Lambda, Stmt};
use lambda_calculus::pipeline::parser::parse_stmt;

fn lookup(name: &str) -> Expr {
    Expr::Lookup(name.to_string())
}

fn apply(function: Expr, argument: Expr) -> Expr {
    Expr::Apply(Box::new(Apply { function, argument }))
}

fn lambda(param: &str, body: Expr) -> Expr {
    Expr::Lambda(Box::new(Lambda { param: param.to_string(), body }))
}

fn expr_of(text: &str) -> Expr {
    match parse_stmt(text) {
        Ok(Stmt::Expr(e)) => e,
        other => panic!("not an expression statement: {:?}", other),
    }
}

#[test]
fn application_nests_to_the_left() {
    let e = expr_of("f a b c");
    let expected = apply(apply(apply(lookup("f"), lookup("a")), lookup("b")), lookup("c"));
    assert_eq!(e, expected);
}

#[test]
fn lambda_body_extends_to_the_right() {
    let e = expr_of("\\x -> a b");
    assert_eq!(e, lambda("x", apply(lookup("a"), lookup("b"))));
}

#[test]
fn trailing_lambda_is_last_argument() {
    let e = expr_of("f 1 \\k -> k");
    let expected = apply(apply(lookup("f"), Expr::LitInteger(1)), lambda("k", lookup("k")));
    assert_eq!(e, expected);
}

#[test]
fn parentheses_group() {
    let e = expr_of("  f ( g  x ) -3 ");
    let expected = apply(apply(lookup("f"), apply(lookup("g"), lookup("x"))), Expr::LitInteger(-3));
    assert_eq!(e, expected);
}

#[test]
fn declaration_statement() {
    let parsed = parse_stmt("let id = \\x -> x");
    let expected = Stmt::Decl(Decl { identifier: "id".to_string(), expr: lambda("x", lookup("x")) });
    assert_eq!(parsed, Ok(expected));
}

#[test]
fn malformed_declaration_names_identifier() {
    let parsed = parse_stmt("let = 5");
    assert_eq!(
        parsed,
        Err("Expected identifier (sequence of lowercase ascii letters)".to_string())
    );
}

#[test]
fn trailing_input_is_refused() {
    assert_eq!(
        parse_stmt("f )"),
        Err("Expected end of input, but found )".to_string())
    );
}

#[test]
fn unclosed_parenthesis() {
    assert_eq!(
        parse_stmt("(f x"),
        Err("Expected\n  )\nbut found\n  ".to_string())
    );
}

#[test]
fn empty_statement_is_refused() {
    assert_eq!(
        parse_stmt(""),
        Err("Expected sequence of digits".to_string())
    );
}
