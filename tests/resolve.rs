use lambda_calculus::pipeline::locally_nameless_tree::{Apply, BoundVar, Expr, FreeVar, Lambda, Lookup};
use lambda_calculus::pipeline::parse_to_locally_nameless::transform_expr;
use lambda_calculus::pipeline::parse_tree::{self, Stmt};
use lambda_calculus::pipeline::parser::parse_stmt;
use std::rc::Rc;

fn resolved(text: &str) -> Expr {
    match parse_stmt(text) {
        Ok(Stmt::Expr(e)) => transform_expr(&e),
        other => panic!("not an expression statement: {:?}", other),
    }
}

fn bound(i: usize) -> Expr {
    Expr::Lookup(Lookup::Bound(BoundVar::new(i)))
}

fn free(name: &str) -> Expr {
    Expr::Lookup(Lookup::Free(FreeVar::new(name.to_string())))
}

fn lam(body: Expr) -> Expr {
    Expr::Lambda(Rc::new(Lambda::new(body)))
}

#[test]
fn shadowing_binds_innermost() {
    assert_eq!(resolved("\\x -> \\x -> x"), lam(lam(bound(0))));
}

#[test]
fn outer_binder_is_one_further() {
    let expected = lam(lam(Expr::Apply(Box::new(Apply::new(bound(1), bound(0))))));
    assert_eq!(resolved("\\x -> \\y -> x y"), expected);
}

#[test]
fn unbound_names_stay_free() {
    let expected = lam(Expr::Apply(Box::new(Apply::new(free("plus"), bound(0)))));
    assert_eq!(resolved("\\x -> plus x"), expected);
    let literal = parse_tree::Expr::LitInteger(4);
    assert_eq!(transform_expr(&literal), Expr::LitInteger(4));
}
