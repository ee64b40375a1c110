//! Name resolution: from names as written to distances and free names.
use vstd::prelude::*;

use super::locally_nameless_tree as ln;
use super::parse_tree::{self, ExprView};
use crate::text::chars_of;

verus! {

/// How many lambdas, innermost first, lie between a use of `name` and its binder, where
/// `scope` lists the parameters in force, outermost first.
pub open spec fn distance_in(scope: Seq<Seq<char>>, name: Seq<char>) -> Option<nat>
    decreases scope.len(),
{
    if scope.len() == 0 {
        None
    } else if scope.last() == name {
        Some(0)
    } else {
        match distance_in(scope.drop_last(), name) {
            Some(d) => Some(d + 1),
            None => None,
        }
    }
}

/// The resolved form of `e` under the parameters `scope`.
pub open spec fn resolve(e: ExprView, scope: Seq<Seq<char>>) -> ln::Term
    decreases e,
{
    match e {
        ExprView::Lambda(param, body) => ln::Term::Lambda(Box::new(resolve(*body, scope.push(param)))),
        ExprView::Apply(f, a) => ln::Term::Apply(Box::new(resolve(*f, scope)), Box::new(resolve(*a, scope))),
        ExprView::Lookup(name) => match distance_in(scope, name) {
            Some(d) => ln::Term::Bound(d),
            None => ln::Term::Free(name),
        },
        ExprView::LitInteger(i) => ln::Term::LitInteger(i),
    }
}

/// Whether every bound index of `t` reaches one of the `binders` lambdas around it or one
/// inside `t`.
pub open spec fn indices_within(t: ln::Term, binders: nat) -> bool
    decreases t,
{
    match t {
        ln::Term::Lambda(body) => indices_within(*body, binders + 1),
        ln::Term::Apply(f, a) => indices_within(*f, binders) && indices_within(*a, binders),
        ln::Term::Bound(i) => i < binders,
        _ => true,
    }
}

proof fn lemma_distance_below_scope(scope: Seq<Seq<char>>, name: Seq<char>)
    ensures
        distance_in(scope, name) matches Some(d) ==> d < scope.len(),
    decreases scope.len(),
{
    if scope.len() > 0 {
        lemma_distance_below_scope(scope.drop_last(), name);
    }
}

/// A parameter hides every outer one of the same name: a use of `name` right under a lambda
/// binding `name` is at distance zero.
pub proof fn lemma_innermost_binder_wins(scope: Seq<Seq<char>>, name: Seq<char>)
    ensures
        resolve(ExprView::Lookup(name), scope.push(name)) == ln::Term::Bound(0),
{
    assert(scope.push(name).last() == name);
}

/// Resolution never yields an index beyond the lambdas in force: every bound index of the
/// result reaches a lambda of `scope` or of `e` itself.
pub proof fn lemma_resolved_indices_reach_a_binder(e: ExprView, scope: Seq<Seq<char>>)
    ensures
        indices_within(resolve(e, scope), scope.len()),
    decreases e,
{
    match e {
        ExprView::Lambda(param, body) => {
            lemma_resolved_indices_reach_a_binder(*body, scope.push(param));
        },
        ExprView::Apply(f, a) => {
            lemma_resolved_indices_reach_a_binder(*f, scope);
            lemma_resolved_indices_reach_a_binder(*a, scope);
        },
        ExprView::Lookup(name) => {
            lemma_distance_below_scope(scope, name);
        },
        ExprView::LitInteger(_) => {},
    }
}

/// Resolves a whole expression, with no parameter in force.
pub fn transform_expr(parsed: &parse_tree::Expr) -> (r: ln::Expr)
    ensures
        r.deep_view() == resolve(parsed.deep_view(), seq![]),
{
    let mut bound_vars: Vec<Vec<char>> = Vec::new();
    proof {
        assert(bound_vars.deep_view() =~= Seq::<Seq<char>>::empty());
    }
    go_expr(parsed, &mut bound_vars)
}

fn go_expr(parsed: &parse_tree::Expr, bound_vars: &mut Vec<Vec<char>>) -> (r: ln::Expr)
    ensures
        final(bound_vars)@ == old(bound_vars)@,
        r.deep_view() == resolve(parsed.deep_view(), old(bound_vars).deep_view()),
    decreases parsed,
{
    match parsed {
        parse_tree::Expr::Apply(apply) => go_apply(apply, bound_vars),
        parse_tree::Expr::Lambda(lambda) => go_lambda(lambda, bound_vars),
        parse_tree::Expr::Lookup(identifier) => go_lookup(identifier, bound_vars),
        parse_tree::Expr::LitInteger(lit) => go_literal(lit),
    }
}

fn go_apply(parsed: &parse_tree::Apply, bound_vars: &mut Vec<Vec<char>>) -> (r: ln::Expr)
    ensures
        final(bound_vars)@ == old(bound_vars)@,
        r.deep_view() == resolve(
            ExprView::Apply(
                Box::new(parsed.function.deep_view()),
                Box::new(parsed.argument.deep_view()),
            ),
            old(bound_vars).deep_view(),
        ),
    decreases parsed,
{
    let function = go_expr(&parsed.function, bound_vars);
    let argument = go_expr(&parsed.argument, bound_vars);
    ln::Expr::Apply(Box::new(ln::Apply::new(function, argument)))
}

fn go_lambda(parsed: &parse_tree::Lambda, bound_vars: &mut Vec<Vec<char>>) -> (r: ln::Expr)
    ensures
        final(bound_vars)@ == old(bound_vars)@,
        r.deep_view() == resolve(
            ExprView::Lambda(parsed.param@, Box::new(parsed.body.deep_view())),
            old(bound_vars).deep_view(),
        ),
    decreases parsed,
{
    let ghost before = bound_vars.deep_view();
    let param = chars_of(parsed.param.as_str());
    assert(param.deep_view() =~= param@);
    bound_vars.push(param);
    assert(bound_vars.deep_view() =~= before.push(parsed.param@));
    let body = go_expr(&parsed.body, bound_vars);
    bound_vars.pop();
    assert(bound_vars@ =~= old(bound_vars)@);
    ln::Expr::Lambda(std::rc::Rc::new(ln::Lambda::new(body)))
}

/// Whether `a` and `b` hold the same characters.
fn same_chars(a: &Vec<char>, b: &Vec<char>) -> (r: bool)
    ensures
        r == (a@ == b@),
{
    if a.len() != b.len() {
        return false;
    }
    let mut i: usize = 0;
    while i < a.len()
        invariant
            a@.len() == b@.len(),
            i <= a@.len(),
            forall|j: int| 0 <= j < i ==> a@[j] == b@[j],
        decreases a@.len() - i,
    {
        if a[i] != b[i] {
            return false;
        }
        i = i + 1;
    }
    assert(a@ =~= b@);
    true
}

fn go_lookup(identifier: &String, bound_vars: &Vec<Vec<char>>) -> (r: ln::Expr)
    ensures
        r.deep_view() == resolve(ExprView::Lookup(identifier@), bound_vars.deep_view()),
{
    let name = chars_of(identifier.as_str());
    let ghost scope = bound_vars.deep_view();
    let mut k: usize = bound_vars.len();
    assert(scope.take(k as int) =~= scope);
    while k > 0
        invariant
            k <= bound_vars@.len(),
            scope == bound_vars.deep_view(),
            name@ == identifier@,
            distance_in(scope, identifier@) == match distance_in(scope.take(k as int), identifier@) {
                Some(d) => Some(d + (bound_vars@.len() - k) as nat),
                None => None::<nat>,
            },
        decreases k,
    {
        assert(scope.take(k as int).drop_last() =~= scope.take(k - 1));
        assert(bound_vars@[k - 1].deep_view() =~= bound_vars@[k - 1]@);
        assert(scope.take(k as int).last() == bound_vars@[k - 1]@);
        if same_chars(&bound_vars[k - 1], &name) {
            let d = bound_vars.len() - k;
            return ln::Expr::Lookup(ln::Lookup::Bound(ln::BoundVar::new(d)));
        }
        k = k - 1;
    }
    ln::Expr::Lookup(ln::Lookup::Free(ln::FreeVar::new(identifier.clone())))
}

fn go_literal(literal: &i64) -> (r: ln::Expr)
    ensures
        r.deep_view() == resolve(ExprView::LitInteger(*literal), seq![]),
{
    ln::Expr::LitInteger(*literal)
}

} // verus!
