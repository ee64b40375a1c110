//! Call-by-value evaluation of resolved trees.
//!
//! Each call of a closure or of a repetition spends one unit of a depth budget; an
//! evaluation that would nest deeper than the budget fails instead.
use std::rc::Rc;
use vstd::prelude::*;
use vstd::string::StringExecFns;

use super::locally_nameless_tree::{size, Expr, Lookup, Term};
use super::runtime::{
    display, function_view, FnView, Globals, Locals, RTFunction, RTValue, ValueView,
};
use crate::parsers::internals::result_view;
use crate::text::{int_text, nat_text, string_of, text_of_i64, text_of_u64};

verus! {

/// How deeply calls may nest in one evaluation.
pub const MAX_CALL_DEPTH: u64 = 500;

pub open spec fn too_deep_message() -> Seq<char> {
    "Evaluation nested too deeply"@
}

pub open spec fn overflow_message() -> Seq<char> {
    "Integer overflow"@
}

/// What evaluating `e` gives, with `env` the local environment chain (innermost first),
/// `g` the global environment and `fuel` the calls that may still nest.
pub open spec fn spec_eval(e: Term, env: Seq<ValueView>, g: Globals, fuel: nat) -> Result<
    ValueView,
    Seq<char>,
>
    decreases fuel, size(e),
{
    match e {
        Term::LitInteger(n) => Ok(ValueView::Integer(n)),
        Term::Lambda(body) => Ok(ValueView::Function(FnView::Closure(*body, env))),
        Term::Bound(i) => if i < env.len() {
            Ok(env[i as int])
        } else {
            Err("Unbound local index "@ + nat_text(i))
        },
        Term::Free(name) => match g.spec_lookup(name) {
            Some(v) => Ok(v),
            None => Err("Unbound global "@ + name),
        },
        Term::Apply(f, a) => match spec_eval(*f, env, g, fuel) {
            Err(err) => Err(err),
            Ok(ValueView::Integer(i)) => Err("Cannot call number "@ + int_text(i as int) + " as a fn"@),
            Ok(ValueView::Function(fv)) => match spec_eval(*a, env, g, fuel) {
                Err(err) => Err(err),
                Ok(arg) => spec_call(fv, arg, g, fuel),
            },
        },
    }
}

/// What calling the function `f` on `arg` gives.
pub open spec fn spec_call(f: FnView, arg: ValueView, g: Globals, fuel: nat) -> Result<
    ValueView,
    Seq<char>,
>
    decreases fuel, 0nat,
{
    match f {
        FnView::Closure(body, env) => if fuel == 0 {
            Err(too_deep_message())
        } else {
            spec_eval(body, seq![arg] + env, g, (fuel - 1) as nat)
        },
        FnView::Plus => match arg {
            ValueView::Integer(i) => Ok(ValueView::Function(FnView::PlusWith(i))),
            other => Err("Expected number, got "@ + display(other)),
        },
        FnView::PlusWith(i) => match arg {
            ValueView::Integer(j) => if i64::MIN <= i + j <= i64::MAX {
                Ok(ValueView::Integer((i + j) as i64))
            } else {
                Err(overflow_message())
            },
            other => Err("Expected number, got "@ + display(other)),
        },
        FnView::Repeatedly => match arg {
            ValueView::Integer(n) => Ok(ValueView::Function(FnView::RepeatedlyTimes(n))),
            other => Err("Expected number, got "@ + display(other)),
        },
        FnView::RepeatedlyTimes(n) => match arg {
            ValueView::Function(h) => Ok(ValueView::Function(FnView::RepeatedlyApply(n, Box::new(h)))),
            other => Err("Expected function, got "@ + display(other)),
        },
        FnView::RepeatedlyApply(n, h) => if fuel == 0 {
            Err(too_deep_message())
        } else {
            spec_repeat(
                *h,
                if n > 0 {
                    n as nat
                } else {
                    0
                },
                arg,
                g,
                (fuel - 1) as nat,
            )
        },
    }
}

/// What calling `h` `k` times in turn gives, starting from `v`; the first failure stops it.
pub open spec fn spec_repeat(h: FnView, k: nat, v: ValueView, g: Globals, fuel: nat) -> Result<
    ValueView,
    Seq<char>,
>
    decreases fuel, k,
{
    if k == 0 {
        Ok(v)
    } else {
        match spec_call(h, v, g, fuel) {
            Ok(next) => spec_repeat(h, (k - 1) as nat, next, g, fuel),
            Err(err) => Err(err),
        }
    }
}

pub open spec fn shared_function_view(h: &Rc<RTFunction>) -> FnView {
    function_view(**h)
}

/// `prefix` followed by the printed form of `v`.
fn message_with_value(prefix: &str, v: &RTValue) -> (r: String)
    ensures
        r@ == prefix@ + display(v.deep_view()),
{
    let mut text = String::new();
    text.append(prefix);
    let shown = v.to_text();
    text.append(shown.as_str());
    text
}

/// Evaluates `expr` with no local frame and the whole depth budget.
pub fn eval(expr: &Expr, globals: &Globals) -> (r: Result<RTValue, String>)
    ensures
        result_view(r) == spec_eval(expr.deep_view(), Seq::empty(), *globals, MAX_CALL_DEPTH as nat),
{
    let locals = Locals::empty();
    eval_in(expr, globals, &locals, MAX_CALL_DEPTH)
}

/// Evaluates `expr` under `locals`, with `fuel` calls that may still nest.
pub fn eval_in(expr: &Expr, globals: &Globals, locals: &Locals, fuel: u64) -> (r: Result<
    RTValue,
    String,
>)
    ensures
        result_view(r) == spec_eval(expr.deep_view(), locals.deep_view(), *globals, fuel as nat),
    decreases fuel, size(expr.deep_view()),
{
    match expr {
        Expr::LitInteger(n) => Ok(RTValue::Integer(*n)),
        Expr::Lambda(lambda) => Ok(
            RTValue::Function(RTFunction::Closure(Rc::clone(lambda), locals.duplicate())),
        ),
        Expr::Lookup(Lookup::Bound(var)) => match locals.lookup(var.de_brujn_index) {
            Some(v) => Ok(v),
            None => {
                let mut text = String::new();
                text.append("Unbound local index ");
                let digits = text_of_u64(var.de_brujn_index as u64);
                let shown = string_of(digits.as_slice());
                text.append(shown.as_str());
                Err(text)
            },
        },
        Expr::Lookup(Lookup::Free(var)) => match globals.lookup(var.name.as_str()) {
            Some(v) => Ok(v),
            None => {
                let mut text = String::new();
                text.append("Unbound global ");
                text.append(var.name.as_str());
                Err(text)
            },
        },
        Expr::Apply(apply) => {
            let function = match eval_in(&apply.function, globals, locals, fuel) {
                Err(err) => return Err(err),
                Ok(v) => v,
            };
            match function {
                RTValue::Integer(i) => {
                    let mut text = String::new();
                    text.append("Cannot call number ");
                    let digits = text_of_i64(i);
                    let shown = string_of(digits.as_slice());
                    text.append(shown.as_str());
                    text.append(" as a fn");
                    Err(text)
                },
                RTValue::Function(f) => {
                    let argument = match eval_in(&apply.argument, globals, locals, fuel) {
                        Err(err) => return Err(err),
                        Ok(v) => v,
                    };
                    call(&f, argument, globals, fuel)
                },
            }
        },
    }
}

/// Calls `f` on `arg`, with `fuel` calls that may still nest.
pub fn call(f: &RTFunction, arg: RTValue, globals: &Globals, fuel: u64) -> (r: Result<
    RTValue,
    String,
>)
    ensures
        result_view(r) == spec_call(function_view(*f), arg.deep_view(), *globals, fuel as nat),
    decreases fuel, 0nat,
{
    match f {
        RTFunction::Closure(lambda, env) => {
            if fuel == 0 {
                let mut text = String::new();
                text.append("Evaluation nested too deeply");
                return Err(text);
            }
            let locals = env.bind_local(arg);
            eval_in(&lambda.body, globals, &locals, fuel - 1)
        },
        RTFunction::Plus => match arg {
            RTValue::Integer(i) => Ok(RTValue::Function(RTFunction::PlusWith(i))),
            other => Err(message_with_value("Expected number, got ", &other)),
        },
        RTFunction::PlusWith(i) => match arg {
            RTValue::Integer(j) => match i.checked_add(j) {
                Some(sum) => Ok(RTValue::Integer(sum)),
                None => {
                    let mut text = String::new();
                    text.append("Integer overflow");
                    Err(text)
                },
            },
            other => Err(message_with_value("Expected number, got ", &other)),
        },
        RTFunction::Repeatedly => match arg {
            RTValue::Integer(n) => Ok(RTValue::Function(RTFunction::RepeatedlyTimes(n))),
            other => Err(message_with_value("Expected number, got ", &other)),
        },
        RTFunction::RepeatedlyTimes(n) => match arg {
            RTValue::Function(h) => Ok(RTValue::Function(RTFunction::RepeatedlyApply(*n, Rc::new(h)))),
            other => Err(message_with_value("Expected function, got ", &other)),
        },
        RTFunction::RepeatedlyApply(n, h) => {
            if fuel == 0 {
                let mut text = String::new();
                text.append("Evaluation nested too deeply");
                return Err(text);
            }
            let count: u64 = if *n > 0 {
                *n as u64
            } else {
                0
            };
            let ghost hv = shared_function_view(h);
            let ghost target = spec_repeat(hv, count as nat, arg.deep_view(), *globals, (fuel - 1) as nat);
            let ghost arg_view = arg.deep_view();
            assert(target == spec_call(function_view(*f), arg_view, *globals, fuel as nat));
            let mut v = arg;
            let mut done: u64 = 0;
            while done < count
                invariant
                    fuel > 0,
                    done <= count,
                    target == spec_call(function_view(*f), arg_view, *globals, fuel as nat),
                    arg_view == arg.deep_view(),
                    hv == shared_function_view(h),
                    spec_repeat(hv, (count - done) as nat, v.deep_view(), *globals, (fuel - 1) as nat)
                        == target,
                decreases count - done,
            {
                match call(h, v, globals, fuel - 1) {
                    Ok(next) => {
                        v = next;
                    },
                    Err(err) => {
                        assert(spec_repeat(hv, (count - done) as nat, v.deep_view(), *globals, (fuel - 1) as nat) == result_view(Err::<RTValue, String>(err)));
                        return Err(err);
                    },
                }
                done = done + 1;
            }
            Ok(v)
        },
    }
}

} // verus!
