//! A session: one global environment, preloaded with the built-ins, that statements
//! read and extend one at a time.
use vstd::prelude::*;

use crate::pipeline::evaluator::{eval, spec_eval, MAX_CALL_DEPTH};
use crate::pipeline::parse_to_locally_nameless::{resolve, transform_expr};
use crate::pipeline::parse_tree::{Stmt, StmtView};
use crate::pipeline::parser::{parse_stmt, statement_of};
use crate::pipeline::runtime::{display, FnView, Globals, RTFunction, RTValue, ValueView};

verus! {

/// The outcome of evaluating the expression of a statement, where it parses.
pub open spec fn statement_value(g: Globals, text: Seq<char>) -> Result<ValueView, Seq<char>> {
    match statement_of(text) {
        Err(err) => Err(err),
        Ok(StmtView::Expr(e)) => spec_eval(resolve(e, seq![]), seq![], g, MAX_CALL_DEPTH as nat),
        Ok(StmtView::Decl(_, e)) => spec_eval(resolve(e, seq![]), seq![], g, MAX_CALL_DEPTH as nat),
    }
}

/// What running the statement `text` reports: the printed value of an expression, nothing
/// for a declaration, or the message of the first error.
pub open spec fn statement_output(g: Globals, text: Seq<char>) -> Result<Option<Seq<char>>, Seq<char>> {
    match statement_value(g, text) {
        Err(err) => Err(err),
        Ok(v) => match statement_of(text) {
            Ok(StmtView::Decl(_, _)) => Ok(None),
            _ => Ok(Some(display(v))),
        },
    }
}

/// The name that the statement `text` declares, where it is a declaration.
pub open spec fn declared_name(text: Seq<char>) -> Option<Seq<char>> {
    match statement_of(text) {
        Ok(StmtView::Decl(name, _)) => Some(name),
        _ => None,
    }
}

pub struct Runner {
    pub globals: Globals,
}

impl Runner {
    /// A session whose globals hold `plus` (curried addition) and `repeatedly` (given a count
    /// and a function, the function that applies it that many times).
    pub fn new() -> (r: Self)
        ensures
            r.globals.spec_lookup("plus"@) == Some(ValueView::Function(FnView::Plus)),
            r.globals.spec_lookup("repeatedly"@) == Some(ValueView::Function(FnView::Repeatedly)),
            forall|name: Seq<char>|
                name != "plus"@ && name != "repeatedly"@ ==> #[trigger] r.globals.spec_lookup(name)
                    is None,
    {
        proof {
            reveal_strlit("plus");
            reveal_strlit("repeatedly");
            assert("plus"@.len() != "repeatedly"@.len());
        }
        let mut globals = Globals::new();
        globals.define("plus", RTValue::Function(RTFunction::Plus));
        globals.define("repeatedly", RTValue::Function(RTFunction::Repeatedly));
        Runner { globals }
    }

    /// Parses, resolves and evaluates one statement. A declaration binds its name to the
    /// value; an expression yields the value's printed form. On an error the globals stay
    /// as they were.
    pub fn run_stmt(&mut self, line: &str) -> (r: Result<Option<String>, String>)
        ensures
            match (r, statement_output(old(self).globals, line@)) {
                (Ok(Some(text)), Ok(Some(expected))) => text@ == expected,
                (Ok(None), Ok(None)) => true,
                (Err(err), Err(expected)) => err@ == expected,
                _ => false,
            },
            r is Ok && declared_name(line@) is Some ==> ({
                let name = declared_name(line@)->0;
                &&& final(self).globals.spec_lookup(name) == Some(
                    statement_value(old(self).globals, line@)->Ok_0,
                )
                &&& forall|other: Seq<char>|
                    other != name ==> #[trigger] final(self).globals.spec_lookup(other)
                        == old(self).globals.spec_lookup(other)
            }),
            !(r is Ok && declared_name(line@) is Some) ==> final(self).globals == old(self).globals,
    {
        let parsed = match parse_stmt(line) {
            Err(err) => return Err(err),
            Ok(stmt) => stmt,
        };
        match parsed {
            Stmt::Decl(decl) => {
                let runnable = transform_expr(&decl.expr);
                match eval(&runnable, &self.globals) {
                    Err(err) => Err(err),
                    Ok(value) => {
                        self.globals.define(decl.identifier.as_str(), value);
                        Ok(None)
                    },
                }
            },
            Stmt::Expr(expr) => {
                let runnable = transform_expr(&expr);
                match eval(&runnable, &self.globals) {
                    Err(err) => Err(err),
                    Ok(value) => Ok(Some(value.to_text())),
                }
            },
        }
    }
}

} // verus!
