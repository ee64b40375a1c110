//! The resolved tree: bound names by distance to their lambda, free names as written.
use std::rc::Rc;
use vstd::prelude::*;

verus! {

#[derive(Debug, PartialEq)]
pub enum Expr {
    Lambda(Rc<Lambda>),
    Apply(Box<Apply>),
    Lookup(Lookup),
    LitInteger(i64),
}

/// A lambda; its parameter is known only by the distances of the lookups that reach it.
#[derive(Debug, PartialEq)]
pub struct Lambda {
    pub body: Expr,
}

impl Lambda {
    pub fn new(body: Expr) -> (r: Self)
        ensures
            r.body == body,
    {
        Lambda { body }
    }
}

#[derive(Debug, PartialEq)]
pub struct Apply {
    pub function: Expr,
    pub argument: Expr,
}

impl Apply {
    pub fn new(function: Expr, argument: Expr) -> (r: Self)
        ensures
            r.function == function,
            r.argument == argument,
    {
        Apply { function, argument }
    }
}

#[derive(Debug, PartialEq)]
pub enum Lookup {
    Free(FreeVar),
    Bound(BoundVar),
}

#[derive(Debug, PartialEq)]
pub struct FreeVar {
    pub name: String,
}

impl FreeVar {
    pub fn new(name: String) -> (r: Self)
        ensures
            r.name == name,
    {
        FreeVar { name }
    }
}

#[derive(Debug, PartialEq)]
pub struct BoundVar {
    pub de_brujn_index: usize,
}

impl BoundVar {
    pub fn new(de_brujn_index: usize) -> (r: Self)
        ensures
            r.de_brujn_index == de_brujn_index,
    {
        BoundVar { de_brujn_index }
    }
}

/// A resolved tree with its free names as character sequences.
pub enum Term {
    Lambda(Box<Term>),
    Apply(Box<Term>, Box<Term>),
    Free(Seq<char>),
    Bound(nat),
    LitInteger(i64),
}

impl DeepView for Expr {
    type V = Term;

    open spec fn deep_view(&self) -> Term
        decreases self,
    {
        match self {
            Expr::Lambda(l) => Term::Lambda(Box::new(l.body.deep_view())),
            Expr::Apply(a) => Term::Apply(
                Box::new(a.function.deep_view()),
                Box::new(a.argument.deep_view()),
            ),
            Expr::Lookup(Lookup::Free(v)) => Term::Free(v.name@),
            Expr::Lookup(Lookup::Bound(v)) => Term::Bound(v.de_brujn_index as nat),
            Expr::LitInteger(i) => Term::LitInteger(*i),
        }
    }
}

/// The number of nodes of a term.
pub open spec fn size(t: Term) -> nat
    decreases t,
{
    match t {
        Term::Lambda(body) => 1 + size(*body),
        Term::Apply(f, a) => 1 + size(*f) + size(*a),
        _ => 1,
    }
}

} // verus!
