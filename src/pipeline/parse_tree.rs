//! The tree that the grammar yields: names as written.
use vstd::prelude::*;

verus! {

#[derive(Debug, PartialEq)]
pub enum Stmt {
    Expr(Expr),
    Decl(Decl),
}

#[derive(Debug, PartialEq)]
pub struct Decl {
    pub identifier: String,
    pub expr: Expr,
}

#[derive(Debug, PartialEq)]
pub enum Expr {
    Lambda(Box<Lambda>),
    Apply(Box<Apply>),
    Lookup(String),
    LitInteger(i64),
}

#[derive(Debug, PartialEq)]
pub struct Lambda {
    pub param: String,
    pub body: Expr,
}

#[derive(Debug, PartialEq)]
pub struct Apply {
    pub function: Expr,
    pub argument: Expr,
}

/// A parse tree with its names as character sequences.
pub enum ExprView {
    Lambda(Seq<char>, Box<ExprView>),
    Apply(Box<ExprView>, Box<ExprView>),
    Lookup(Seq<char>),
    LitInteger(i64),
}

pub enum StmtView {
    Expr(ExprView),
    Decl(Seq<char>, ExprView),
}

impl DeepView for Expr {
    type V = ExprView;

    open spec fn deep_view(&self) -> ExprView
        decreases self,
    {
        match self {
            Expr::Lambda(l) => ExprView::Lambda(l.param@, Box::new(l.body.deep_view())),
            Expr::Apply(a) => ExprView::Apply(
                Box::new(a.function.deep_view()),
                Box::new(a.argument.deep_view()),
            ),
            Expr::Lookup(name) => ExprView::Lookup(name@),
            Expr::LitInteger(i) => ExprView::LitInteger(*i),
        }
    }
}

impl DeepView for Decl {
    type V = StmtView;

    open spec fn deep_view(&self) -> StmtView {
        StmtView::Decl(self.identifier@, self.expr.deep_view())
    }
}

impl DeepView for Stmt {
    type V = StmtView;

    open spec fn deep_view(&self) -> StmtView {
        match self {
            Stmt::Expr(e) => StmtView::Expr(e.deep_view()),
            Stmt::Decl(d) => d.deep_view(),
        }
    }
}

} // verus!
