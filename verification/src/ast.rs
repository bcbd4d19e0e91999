//! The syntax tree.

use vstd::prelude::*;
use crate::token::{Numeral, Token, TokenView};

verus! {

/// A value written out in the source.
#[derive(Debug, PartialEq)]
pub enum LiteralValue {
    Number(Numeral),
    String(String),
    Boolean(bool),
    Nil,
}

/// The model of a [`LiteralValue`].
pub enum LiteralView {
    Number(Seq<char>),
    String(Seq<char>),
    Boolean(bool),
    Nil,
}

impl View for LiteralValue {
    type V = LiteralView;

    open spec fn view(&self) -> LiteralView {
        match self {
            LiteralValue::Number(numeral) => LiteralView::Number(numeral@),
            LiteralValue::String(text) => LiteralView::String(text@),
            LiteralValue::Boolean(truth) => LiteralView::Boolean(*truth),
            LiteralValue::Nil => LiteralView::Nil,
        }
    }
}

impl Clone for LiteralValue {
    fn clone(&self) -> (r: Self)
        ensures
            r@ == self@,
    {
        match self {
            LiteralValue::Number(numeral) => LiteralValue::Number(numeral.clone()),
            LiteralValue::String(text) => LiteralValue::String(text.clone()),
            LiteralValue::Boolean(truth) => LiteralValue::Boolean(*truth),
            LiteralValue::Nil => LiteralValue::Nil,
        }
    }
}

/// A node of the syntax tree. A node owns its children.
///
/// The parser builds `Program`, `Binary`, `Grouping`, `Variable`, `Binding`,
/// `Literal` and `Empty`; the other shapes are kept for the language's
/// functions, conditionals and unary operators.
#[derive(Debug, PartialEq)]
pub enum Expr {
    Program { statements: Vec<Expr> },
    Binary { left: Box<Expr>, op: Token, right: Box<Expr> },
    Unary { op: Token, right: Box<Expr> },
    Grouping(Box<Expr>),
    Variable(String),
    Binding { name: String, expr: Box<Expr> },
    Literal(LiteralValue),
    FunctionDef { param: String, body: Box<Expr> },
    FunctionCall { func: Box<Expr>, arg: Box<Expr> },
    If { cond_expr: Box<Expr>, then_expr: Box<Expr>, else_expr: Box<Expr> },
    Empty,
}

/// The model of an [`Expr`].
pub enum ExprView {
    Program { statements: Seq<ExprView> },
    Binary { left: Box<ExprView>, op: TokenView, right: Box<ExprView> },
    Unary { op: TokenView, right: Box<ExprView> },
    Grouping(Box<ExprView>),
    Variable(Seq<char>),
    Binding { name: Seq<char>, expr: Box<ExprView> },
    Literal(LiteralView),
    FunctionDef { param: Seq<char>, body: Box<ExprView> },
    FunctionCall { func: Box<ExprView>, arg: Box<ExprView> },
    If { cond_expr: Box<ExprView>, then_expr: Box<ExprView>, else_expr: Box<ExprView> },
    Empty,
}

impl Expr {
    /// The model of this tree.
    pub open spec fn model(&self) -> ExprView
        decreases self,
    {
        match self {
            Expr::Program { statements } => ExprView::Program {
                statements: Seq::new(
                    statements@.len(),
                    |i: int|
                        if 0 <= i < statements@.len() {
                            statements@[i].model()
                        } else {
                            ExprView::Empty
                        },
                ),
            },
            Expr::Binary { left, op, right } => ExprView::Binary {
                left: Box::new(left.model()),
                op: op@,
                right: Box::new(right.model()),
            },
            Expr::Unary { op, right } => ExprView::Unary { op: op@, right: Box::new(right.model()) },
            Expr::Grouping(inner) => ExprView::Grouping(Box::new(inner.model())),
            Expr::Variable(name) => ExprView::Variable(name@),
            Expr::Binding { name, expr } => ExprView::Binding {
                name: name@,
                expr: Box::new(expr.model()),
            },
            Expr::Literal(value) => ExprView::Literal(value@),
            Expr::FunctionDef { param, body } => ExprView::FunctionDef {
                param: param@,
                body: Box::new(body.model()),
            },
            Expr::FunctionCall { func, arg } => ExprView::FunctionCall {
                func: Box::new(func.model()),
                arg: Box::new(arg.model()),
            },
            Expr::If { cond_expr, then_expr, else_expr } => ExprView::If {
                cond_expr: Box::new(cond_expr.model()),
                then_expr: Box::new(then_expr.model()),
                else_expr: Box::new(else_expr.model()),
            },
            Expr::Empty => ExprView::Empty,
        }
    }
}


impl View for Expr {
    type V = ExprView;

    open spec fn view(&self) -> ExprView {
        self.model()
    }
}

/// The models of the expressions of `exprs`, in order.
pub open spec fn expr_views(exprs: Seq<Expr>) -> Seq<ExprView> {
    Seq::new(exprs.len(), |i: int| exprs[i]@)
}

impl Clone for Expr {
    fn clone(&self) -> (r: Self)
        ensures
            r@ == self@,
        decreases self,
    {
        match self {
            Expr::Program { statements } => {
                let mut copies: Vec<Expr> = Vec::new();
                let mut i: usize = 0;
                while i < statements.len()
                    invariant
                        i <= statements.len(),
                        copies@.len() == i,
                        decreases_to!(self => statements),
                        forall|k: int| 0 <= k < i ==> (#[trigger] copies@[k])@ == statements@[k]@,
                    decreases statements.len() - i,
                {
                    assert(decreases_to!(*statements => statements[i as int]));
                    let copy = statements[i].clone();
                    copies.push(copy);
                    i = i + 1;
                }
                let r = Expr::Program { statements: copies };
                assert(r@ == self@) by {
                    assert(r@->statements =~= self@->statements);
                }
                r
            },
            Expr::Binary { left, op, right } => Expr::Binary {
                left: Box::new((**left).clone()),
                op: op.clone(),
                right: Box::new((**right).clone()),
            },
            Expr::Unary { op, right } => Expr::Unary {
                op: op.clone(),
                right: Box::new((**right).clone()),
            },
            Expr::Grouping(inner) => Expr::Grouping(Box::new((**inner).clone())),
            Expr::Variable(name) => Expr::Variable(name.clone()),
            Expr::Binding { name, expr } => Expr::Binding {
                name: name.clone(),
                expr: Box::new((**expr).clone()),
            },
            Expr::Literal(value) => Expr::Literal(value.clone()),
            Expr::FunctionDef { param, body } => Expr::FunctionDef {
                param: param.clone(),
                body: Box::new((**body).clone()),
            },
            Expr::FunctionCall { func, arg } => Expr::FunctionCall {
                func: Box::new((**func).clone()),
                arg: Box::new((**arg).clone()),
            },
            Expr::If { cond_expr, then_expr, else_expr } => Expr::If {
                cond_expr: Box::new((**cond_expr).clone()),
                then_expr: Box::new((**then_expr).clone()),
                else_expr: Box::new((**else_expr).clone()),
            },
            Expr::Empty => Expr::Empty,
        }
    }
}

} // verus!
