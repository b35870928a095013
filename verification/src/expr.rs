use crate::number::{is_notation, notation, write_number, Number};
use crate::token::{Token, TokenView};
use vstd::prelude::*;
use vstd::string::StringExecFns;

verus! {

/// An expression of the syntax tree. Every node owns its operands.
#[derive(Debug, PartialEq)]
pub enum Expr {
    Bool(bool),
    Number(Number),
    String(String),
    Nil,
    Grouping(Box<Expr>),
    Unary { operator: Token, right: Box<Expr> },
    Binary { left: Box<Expr>, operator: Token, right: Box<Expr> },
    Variable(Token),
    Assign(Token, Box<Expr>),
}

/// What an expression holds.
pub enum ExprView {
    Bool(bool),
    Number(Number),
    Text(Seq<char>),
    Nil,
    Grouping(Box<ExprView>),
    Unary { operator: TokenView, right: Box<ExprView> },
    Binary { left: Box<ExprView>, operator: TokenView, right: Box<ExprView> },
    Variable(TokenView),
    Assign(TokenView, Box<ExprView>),
}

impl Expr {
    /// The tree of views under this node.
    pub open spec fn model(&self) -> ExprView
        decreases self,
    {
        match self {
            Expr::Bool(b) => ExprView::Bool(*b),
            Expr::Number(n) => ExprView::Number(*n),
            Expr::String(s) => ExprView::Text(s@),
            Expr::Nil => ExprView::Nil,
            Expr::Grouping(inner) => ExprView::Grouping(Box::new(inner.model())),
            Expr::Unary { operator, right } => ExprView::Unary {
                operator: operator@,
                right: Box::new(right.model()),
            },
            Expr::Binary { left, operator, right } => ExprView::Binary {
                left: Box::new(left.model()),
                operator: operator@,
                right: Box::new(right.model()),
            },
            Expr::Variable(name) => ExprView::Variable(name@),
            Expr::Assign(name, value) => ExprView::Assign(name@, Box::new(value.model())),
        }
    }

    /// The number of nodes of the tree.
    pub open spec fn size(&self) -> nat
        decreases self,
    {
        match self {
            Expr::Grouping(inner) => 1 + inner.size(),
            Expr::Unary { operator, right } => 1 + right.size(),
            Expr::Binary { left, operator, right } => 1 + left.size() + right.size(),
            Expr::Assign(name, value) => 1 + value.size(),
            _ => 1,
        }
    }
}

impl View for Expr {
    type V = ExprView;

    open spec fn view(&self) -> ExprView {
        self.model()
    }
}

} // verus!

verus! {

/// The text of an expression: a literal as it prints, a name as it is
/// written, and every other node in parentheses, operator first.
pub open spec fn expr_text(nt: spec_fn(Number) -> Seq<char>, expr: ExprView) -> Seq<char>
    decreases expr,
{
    match expr {
        ExprView::Bool(b) => if b {
            "true"@
        } else {
            "false"@
        },
        ExprView::Number(n) => nt(n),
        ExprView::Text(s) => s,
        ExprView::Nil => "nil"@,
        ExprView::Grouping(inner) => "(group "@ + expr_text(nt, *inner) + ")"@,
        ExprView::Unary { operator, right } => "("@ + operator.lexeme + " "@ + expr_text(nt, *right)
            + ")"@,
        ExprView::Binary { left, operator, right } => "("@ + operator.lexeme + " "@ + expr_text(
            nt,
            *left,
        ) + " "@ + expr_text(nt, *right) + ")"@,
        ExprView::Variable(name) => name.lexeme,
        ExprView::Assign(name, value) => "(= "@ + name.lexeme + " "@ + expr_text(nt, *value) + ")"@,
    }
}

impl Expr {
    /// The text of the expression. `show` writes a number.
    pub fn to_text<S: Fn(Number) -> String>(&self, show: &S) -> (r: String)
        requires
            is_notation(show),
        ensures
            r@ == expr_text(notation(show), self@),
        decreases self,
    {
        match self {
            Expr::Bool(b) => if *b {
                "true".to_owned()
            } else {
                "false".to_owned()
            },
            Expr::Number(n) => write_number(show, *n),
            Expr::String(s) => s.clone(),
            Expr::Nil => "nil".to_owned(),
            Expr::Grouping(inner) => {
                let mut r = "(group ".to_owned();
                r.append(inner.to_text(show).as_str());
                r.append(")");
                r
            },
            Expr::Unary { operator, right } => {
                let mut r = "(".to_owned();
                r.append(operator.lexeme.as_str());
                r.append(" ");
                r.append(right.to_text(show).as_str());
                r.append(")");
                r
            },
            Expr::Binary { left, operator, right } => {
                let mut r = "(".to_owned();
                r.append(operator.lexeme.as_str());
                r.append(" ");
                r.append(left.to_text(show).as_str());
                r.append(" ");
                r.append(right.to_text(show).as_str());
                r.append(")");
                r
            },
            Expr::Variable(name) => name.lexeme.clone(),
            Expr::Assign(name, value) => {
                let mut r = "(= ".to_owned();
                r.append(name.lexeme.as_str());
                r.append(" ");
                r.append(value.to_text(show).as_str());
                r.append(")");
                r
            },
        }
    }
}

} // verus!
