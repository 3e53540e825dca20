//! The expression tree, the traversal contract shared by its consumers,
//! and the diagnostic printer that renders a tree as a fully
//! parenthesized string.
use vstd::prelude::*;
use vstd::string::*;

use crate::scanner::Token;
use crate::scanner::TokenS;

verus! {

/// An expression: the closed set of node variants the parser builds.
/// Each node owns its children; consumers only traverse.
#[derive(Debug)]
pub enum Expression {
    Binary { l_expr: Box<Expression>, operator: Token, r_expr: Box<Expression> },
    Grouping { expr: Box<Expression> },
    Literal { token: Token },
    Unary { operator: Token, r_expr: Box<Expression> },
}

/// Mathematical model of an expression tree.
pub enum ExprS {
    Binary { l_expr: Box<ExprS>, operator: TokenS, r_expr: Box<ExprS> },
    Grouping { expr: Box<ExprS> },
    Literal { token: TokenS },
    Unary { operator: TokenS, r_expr: Box<ExprS> },
}

/// The model of an expression tree: the same shape over token models.
pub open spec fn expr_view(e: Expression) -> ExprS
    decreases e,
{
    match e {
        Expression::Binary { l_expr, operator, r_expr } => ExprS::Binary {
            l_expr: Box::new(expr_view(*l_expr)),
            operator: operator@,
            r_expr: Box::new(expr_view(*r_expr)),
        },
        Expression::Grouping { expr } => ExprS::Grouping { expr: Box::new(expr_view(*expr)) },
        Expression::Literal { token } => ExprS::Literal { token: token@ },
        Expression::Unary { operator, r_expr } => ExprS::Unary {
            operator: operator@,
            r_expr: Box::new(expr_view(*r_expr)),
        },
    }
}

impl View for Expression {
    type V = ExprS;

    open spec fn view(&self) -> ExprS {
        expr_view(*self)
    }
}

/// The one-method traversal contract shared by the expression consumers.
pub trait Visitor {
    type E;

    fn visit_expresssion(&self, expr: &Expression) -> Self::E;
}

/// The fully parenthesized rendering of an expression tree: each node as
/// `(<variant> <operator lexeme> <children>)`, a literal by its lexeme.
pub open spec fn render_text(e: ExprS) -> Seq<char>
    decreases e,
{
    match e {
        ExprS::Binary { l_expr, operator, r_expr } => "(Binary "@ + operator.lexeme + " "@
            + render_text(*l_expr) + " "@ + render_text(*r_expr) + ")"@,
        ExprS::Grouping { expr } => "(Grouping "@ + render_text(*expr) + ")"@,
        ExprS::Literal { token } => "(Literal "@ + token.lexeme + ")"@,
        ExprS::Unary { operator, r_expr } => "(Unary "@ + operator.lexeme + " "@ + render_text(
            *r_expr,
        ) + ")"@,
    }
}

/// Renders one node and its children, exactly as `render_text` says.
fn render(e: &Expression) -> (s: String)
    ensures
        s@ == render_text(e@),
    decreases e,
{
    match e {
        Expression::Binary { l_expr, operator, r_expr } => {
            let mut s = String::from_str("(Binary ");
            s.append(operator.lexeme.as_str());
            s.append(" ");
            let ls = render(&**l_expr);
            s.append(ls.as_str());
            s.append(" ");
            let rs = render(&**r_expr);
            s.append(rs.as_str());
            s.append(")");
            s
        },
        Expression::Grouping { expr } => {
            let mut s = String::from_str("(Grouping ");
            let is = render(&**expr);
            s.append(is.as_str());
            s.append(")");
            s
        },
        Expression::Literal { token } => {
            let mut s = String::from_str("(Literal ");
            s.append(token.lexeme.as_str());
            s.append(")");
            s
        },
        Expression::Unary { operator, r_expr } => {
            let mut s = String::from_str("(Unary ");
            s.append(operator.lexeme.as_str());
            s.append(" ");
            let rs = render(&**r_expr);
            s.append(rs.as_str());
            s.append(")");
            s
        },
    }
}

/// The diagnostic printer: renders a tree, never fails.
pub struct AstPrinter;

impl AstPrinter {
    /// Renders the whole tree as its parenthesized debug string.
    pub fn print(&self, expr: &Expression) -> (s: String)
        ensures
            s@ == render_text(expr@),
    {
        render(expr)
    }
}

impl Visitor for AstPrinter {
    type E = String;

    fn visit_expresssion(&self, expr: &Expression) -> (s: Self::E)
        ensures
            s@ == render_text(expr@),
    {
        render(expr)
    }
}

} // verus!
