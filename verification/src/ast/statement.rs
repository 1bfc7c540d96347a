//! Statements.

use crate::ast::expr::Expr;
use crate::ast::expr::ExprView;
use crate::ast::generic::TypedIdent;
use crate::ast::generic::TypedIdentView;
use vstd::prelude::*;

verus! {

/// Statements in a closure
#[derive(Debug, PartialEq, Eq)]
pub enum Statement {
    /// An expression statement
    Expr(Expr),
    /// A block expression statement
    BlockExpr(Expr),
    /// An expression that ends a block (i.e. without a trailing semicolon).
    BlockEndExpr(Expr),
    /// A let statement.
    Let { bindings: Vec<TypedIdent>, init: Expr },
    /// An invocation of a continuation.
    Continue { cont: Expr, args: Vec<Expr> },
}

/// A statement as a mathematical value.
pub enum StatementView {
    Expr(ExprView),
    BlockExpr(ExprView),
    BlockEndExpr(ExprView),
    Let { bindings: Seq<TypedIdentView>, init: ExprView },
    Continue { cont: ExprView, args: Seq<ExprView> },
}

} // verus!
