//! Expressions.

use crate::ast::generic::typed_ident_views;
use crate::ast::generic::TypedIdent;
use crate::ast::generic::TypedIdentView;
use crate::ast::ident::Ident;
use crate::ast::ident::QualifiedIdent;
use crate::ast::item::Item;
use crate::ast::item::ItemView;
use crate::ast::number::Integer;
use crate::ast::statement::Statement;
use crate::ast::statement::StatementView;
use crate::ast::types::effect_views;
use crate::ast::types::Effect;
use crate::ast::types::EffectView;
use crate::span::Span;
use crate::token::TokenKind;
use vstd::prelude::*;

verus! {

/// A single case in an if-else ladder.
#[derive(Debug, PartialEq, Eq)]
pub struct Conditional {
    pub condition: Expr,
    pub then_body: Vec<Statement>,
}

/// Expressions.
#[derive(Debug, PartialEq, Eq)]
pub enum Expr {
    /// (Potentially) qualified identifier.
    Ident(QualifiedIdent),
    /// Simple integer literal.
    Int(Integer),
    /// The escape continuation for functions.
    Return,
    /// The implicit continuation (return for closures).
    Continue,
    /// A binary expression of a single operator
    Binary { op: Operator, operands: Vec<Expr> },
    /// Member access.
    Member { recv: Box<Expr>, member: Ident },
    /// Function call.
    Call {
        /// The function expression.
        func: Box<Expr>,
        /// The arguments to the function.
        args: Vec<Expr>,
    },
    /// Block-based function call.
    BlockCall { func: Box<Expr>, args: Vec<Expr> },
    /// Closure block, with or without parameters.
    Closure { params: Vec<TypedIdent>, stmts: Vec<Statement> },
    /// If-else ladder.
    Conditional {
        cases: Vec<Conditional>,
        /// may be empty
        final_else: Vec<Statement>,
    },
    Handler { impl_effects: Vec<Effect>, items: Vec<Item> },
    Do { stmts: Vec<Statement> },
    DoWith { stmts: Vec<Statement>, handler: Box<Expr> },
    /// Error node.
    Error { err_span: Span },
}

/// One case of an if-else ladder as a mathematical value.
pub struct ConditionalView {
    pub condition: ExprView,
    pub then_body: Seq<StatementView>,
}

/// An expression as a mathematical value.
pub enum ExprView {
    Ident(Seq<Ident>),
    Int(Integer),
    Return,
    Continue,
    Binary { op: Operator, operands: Seq<ExprView> },
    Member { recv: Box<ExprView>, member: Ident },
    Call { func: Box<ExprView>, args: Seq<ExprView> },
    BlockCall { func: Box<ExprView>, args: Seq<ExprView> },
    Closure { params: Seq<TypedIdentView>, stmts: Seq<StatementView> },
    Conditional { cases: Seq<ConditionalView>, final_else: Seq<StatementView> },
    Handler { impl_effects: Seq<EffectView>, items: Seq<ItemView> },
    Do { stmts: Seq<StatementView> },
    DoWith { stmts: Seq<StatementView>, handler: Box<ExprView> },
    Error { err_span: Span },
}

impl ExprView {
    /// Whether the expression ends with a block.
    pub open spec fn is_block(self) -> bool
        decreases self,
    {
        match self {
            ExprView::BlockCall { .. } => true,
            ExprView::Conditional { .. } => true,
            ExprView::Closure { .. } => true,
            ExprView::Handler { .. } => true,
            ExprView::Do { .. } => true,
            ExprView::DoWith { handler, .. } => handler.is_block(),
            _ => false,
        }
    }
}

/// The views of a list of expressions, in its order.
pub open spec fn expr_views(exprs: Seq<Expr>) -> Seq<ExprView>
    decreases exprs,
{
    Seq::new(
        exprs.len(),
        |i: int|
            if 0 <= i < exprs.len() {
                exprs[i].view()
            } else {
                arbitrary()
            },
    )
}

/// The views of a list of statements, in its order.
pub open spec fn statement_views(stmts: Seq<Statement>) -> Seq<StatementView>
    decreases stmts,
{
    Seq::new(
        stmts.len(),
        |i: int|
            if 0 <= i < stmts.len() {
                stmts[i].view()
            } else {
                arbitrary()
            },
    )
}

/// The views of a list of items, in its order.
pub open spec fn item_views(items: Seq<Item>) -> Seq<ItemView>
    decreases items,
{
    Seq::new(
        items.len(),
        |i: int|
            if 0 <= i < items.len() {
                items[i].view()
            } else {
                arbitrary()
            },
    )
}

/// The views of the cases of a ladder, in their order.
pub open spec fn conditional_views(cases: Seq<Conditional>) -> Seq<ConditionalView>
    decreases cases,
{
    Seq::new(
        cases.len(),
        |i: int|
            if 0 <= i < cases.len() {
                cases[i].view()
            } else {
                arbitrary()
            },
    )
}

impl Conditional {
    pub open spec fn view(&self) -> ConditionalView
        decreases self,
    {
        ConditionalView {
            condition: self.condition.view(),
            then_body: statement_views(self.then_body@),
        }
    }
}

impl Expr {
    pub open spec fn view(&self) -> ExprView
        decreases self,
    {
        match self {
            Expr::Ident(name) => ExprView::Ident(name@),
            Expr::Int(value) => ExprView::Int(*value),
            Expr::Return => ExprView::Return,
            Expr::Continue => ExprView::Continue,
            Expr::Binary { op, operands } => ExprView::Binary {
                op: *op,
                operands: expr_views(operands@),
            },
            Expr::Member { recv, member } => ExprView::Member {
                recv: Box::new(recv.view()),
                member: *member,
            },
            Expr::Call { func, args } => ExprView::Call {
                func: Box::new(func.view()),
                args: expr_views(args@),
            },
            Expr::BlockCall { func, args } => ExprView::BlockCall {
                func: Box::new(func.view()),
                args: expr_views(args@),
            },
            Expr::Closure { params, stmts } => ExprView::Closure {
                params: typed_ident_views(params@),
                stmts: statement_views(stmts@),
            },
            Expr::Conditional { cases, final_else } => ExprView::Conditional {
                cases: conditional_views(cases@),
                final_else: statement_views(final_else@),
            },
            Expr::Handler { impl_effects, items } => ExprView::Handler {
                impl_effects: effect_views(impl_effects@),
                items: item_views(items@),
            },
            Expr::Do { stmts } => ExprView::Do { stmts: statement_views(stmts@) },
            Expr::DoWith { stmts, handler } => ExprView::DoWith {
                stmts: statement_views(stmts@),
                handler: Box::new(handler.view()),
            },
            Expr::Error { err_span } => ExprView::Error { err_span: *err_span },
        }
    }

    /// Determines whether this expression ends with a block.
    pub fn is_block_expr(&self) -> (b: bool)
        ensures
            b == self@.is_block(),
        decreases self,
    {
        match self {
            Expr::BlockCall { .. } => true,
            Expr::Conditional { .. } => true,
            Expr::Closure { .. } => true,
            Expr::Handler { .. } => true,
            Expr::Do { .. } => true,
            Expr::DoWith { handler, .. } => handler.is_block_expr(),
            _ => false,
        }
    }
}

impl Statement {
    pub open spec fn view(&self) -> StatementView
        decreases self,
    {
        match self {
            Statement::Expr(expr) => StatementView::Expr(expr.view()),
            Statement::BlockExpr(expr) => StatementView::BlockExpr(expr.view()),
            Statement::BlockEndExpr(expr) => StatementView::BlockEndExpr(expr.view()),
            Statement::Let { bindings, init } => StatementView::Let {
                bindings: typed_ident_views(bindings@),
                init: init.view(),
            },
            Statement::Continue { cont, args } => StatementView::Continue {
                cont: cont.view(),
                args: expr_views(args@),
            },
        }
    }
}

impl Item {
    pub open spec fn view(&self) -> ItemView
        decreases self,
    {
        match self {
            Item::Function(function) => ItemView::Function {
                header: function.header@,
                body: statement_views(function.body@),
            },
            Item::AbstractFunction(header) => ItemView::AbstractFunction(header@),
            Item::Finally { stmts } => ItemView::Finally { stmts: statement_views(stmts@) },
            Item::Effect { name, type_params, effect_params, body } => ItemView::Effect {
                name: *name,
                type_params: type_params@,
                effect_params: effect_params@,
                body: item_views(body@),
            },
            Item::Import { module } => ItemView::Import { module: module@ },
            Item::Error { err_span } => ItemView::Error { err_span: *err_span },
        }
    }
}

/// The views of a list with one more element are the views of the list with
/// the view of that element behind them.
pub proof fn lemma_expr_views_push(exprs: Seq<Expr>, expr: Expr)
    ensures
        expr_views(exprs.push(expr)) == expr_views(exprs).push(expr.view()),
{
    assert(expr_views(exprs.push(expr)) =~= expr_views(exprs).push(expr.view()));
}

pub proof fn lemma_statement_views_push(stmts: Seq<Statement>, stmt: Statement)
    ensures
        statement_views(stmts.push(stmt)) == statement_views(stmts).push(stmt.view()),
{
    assert(statement_views(stmts.push(stmt)) =~= statement_views(stmts).push(stmt.view()));
}

pub proof fn lemma_item_views_push(items: Seq<Item>, item: Item)
    ensures
        item_views(items.push(item)) == item_views(items).push(item.view()),
{
    assert(item_views(items.push(item)) =~= item_views(items).push(item.view()));
}

pub proof fn lemma_conditional_views_push(cases: Seq<Conditional>, case: Conditional)
    ensures
        conditional_views(cases.push(case)) == conditional_views(cases).push(case.view()),
{
    assert(conditional_views(cases.push(case)) =~= conditional_views(cases).push(case.view()));
}

/// Binary operator.
#[derive(Copy, Clone, Debug, PartialEq, Eq, Structural)]
pub enum Operator {
    Add,
    Sub,
    Mul,
    Div,
    Rem,
    Eq,
    NotEq,
    Gt,
    Ge,
    Lt,
    Le,
}

#[derive(Clone, Copy, Debug, PartialEq, Eq, Structural)]
pub struct UnexpectedError;

impl Operator {
    /// The operator that a token kind spells, if it spells one.
    pub open spec fn of_token(kind: TokenKind) -> Option<Operator> {
        match kind {
            TokenKind::Plus => Some(Operator::Add),
            TokenKind::Minus => Some(Operator::Sub),
            TokenKind::Star => Some(Operator::Mul),
            TokenKind::Slash => Some(Operator::Div),
            TokenKind::Percent => Some(Operator::Rem),
            TokenKind::DoubleEquals => Some(Operator::Eq),
            TokenKind::ExclaimEquals => Some(Operator::NotEq),
            TokenKind::Gt => Some(Operator::Gt),
            TokenKind::GtEquals => Some(Operator::Ge),
            TokenKind::Lt => Some(Operator::Lt),
            TokenKind::LtEquals => Some(Operator::Le),
            _ => None,
        }
    }

    pub fn try_from(value: TokenKind) -> (r: Result<Operator, UnexpectedError>)
        ensures
            r == match Operator::of_token(value) {
                Some(op) => Ok::<Operator, UnexpectedError>(op),
                None => Err::<Operator, UnexpectedError>(UnexpectedError),
            },
    {
        match value {
            TokenKind::Plus => Ok(Operator::Add),
            TokenKind::Minus => Ok(Operator::Sub),
            TokenKind::Star => Ok(Operator::Mul),
            TokenKind::Slash => Ok(Operator::Div),
            TokenKind::Percent => Ok(Operator::Rem),
            TokenKind::DoubleEquals => Ok(Operator::Eq),
            TokenKind::ExclaimEquals => Ok(Operator::NotEq),
            TokenKind::Gt => Ok(Operator::Gt),
            TokenKind::GtEquals => Ok(Operator::Ge),
            TokenKind::Lt => Ok(Operator::Lt),
            TokenKind::LtEquals => Ok(Operator::Le),
            _ => Err(UnexpectedError),
        }
    }
}

} // verus!
