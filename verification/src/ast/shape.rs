//! What every syntax tree of the parser satisfies: a qualified name has at
//! least one segment, a chain of operands has at least two operands, an
//! if-else ladder has at least one case, a call with a trailing block has at
//! least the block as an argument, and a statement is a block statement
//! exactly where its expression ends with a block.

use crate::ast::expr::ConditionalView;
use crate::ast::expr::ExprView;
use crate::ast::generic::TypedIdentView;
use crate::ast::item::FunctionHeaderView;
use crate::ast::item::ItemView;
use crate::ast::statement::StatementView;
use crate::ast::types::EffectView;
use crate::ast::types::TypeView;
use vstd::prelude::*;

verus! {

/// Whether each of the types is well formed.
pub open spec fn types_well_formed(types: Seq<TypeView>) -> bool
    decreases types,
{
    forall|i: int| 0 <= i < types.len() ==> (#[trigger] types[i]).well_formed()
}

/// Whether each of the effects is well formed.
pub open spec fn effects_well_formed(effects: Seq<EffectView>) -> bool
    decreases effects,
{
    forall|i: int| 0 <= i < effects.len() ==> (#[trigger] effects[i]).well_formed()
}

impl TypeView {
    pub open spec fn well_formed(self) -> bool
        decreases self,
    {
        match self {
            TypeView::Simple { name, args } => name.len() >= 1 && types_well_formed(args),
            TypeView::Continuation { args, ret, effects } => {
                &&& types_well_formed(args)
                &&& match ret {
                    Some(ret) => types_well_formed(ret),
                    None => true,
                }
                &&& effects_well_formed(effects)
            },
            TypeView::Closure { ret, effects } => types_well_formed(ret) && effects_well_formed(
                effects,
            ),
        }
    }
}

impl EffectView {
    pub open spec fn well_formed(self) -> bool
        decreases self,
    {
        &&& self.name.len() >= 1
        &&& types_well_formed(self.args)
        &&& effects_well_formed(self.meta_effects)
    }
}

impl TypedIdentView {
    pub open spec fn well_formed(self) -> bool {
        self.ty.well_formed()
    }
}

/// Whether each of the parameters is well formed.
pub open spec fn typed_idents_well_formed(params: Seq<TypedIdentView>) -> bool {
    forall|i: int| 0 <= i < params.len() ==> (#[trigger] params[i]).well_formed()
}

impl FunctionHeaderView {
    pub open spec fn well_formed(self) -> bool {
        &&& typed_idents_well_formed(self.params)
        &&& effects_well_formed(self.effects)
        &&& match self.ret {
            Some(ret) => types_well_formed(ret),
            None => true,
        }
    }
}

/// Whether each of the expressions is well formed.
pub open spec fn exprs_well_formed(exprs: Seq<ExprView>) -> bool
    decreases exprs,
{
    forall|i: int| 0 <= i < exprs.len() ==> (#[trigger] exprs[i]).well_formed()
}

/// Whether each of the statements is well formed.
pub open spec fn statements_well_formed(stmts: Seq<StatementView>) -> bool
    decreases stmts,
{
    forall|i: int| 0 <= i < stmts.len() ==> (#[trigger] stmts[i]).well_formed()
}

/// Whether each of the items is well formed.
pub open spec fn items_well_formed(items: Seq<ItemView>) -> bool
    decreases items,
{
    forall|i: int| 0 <= i < items.len() ==> (#[trigger] items[i]).well_formed()
}

/// Whether each of the cases is well formed.
pub open spec fn cases_well_formed(cases: Seq<ConditionalView>) -> bool
    decreases cases,
{
    forall|i: int| 0 <= i < cases.len() ==> (#[trigger] cases[i]).well_formed()
}

impl ConditionalView {
    pub open spec fn well_formed(self) -> bool
        decreases self,
    {
        self.condition.well_formed() && statements_well_formed(self.then_body)
    }
}

impl ExprView {
    pub open spec fn well_formed(self) -> bool
        decreases self,
    {
        match self {
            ExprView::Ident(name) => name.len() >= 1,
            ExprView::Int(_) => true,
            ExprView::Return => true,
            ExprView::Continue => true,
            ExprView::Binary { op, operands } => operands.len() >= 2 && exprs_well_formed(operands),
            ExprView::Member { recv, member } => recv.well_formed(),
            ExprView::Call { func, args } => func.well_formed() && exprs_well_formed(args),
            ExprView::BlockCall { func, args } => {
                &&& func.well_formed()
                &&& args.len() >= 1
                &&& exprs_well_formed(args)
            },
            ExprView::Closure { params, stmts } => typed_idents_well_formed(params)
                && statements_well_formed(stmts),
            ExprView::Conditional { cases, final_else } => {
                &&& cases.len() >= 1
                &&& cases_well_formed(cases)
                &&& statements_well_formed(final_else)
            },
            ExprView::Handler { impl_effects, items } => effects_well_formed(impl_effects)
                && items_well_formed(items),
            ExprView::Do { stmts } => statements_well_formed(stmts),
            ExprView::DoWith { stmts, handler } => statements_well_formed(stmts)
                && handler.well_formed(),
            ExprView::Error { err_span } => true,
        }
    }
}

impl StatementView {
    pub open spec fn well_formed(self) -> bool
        decreases self,
    {
        match self {
            StatementView::Expr(expr) => expr.well_formed() && !expr.is_block(),
            StatementView::BlockExpr(expr) => expr.well_formed() && expr.is_block(),
            StatementView::BlockEndExpr(expr) => expr.well_formed() && !expr.is_block(),
            StatementView::Let { bindings, init } => typed_idents_well_formed(bindings)
                && init.well_formed(),
            StatementView::Continue { cont, args } => cont.well_formed() && exprs_well_formed(args),
        }
    }
}

impl ItemView {
    pub open spec fn well_formed(self) -> bool
        decreases self,
    {
        match self {
            ItemView::Function { header, body } => header.well_formed() && statements_well_formed(
                body,
            ),
            ItemView::AbstractFunction(header) => header.well_formed(),
            ItemView::Finally { stmts } => statements_well_formed(stmts),
            ItemView::Effect { name, type_params, effect_params, body } => items_well_formed(body),
            ItemView::Import { module } => module.len() >= 1,
            ItemView::Error { err_span } => true,
        }
    }
}

} // verus!
