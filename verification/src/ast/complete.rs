//! Complete trees: trees without a placeholder for something that could not
//! be parsed. A complete tree has no error node, no error item, no error
//! name and no error literal.

use crate::ast::expr::ConditionalView;
use crate::ast::expr::ExprView;
use crate::ast::generic::TypedIdentView;
use crate::ast::ident::Ident;
use crate::ast::item::FunctionHeaderView;
use crate::ast::item::ItemView;
use crate::ast::number::Integer;
use crate::ast::statement::StatementView;
use crate::ast::types::EffectView;
use crate::ast::types::TypeView;
use vstd::prelude::*;

verus! {

/// Whether each of the names is a name.
pub open spec fn names_complete(names: Seq<Ident>) -> bool {
    forall|i: int| 0 <= i < names.len() ==> (#[trigger] names[i]) is Ident
}

/// Whether each of the types is complete.
pub open spec fn types_complete(types: Seq<TypeView>) -> bool
    decreases types,
{
    forall|i: int| 0 <= i < types.len() ==> (#[trigger] types[i]).complete()
}

/// Whether each of the effects is complete.
pub open spec fn effects_complete(effects: Seq<EffectView>) -> bool
    decreases effects,
{
    forall|i: int| 0 <= i < effects.len() ==> (#[trigger] effects[i]).complete()
}

impl TypeView {
    pub open spec fn complete(self) -> bool
        decreases self,
    {
        match self {
            TypeView::Simple { name, args } => names_complete(name) && types_complete(args),
            TypeView::Continuation { args, ret, effects } => {
                &&& types_complete(args)
                &&& match ret {
                    Some(ret) => types_complete(ret),
                    None => true,
                }
                &&& effects_complete(effects)
            },
            TypeView::Closure { ret, effects } => types_complete(ret) && effects_complete(effects),
        }
    }
}

impl EffectView {
    pub open spec fn complete(self) -> bool
        decreases self,
    {
        &&& names_complete(self.name)
        &&& types_complete(self.args)
        &&& effects_complete(self.meta_effects)
    }
}

impl TypedIdentView {
    pub open spec fn complete(self) -> bool {
        self.name is Ident && self.ty.complete()
    }
}

/// Whether each of the parameters is complete.
pub open spec fn typed_idents_complete(params: Seq<TypedIdentView>) -> bool {
    forall|i: int| 0 <= i < params.len() ==> (#[trigger] params[i]).complete()
}

impl FunctionHeaderView {
    pub open spec fn complete(self) -> bool {
        &&& self.name is Ident
        &&& names_complete(self.type_params)
        &&& names_complete(self.effect_params)
        &&& typed_idents_complete(self.params)
        &&& effects_complete(self.effects)
        &&& match self.ret {
            Some(ret) => types_complete(ret),
            None => true,
        }
    }
}

/// Whether each of the expressions is complete.
pub open spec fn exprs_complete(exprs: Seq<ExprView>) -> bool
    decreases exprs,
{
    forall|i: int| 0 <= i < exprs.len() ==> (#[trigger] exprs[i]).complete()
}

/// Whether each of the statements is complete.
pub open spec fn statements_complete(stmts: Seq<StatementView>) -> bool
    decreases stmts,
{
    forall|i: int| 0 <= i < stmts.len() ==> (#[trigger] stmts[i]).complete()
}

/// Whether each of the items is complete.
pub open spec fn items_complete(items: Seq<ItemView>) -> bool
    decreases items,
{
    forall|i: int| 0 <= i < items.len() ==> (#[trigger] items[i]).complete()
}

/// Whether each of the cases is complete.
pub open spec fn cases_complete(cases: Seq<ConditionalView>) -> bool
    decreases cases,
{
    forall|i: int| 0 <= i < cases.len() ==> (#[trigger] cases[i]).complete()
}

impl ConditionalView {
    pub open spec fn complete(self) -> bool
        decreases self,
    {
        self.condition.complete() && statements_complete(self.then_body)
    }
}

impl ExprView {
    pub open spec fn complete(self) -> bool
        decreases self,
    {
        match self {
            ExprView::Ident(name) => names_complete(name),
            ExprView::Int(value) => value is Integer,
            ExprView::Return => true,
            ExprView::Continue => true,
            ExprView::Binary { op, operands } => exprs_complete(operands),
            ExprView::Member { recv, member } => recv.complete() && member is Ident,
            ExprView::Call { func, args } => func.complete() && exprs_complete(args),
            ExprView::BlockCall { func, args } => func.complete() && exprs_complete(args),
            ExprView::Closure { params, stmts } => typed_idents_complete(params)
                && statements_complete(stmts),
            ExprView::Conditional { cases, final_else } => cases_complete(cases)
                && statements_complete(final_else),
            ExprView::Handler { impl_effects, items } => effects_complete(impl_effects)
                && items_complete(items),
            ExprView::Do { stmts } => statements_complete(stmts),
            ExprView::DoWith { stmts, handler } => statements_complete(stmts) && handler.complete(),
            ExprView::Error { err_span } => false,
        }
    }
}

impl StatementView {
    pub open spec fn complete(self) -> bool
        decreases self,
    {
        match self {
            StatementView::Expr(expr) => expr.complete(),
            StatementView::BlockExpr(expr) => expr.complete(),
            StatementView::BlockEndExpr(expr) => expr.complete(),
            StatementView::Let { bindings, init } => typed_idents_complete(bindings)
                && init.complete(),
            StatementView::Continue { cont, args } => cont.complete() && exprs_complete(args),
        }
    }
}

impl ItemView {
    pub open spec fn complete(self) -> bool
        decreases self,
    {
        match self {
            ItemView::Function { header, body } => header.complete() && statements_complete(body),
            ItemView::AbstractFunction(header) => header.complete(),
            ItemView::Finally { stmts } => statements_complete(stmts),
            ItemView::Effect { name, type_params, effect_params, body } => {
                &&& name is Ident
                &&& names_complete(type_params)
                &&& names_complete(effect_params)
                &&& items_complete(body)
            },
            ItemView::Import { module } => names_complete(module),
            ItemView::Error { err_span } => false,
        }
    }
}

/// A list of complete trees stays one when a complete tree is put behind it.
pub proof fn lemma_names_complete_push(names: Seq<Ident>, name: Ident)
    requires
        names_complete(names),
        name is Ident,
    ensures
        names_complete(names.push(name)),
{
    assert forall|i: int| 0 <= i < names.push(name).len() implies (#[trigger] names.push(name)[i]) is Ident by {
        if i < names.len() {
            assert(names[i] is Ident);
        }
    }
}

/// A list of complete trees stays one when a complete tree is put behind it.
pub proof fn lemma_types_complete_push(list: Seq<TypeView>, last: TypeView)
    requires
        types_complete(list),
        last.complete(),
    ensures
        types_complete(list.push(last)),
{
    assert forall|i: int| 0 <= i < list.push(last).len() implies (#[trigger] list.push(last)[i]).complete() by {
        if i < list.len() {
            assert(list[i].complete());
        }
    }
}

/// A list of complete trees stays one when a complete tree is put behind it.
pub proof fn lemma_effects_complete_push(list: Seq<EffectView>, last: EffectView)
    requires
        effects_complete(list),
        last.complete(),
    ensures
        effects_complete(list.push(last)),
{
    assert forall|i: int| 0 <= i < list.push(last).len() implies (#[trigger] list.push(last)[i]).complete() by {
        if i < list.len() {
            assert(list[i].complete());
        }
    }
}

/// A list of complete trees stays one when a complete tree is put behind it.
pub proof fn lemma_exprs_complete_push(list: Seq<ExprView>, last: ExprView)
    requires
        exprs_complete(list),
        last.complete(),
    ensures
        exprs_complete(list.push(last)),
{
    assert forall|i: int| 0 <= i < list.push(last).len() implies (#[trigger] list.push(last)[i]).complete() by {
        if i < list.len() {
            assert(list[i].complete());
        }
    }
}

/// A list of complete trees stays one when a complete tree is put behind it.
pub proof fn lemma_statements_complete_push(list: Seq<StatementView>, last: StatementView)
    requires
        statements_complete(list),
        last.complete(),
    ensures
        statements_complete(list.push(last)),
{
    assert forall|i: int| 0 <= i < list.push(last).len() implies (#[trigger] list.push(last)[i]).complete() by {
        if i < list.len() {
            assert(list[i].complete());
        }
    }
}

/// A list of complete trees stays one when a complete tree is put behind it.
pub proof fn lemma_items_complete_push(list: Seq<ItemView>, last: ItemView)
    requires
        items_complete(list),
        last.complete(),
    ensures
        items_complete(list.push(last)),
{
    assert forall|i: int| 0 <= i < list.push(last).len() implies (#[trigger] list.push(last)[i]).complete() by {
        if i < list.len() {
            assert(list[i].complete());
        }
    }
}

/// A list of complete trees stays one when a complete tree is put behind it.
pub proof fn lemma_cases_complete_push(list: Seq<ConditionalView>, last: ConditionalView)
    requires
        cases_complete(list),
        last.complete(),
    ensures
        cases_complete(list.push(last)),
{
    assert forall|i: int| 0 <= i < list.push(last).len() implies (#[trigger] list.push(last)[i]).complete() by {
        if i < list.len() {
            assert(list[i].complete());
        }
    }
}

} // verus!
