//! Items: what stands at the top level of a file or inside an effect or a
//! handler.

use crate::ast::generic::typed_ident_views;
use crate::ast::generic::TypedIdent;
use crate::ast::generic::TypedIdentView;
use crate::ast::ident::Ident;
use crate::ast::ident::QualifiedIdent;
use crate::ast::statement::Statement;
use crate::ast::statement::StatementView;
use crate::ast::types::effect_views;
use crate::ast::types::type_views;
use crate::ast::types::Effect;
use crate::ast::types::EffectView;
use crate::ast::types::Type;
use crate::ast::types::TypeView;
use crate::span::Span;
use vstd::prelude::*;

verus! {

/// A concrete function.
#[derive(Debug, PartialEq, Eq)]
pub struct Function {
    pub header: FunctionHeader,
    pub body: Vec<Statement>,
}

/// Function header, everything except the body.
#[derive(Debug, PartialEq, Eq)]
pub struct FunctionHeader {
    pub name: Ident,
    pub type_params: Vec<Ident>,
    pub effect_params: Vec<Ident>,
    pub params: Vec<TypedIdent>,
    pub effects: Vec<Effect>,
    pub ret: Option<Vec<Type>>,
}

/// An item in the global or a namespace scope.
#[derive(Debug, PartialEq, Eq)]
pub enum Item {
    Function(Function),
    AbstractFunction(FunctionHeader),
    Finally { stmts: Vec<Statement> },
    Effect { name: Ident, type_params: Vec<Ident>, effect_params: Vec<Ident>, body: Vec<Item> },
    Import { module: QualifiedIdent },
    Error { err_span: Span },
}

/// A function header as a mathematical value.
pub struct FunctionHeaderView {
    pub name: Ident,
    pub type_params: Seq<Ident>,
    pub effect_params: Seq<Ident>,
    pub params: Seq<TypedIdentView>,
    pub effects: Seq<EffectView>,
    pub ret: Option<Seq<TypeView>>,
}

/// An item as a mathematical value.
pub enum ItemView {
    Function { header: FunctionHeaderView, body: Seq<StatementView> },
    AbstractFunction(FunctionHeaderView),
    Finally { stmts: Seq<StatementView> },
    Effect { name: Ident, type_params: Seq<Ident>, effect_params: Seq<Ident>, body: Seq<ItemView> },
    Import { module: Seq<Ident> },
    Error { err_span: Span },
}

impl View for FunctionHeader {
    type V = FunctionHeaderView;

    open spec fn view(&self) -> FunctionHeaderView {
        FunctionHeaderView {
            name: self.name,
            type_params: self.type_params@,
            effect_params: self.effect_params@,
            params: typed_ident_views(self.params@),
            effects: effect_views(self.effects@),
            ret: match self.ret {
                Some(ret) => Some(type_views(ret@)),
                None => None,
            },
        }
    }
}

} // verus!
