//! Parameters of functions and of generic items.

use crate::ast::ident::Ident;
use crate::ast::types::Type;
use crate::ast::types::TypeView;
use vstd::prelude::*;

verus! {

/// Type or effect parameter.
#[derive(Clone, Debug, PartialEq, Eq)]
pub struct TypeParam {
    pub name: Ident,
}

/// Function parameter.
#[derive(Debug, PartialEq, Eq)]
pub struct TypedIdent {
    pub name: Ident,
    pub ty: Type,
}

/// A function parameter as a mathematical value.
pub struct TypedIdentView {
    pub name: Ident,
    pub ty: TypeView,
}

impl View for TypedIdent {
    type V = TypedIdentView;

    open spec fn view(&self) -> TypedIdentView {
        TypedIdentView { name: self.name, ty: self.ty@ }
    }
}

/// The views of a list of parameters, in its order.
pub open spec fn typed_ident_views(params: Seq<TypedIdent>) -> Seq<TypedIdentView> {
    Seq::new(params.len(), |i: int| params[i]@)
}

/// The views of a list with one more element are the views of the list with
/// the view of that element behind them.
pub proof fn lemma_typed_ident_views_push(params: Seq<TypedIdent>, param: TypedIdent)
    ensures
        typed_ident_views(params.push(param)) == typed_ident_views(params).push(param@),
{
    assert(typed_ident_views(params.push(param)) =~= typed_ident_views(params).push(param@));
}

} // verus!
