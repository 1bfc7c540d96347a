//! Functions as an effect definition lists them.

use crate::ast::generic::TypeParam;
use crate::ast::generic::TypedIdent;
use crate::ast::ident::Ident;
use crate::ast::statement::Statement;
use crate::ast::types::Effect;
use vstd::prelude::*;

verus! {

/// Functions.
#[derive(Debug, PartialEq, Eq)]
pub struct Func {
    pub header: FuncHeader,
    pub body: Vec<Statement>,
}

#[derive(Debug, PartialEq, Eq)]
pub struct FuncHeader {
    pub name: Ident,
    pub type_params: Vec<TypeParam>,
    pub effect_params: Vec<TypeParam>,
    pub params: Vec<TypedIdent>,
    pub effects: Vec<Effect>,
}

} // verus!
