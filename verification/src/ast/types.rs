//! Types and effects as they are written in source code.

use crate::ast::ident::Ident;
use crate::ast::ident::QualifiedIdent;
use vstd::prelude::*;

verus! {

/// A type in the AST.
#[derive(Debug, PartialEq, Eq)]
pub enum Type {
    /// A named (possibly generic) type.
    Simple { name: QualifiedIdent, args: Vec<Type> },
    /// A continuation type.
    Continuation { args: Vec<Type>, ret: Option<Vec<Type>>, effects: Vec<Effect> },
    /// A closure type.
    Closure { ret: Vec<Type>, effects: Vec<Effect> },
}

/// An effect in the AST.
#[derive(Debug, PartialEq, Eq)]
pub struct Effect {
    pub name: QualifiedIdent,
    pub args: Vec<Type>,
    pub meta_effects: Vec<Effect>,
}

/// A type as a mathematical value.
pub enum TypeView {
    Simple { name: Seq<Ident>, args: Seq<TypeView> },
    Continuation { args: Seq<TypeView>, ret: Option<Seq<TypeView>>, effects: Seq<EffectView> },
    Closure { ret: Seq<TypeView>, effects: Seq<EffectView> },
}

/// An effect as a mathematical value.
pub struct EffectView {
    pub name: Seq<Ident>,
    pub args: Seq<TypeView>,
    pub meta_effects: Seq<EffectView>,
}

/// The views of a list of types, in its order.
pub open spec fn type_views(types: Seq<Type>) -> Seq<TypeView>
    decreases types,
{
    Seq::new(
        types.len(),
        |i: int|
            if 0 <= i < types.len() {
                types[i].view()
            } else {
                arbitrary()
            },
    )
}

/// The views of a list of effects, in its order.
pub open spec fn effect_views(effects: Seq<Effect>) -> Seq<EffectView>
    decreases effects,
{
    Seq::new(
        effects.len(),
        |i: int|
            if 0 <= i < effects.len() {
                effects[i].view()
            } else {
                arbitrary()
            },
    )
}

impl Type {
    pub open spec fn view(&self) -> TypeView
        decreases self,
    {
        match self {
            Type::Simple { name, args } => TypeView::Simple { name: name@, args: type_views(args@) },
            Type::Continuation { args, ret, effects } => TypeView::Continuation {
                args: type_views(args@),
                ret: match ret {
                    Some(ret) => Some(type_views(ret@)),
                    None => None,
                },
                effects: effect_views(effects@),
            },
            Type::Closure { ret, effects } => TypeView::Closure {
                ret: type_views(ret@),
                effects: effect_views(effects@),
            },
        }
    }
}

impl Effect {
    pub open spec fn view(&self) -> EffectView
        decreases self,
    {
        EffectView {
            name: self.name@,
            args: type_views(self.args@),
            meta_effects: effect_views(self.meta_effects@),
        }
    }
}

/// The views of a list with one more element are the views of the list with
/// the view of that element behind them.
pub proof fn lemma_type_views_push(types: Seq<Type>, ty: Type)
    ensures
        type_views(types.push(ty)) == type_views(types).push(ty@),
{
    assert(type_views(types.push(ty)) =~= type_views(types).push(ty@));
}

pub proof fn lemma_effect_views_push(effects: Seq<Effect>, effect: Effect)
    ensures
        effect_views(effects.push(effect)) == effect_views(effects).push(effect@),
{
    assert(effect_views(effects.push(effect)) =~= effect_views(effects).push(effect@));
}

} // verus!
