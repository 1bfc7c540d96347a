//! Effect definitions and the symbols they declare.

use crate::ast::func::FuncHeader;
use crate::ast::generic::TypeParam;
use crate::ast::ident::Ident;
use crate::symbol::with_symbol;
use crate::symbol::Scope;
use crate::symbol::SymbolKey;
use crate::symbol::SymbolTable;
use vstd::prelude::*;

verus! {

/// Effect definition.
#[derive(Debug, PartialEq, Eq)]
pub struct Effect {
    pub name: Ident,
    pub type_params: Vec<TypeParam>,
    pub operators: Vec<FuncHeader>,
}

/// Whether `name` can be declared in `context`: it is a name, and `context`
/// does not know it yet.
pub open spec fn declarable(scopes: Seq<Scope>, name: Ident, context: SymbolKey) -> bool {
    match name {
        Ident::Ident(key) => !scopes[context.0 as int].names.contains_key(key),
        Ident::Error => false,
    }
}

/// The scopes after an attempt to declare `name` in `context`.
pub open spec fn declare(scopes: Seq<Scope>, name: Ident, context: SymbolKey) -> Seq<Scope> {
    match name {
        Ident::Ident(key) => if scopes[context.0 as int].names.contains_key(key) {
            scopes
        } else {
            with_symbol(scopes, key, context)
        },
        Ident::Error => scopes,
    }
}

/// The scopes after each of `params`, from left to right, was declared in
/// `context` as far as it could be.
pub open spec fn declare_params(scopes: Seq<Scope>, params: Seq<TypeParam>, context: SymbolKey) -> Seq<
    Scope,
>
    decreases params.len(),
{
    if params.len() == 0 {
        scopes
    } else {
        declare(declare_params(scopes, params.drop_last(), context), params.last().name, context)
    }
}

/// Whether each of `params` could be declared in `context` when its turn
/// came: none is an error name, and none repeats an earlier one or a name
/// that `context` knew before.
pub open spec fn all_declarable(scopes: Seq<Scope>, params: Seq<TypeParam>, context: SymbolKey) -> bool
    decreases params.len(),
{
    if params.len() == 0 {
        true
    } else {
        &&& all_declarable(scopes, params.drop_last(), context)
        &&& declarable(
            declare_params(scopes, params.drop_last(), context),
            params.last().name,
            context,
        )
    }
}

impl Effect {
    /// Declares the effect in `ctx`, and its type parameters inside the
    /// effect. Where the effect's own name cannot be declared, nothing is.
    /// A type parameter that cannot be declared is passed over, and the
    /// result is then an error.
    pub fn declare_symbols(&self, tbl: &mut SymbolTable, ctx: SymbolKey) -> (r: Result<(), ()>)
        requires
            old(tbl).wf(),
            ctx.0 < old(tbl)@.len(),
        ensures
            final(tbl).wf(),
            !declarable(old(tbl)@, self.name, ctx) ==> r is Err && final(tbl)@ == old(tbl)@,
            declarable(old(tbl)@, self.name, ctx) ==> {
                let inside = SymbolKey(old(tbl)@.len() as usize);
                let declared = declare(old(tbl)@, self.name, ctx);
                &&& final(tbl)@ == declare_params(declared, self.type_params@, inside)
                &&& r is Ok == all_declarable(declared, self.type_params@, inside)
            },
    {
        let effect_symb = match self.name {
            Ident::Ident(key) => match tbl.define(key, ctx) {
                Some(symbol) => symbol,
                None => {
                    return Err(());
                },
            },
            Ident::Error => {
                return Err(());
            },
        };
        let ghost declared = tbl@;
        let mut duplicates: usize = 0;
        let mut i: usize = 0;
        assert(self.type_params@.take(0) =~= Seq::<TypeParam>::empty());
        while i < self.type_params.len()
            invariant
                tbl.wf(),
                i <= self.type_params@.len(),
                effect_symb.0 < declared.len() <= tbl@.len(),
                duplicates <= i,
                tbl@ == declare_params(declared, self.type_params@.take(i as int), effect_symb),
                (duplicates == 0) == all_declarable(
                    declared,
                    self.type_params@.take(i as int),
                    effect_symb,
                ),
            decreases self.type_params@.len() - i,
        {
            let ghost done = self.type_params@.take(i as int);
            let ghost next = self.type_params@.take(i + 1);
            assert(next.drop_last() =~= done);
            assert(next.last() == self.type_params@[i as int]);
            let declared_now = match self.type_params[i].name {
                Ident::Ident(key) => tbl.define(key, effect_symb).is_some(),
                Ident::Error => false,
            };
            if !declared_now {
                duplicates += 1;
            }
            i += 1;
        }
        assert(self.type_params@.take(i as int) =~= self.type_params@);
        if duplicates == 0 {
            Ok(())
        } else {
            Err(())
        }
    }
}

} // verus!
