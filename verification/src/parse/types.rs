//! Types and effects.

use crate::ast::types::effect_views;
use crate::ast::types::lemma_effect_views_push;
use crate::ast::types::lemma_type_views_push;
use crate::ast::types::type_views;
use crate::ast::types::Effect;
use crate::ast::types::EffectView;
use crate::ast::types::Type;
use crate::ast::types::TypeView;
use crate::parse::after;
use crate::parse::atoms::group_atoms;
use crate::parse::group_parse_state;
use crate::parse::paths::group_paths;
use crate::parse::paths::parsed_qualified_ident;
use crate::parse::ParseState;
use crate::parse::Parser;
use crate::token::TokenKind;
use vstd::prelude::*;

verus! {

broadcast use {group_parse_state, group_atoms, group_paths};

/// The views of an optional list of types.
pub open spec fn optional_type_views(types: Option<Vec<Type>>) -> Option<Seq<TypeView>> {
    match types {
        Some(types) => Some(type_views(types@)),
        None => None,
    }
}

/// A list of types with commas between them, behind the types `types`: it
/// ends before a token of `until`, which stays, or behind the first type that
/// no comma follows.
#[verifier::opaque]
pub open spec fn types_until(s: ParseState, until: Seq<TokenKind>, types: Seq<TypeView>) -> (
    Seq<TypeView>,
    ParseState,
)
    decreases s.remaining(), 2nat,
    when s.wf()
{
    if until.contains(s.peek().value) {
        (types, s)
    } else {
        let (ty, s1) = after(parsed_ty(s), s);
        let (comma, s2) = s1.consume(TokenKind::Comma);
        if comma.value is Some {
            types_until(s2, until, types.push(ty))
        } else {
            (types.push(ty), s2)
        }
    }
}

/// A list of effects with commas between them, behind the effects `effects`:
/// it ends before a token of `until`, which stays, or behind the first effect
/// that no comma follows.
#[verifier::opaque]
pub open spec fn effects_until(s: ParseState, until: Seq<TokenKind>, effects: Seq<EffectView>) -> (
    Seq<EffectView>,
    ParseState,
)
    decreases s.remaining(), 3nat,
    when s.wf()
{
    if until.contains(s.peek().value) {
        (effects, s)
    } else {
        let (effect, s1) = after(parsed_effect(s), s);
        let (comma, s2) = s1.consume(TokenKind::Comma);
        if comma.value is Some {
            effects_until(s2, until, effects.push(effect))
        } else {
            (effects.push(effect), s2)
        }
    }
}

/// The generic arguments of a named type or effect: nothing, or `[`, a list
/// of types and `]`.
#[verifier::opaque]
pub open spec fn type_args(s: ParseState) -> (Seq<TypeView>, ParseState)
    decreases s.remaining(), 0nat,
    when s.wf()
{
    let (open, s1) = s.consume(TokenKind::SquareL);
    if open.value is Some {
        let (args, s2) = after(types_until(s1, seq![TokenKind::SquareR], seq![]), s1);
        let (_close, s3) = s2.expect(TokenKind::SquareR);
        (args, s3)
    } else {
        (seq![], s1)
    }
}

/// The effects that a type or a function header declares: nothing, or `/`
/// and a list of effects that ends before `->`.
#[verifier::opaque]
pub open spec fn effect_clause(s: ParseState) -> (Seq<EffectView>, ParseState)
    decreases s.remaining(), 0nat,
    when s.wf()
{
    let (slash, s1) = s.consume(TokenKind::Slash);
    if slash.value is Some {
        after(effects_until(s1, seq![TokenKind::Arrow], seq![]), s1)
    } else {
        (seq![], s1)
    }
}

/// The effects of a closure type behind the effects `effects`: an effect
/// behind each comma that follows.
#[verifier::opaque]
pub open spec fn more_effects(s: ParseState, effects: Seq<EffectView>) -> (Seq<EffectView>, ParseState)
    decreases s.remaining(), 0nat,
    when s.wf()
{
    let (comma, s1) = s.consume(TokenKind::Comma);
    if comma.value is Some {
        let (effect, s2) = after(parsed_effect(s1), s1);
        more_effects(s2, effects.push(effect))
    } else {
        (effects, s1)
    }
}

/// What follows the arrow of a continuation type or of a function header.
/// An identifier or `{` begins the one type that is returned. `(` begins a
/// list of types: where effects or an arrow follow the list, it is the
/// argument list of a continuation type, which is the one type returned and
/// whose own return types follow its arrow; otherwise the list is what is
/// returned. Anything else means that nothing is returned.
#[verifier::opaque]
pub open spec fn return_types(s: ParseState) -> (Option<Seq<TypeView>>, ParseState)
    decreases s.remaining(), 2nat,
    when s.wf()
{
    let next = s.peek().value;
    if next == TokenKind::Ident || next == TokenKind::CurlyL {
        let (ty, s1) = after(parsed_ty(s), s);
        (Some(seq![ty]), s1)
    } else if next == TokenKind::RoundL {
        let s1 = s.advance();
        let (args, s2) = after(types_until(s1, seq![TokenKind::RoundR], seq![]), s1);
        let (_close, s3) = s2.expect(TokenKind::RoundR);
        let (slash, s4) = s3.consume(TokenKind::Slash);
        if slash.value is Some {
            let (effects, s5) = after(effects_until(s4, seq![TokenKind::Arrow], seq![]), s4);
            let (_arrow, s6) = s5.expect(TokenKind::Arrow);
            let (ret, s7) = after(return_types(s6), s6);
            (Some(seq![TypeView::Continuation { args, ret, effects }]), s7)
        } else {
            let (arrow, s5) = s4.consume(TokenKind::Arrow);
            if arrow.value is Some {
                let (ret, s6) = after(return_types(s5), s5);
                (Some(seq![TypeView::Continuation { args, ret, effects: seq![] }]), s6)
            } else {
                (Some(args), s5)
            }
        }
    } else {
        (None, s)
    }
}

/// A type. `{` begins a closure type: the types it returns, `}`, and its
/// effects behind `/` if there are any. `(` begins a continuation type: its
/// argument types, `)`, its effects, `->`, and what it returns. Anything else
/// is read as a named type with its generic arguments.
#[verifier::opaque]
pub open spec fn parsed_ty(s: ParseState) -> (TypeView, ParseState)
    decreases s.remaining(), 1nat,
    when s.wf()
{
    let next = s.peek().value;
    if next == TokenKind::CurlyL {
        let s1 = s.advance();
        let (ret, s2) = after(types_until(s1, seq![TokenKind::CurlyR], seq![]), s1);
        let (_close, s3) = s2.expect(TokenKind::CurlyR);
        let (slash, s4) = s3.consume(TokenKind::Slash);
        if slash.value is Some {
            let (first, s5) = after(parsed_effect(s4), s4);
            let (effects, s6) = after(more_effects(s5, seq![first]), s5);
            (TypeView::Closure { ret, effects }, s6)
        } else {
            (TypeView::Closure { ret, effects: seq![] }, s4)
        }
    } else if next == TokenKind::RoundL {
        let s1 = s.advance();
        let (args, s2) = after(types_until(s1, seq![TokenKind::RoundR], seq![]), s1);
        let (_close, s3) = s2.expect(TokenKind::RoundR);
        let (effects, s4) = after(effect_clause(s3), s3);
        let (_arrow, s5) = s4.expect(TokenKind::Arrow);
        let (ret, s6) = after(return_types(s5), s5);
        (TypeView::Continuation { args, ret, effects }, s6)
    } else {
        let (name, s1) = parsed_qualified_ident(s);
        let (args, s2) = after(type_args(s1), s1);
        (TypeView::Simple { name: name.value, args }, s2)
    }
}

/// The effects of a chain behind the effects `earlier`: a qualified name and
/// its generic arguments, and the same again as long as an identifier
/// follows. The last effect of the chain is the result, and the effects
/// before it are its meta effects.
#[verifier::opaque]
pub open spec fn effect_chain(s: ParseState, earlier: Seq<EffectView>) -> (EffectView, ParseState)
    decreases s.remaining(), 1nat,
    when s.wf()
{
    let (name, s1) = parsed_qualified_ident(s);
    let (args, s2) = after(type_args(s1), s1);
    if s2.peek().value == TokenKind::Ident && s2.remaining() < s.remaining() {
        effect_chain(
            s2,
            earlier.push(EffectView { name: name.value, args, meta_effects: seq![] }),
        )
    } else {
        (EffectView { name: name.value, args, meta_effects: earlier }, s2)
    }
}

/// An effect: a chain of effects written one behind the other, of which the
/// last is the effect itself and the others what it depends on.
#[verifier::opaque]
pub open spec fn parsed_effect(s: ParseState) -> (EffectView, ParseState)
    decreases s.remaining(), 2nat,
    when s.wf()
{
    effect_chain(s, seq![])
}

impl<'a> Parser<'a> {
    /// Parses types separated by commas. Stops before a token of `until`,
    /// which it leaves, or behind a type that no comma follows.
    pub fn types_until(&mut self, until: &[TokenKind]) -> (types: Vec<Type>)
        requires
            old(self).wf(),
        ensures
            final(self).wf(),
            (type_views(types@), final(self)@) == types_until(old(self)@, until@, seq![]),
            final(self)@.follows(old(self)@),
        decreases old(self)@.remaining(), 2nat,
    {
        proof {
            reveal(types_until);
            reveal(parsed_ty);
            self.lemma_wf();
        }
        let mut values: Vec<Type> = Vec::new();
        assert(type_views(values@) =~= seq![]);
        loop
            invariant
                self.wf(),
                self@.follows(old(self)@),
                types_until(self@, until@, type_views(values@)) == types_until(
                    old(self)@,
                    until@,
                    seq![],
                ),
            decreases self@.remaining(),
        {
            proof {
                reveal(types_until);
                reveal(parsed_ty);
            }
            let next_token = self.peek();
            if next_token.value.is_one_of(until) {
                return values;
            }
            let ty = self.ty();
            proof {
                lemma_type_views_push(values@, ty);
            }
            values.push(ty);
            if self.consume(TokenKind::Comma).value.is_none() {
                return values;
            }
        }
    }

    /// Parses effects separated by commas. Stops before a token of `until`,
    /// which it leaves, or behind an effect that no comma follows.
    pub fn effects_until(&mut self, until: &[TokenKind]) -> (effects: Vec<Effect>)
        requires
            old(self).wf(),
        ensures
            final(self).wf(),
            (effect_views(effects@), final(self)@) == effects_until(old(self)@, until@, seq![]),
            final(self)@.follows(old(self)@),
        decreases old(self)@.remaining(), 3nat,
    {
        proof {
            reveal(effects_until);
            reveal(parsed_effect);
            self.lemma_wf();
        }
        let mut values: Vec<Effect> = Vec::new();
        assert(effect_views(values@) =~= seq![]);
        loop
            invariant
                self.wf(),
                self@.follows(old(self)@),
                effects_until(self@, until@, effect_views(values@)) == effects_until(
                    old(self)@,
                    until@,
                    seq![],
                ),
            decreases self@.remaining(),
        {
            proof {
                reveal(effects_until);
                reveal(parsed_effect);
            }
            let next_token = self.peek();
            if next_token.value.is_one_of(until) {
                return values;
            }
            let effect = self.effect();
            proof {
                lemma_effect_views_push(values@, effect);
            }
            values.push(effect);
            if self.consume(TokenKind::Comma).value.is_none() {
                return values;
            }
        }
    }

    /// Parses the generic arguments of a named type or effect, if there are
    /// any: `[ type, ..., type ]`.
    pub fn type_args(&mut self) -> (args: Vec<Type>)
        requires
            old(self).wf(),
        ensures
            final(self).wf(),
            (type_views(args@), final(self)@) == type_args(old(self)@),
            final(self)@.follows(old(self)@),
        decreases old(self)@.remaining(), 0nat,
    {
        proof {
            reveal(type_args);
            reveal(types_until);
            self.lemma_wf();
        }
        if self.consume(TokenKind::SquareL).value.is_some() {
            let until = [TokenKind::SquareR];
            assert(until@ =~= seq![TokenKind::SquareR]);
            let args = self.types_until(&until);
            let _ = self.expect(TokenKind::SquareR);
            args
        } else {
            let args: Vec<Type> = Vec::new();
            assert(type_views(args@) =~= seq![]);
            args
        }
    }

    /// Parses the effects that a type or a function header declares, if
    /// there are any: `/ effect, ..., effect`, up to an arrow.
    pub fn effect_clause(&mut self) -> (effects: Vec<Effect>)
        requires
            old(self).wf(),
        ensures
            final(self).wf(),
            (effect_views(effects@), final(self)@) == effect_clause(old(self)@),
            final(self)@.follows(old(self)@),
        decreases old(self)@.remaining(), 0nat,
    {
        proof {
            reveal(effect_clause);
            reveal(effects_until);
            self.lemma_wf();
        }
        if self.consume(TokenKind::Slash).value.is_some() {
            let until = [TokenKind::Arrow];
            assert(until@ =~= seq![TokenKind::Arrow]);
            self.effects_until(&until)
        } else {
            let effects: Vec<Effect> = Vec::new();
            assert(effect_views(effects@) =~= seq![]);
            effects
        }
    }

    /// Parses what follows the arrow of a continuation type or of a function
    /// header: nothing, one type, a list of types in round brackets, or a
    /// further continuation type.
    pub fn return_types(&mut self) -> (ret: Option<Vec<Type>>)
        requires
            old(self).wf(),
        ensures
            final(self).wf(),
            (optional_type_views(ret), final(self)@) == return_types(old(self)@),
            final(self)@.follows(old(self)@),
        decreases old(self)@.remaining(), 2nat,
    {
        proof {
            reveal(return_types);
            reveal(effects_until);
            reveal(parsed_ty);
            reveal(types_until);
            self.lemma_wf();
        }
        let next_tkn = self.peek().value;
        if next_tkn == TokenKind::Ident || next_tkn == TokenKind::CurlyL {
            // single return type, no more to parse
            let ty = self.ty();
            let mut ret: Vec<Type> = Vec::new();
            ret.push(ty);
            assert(type_views(ret@) =~= seq![ty@]);
            return Some(ret);
        }
        if self.consume(TokenKind::RoundL).value.is_none() {
            // no return type, no more to parse
            return None;
        }
        // multiple return types, possibly a single continuation return type - another argument list
        let until = [TokenKind::RoundR];
        assert(until@ =~= seq![TokenKind::RoundR]);
        let args = self.types_until(&until);
        let _ = self.expect(TokenKind::RoundR);
        if self.consume(TokenKind::Slash).value.is_some() {
            // effects - must be followed by arrow
            let until = [TokenKind::Arrow];
            assert(until@ =~= seq![TokenKind::Arrow]);
            let effects = self.effects_until(&until);
            let _ = self.expect(TokenKind::Arrow);
            let inner = self.return_types();
            let ty = Type::Continuation { args, ret: inner, effects };
            let mut ret: Vec<Type> = Vec::new();
            ret.push(ty);
            assert(type_views(ret@) =~= seq![ty@]);
            Some(ret)
        } else if self.consume(TokenKind::Arrow).value.is_some() {
            // argument list for another continuation type
            let inner = self.return_types();
            let effects: Vec<Effect> = Vec::new();
            assert(effect_views(effects@) =~= seq![]);
            let ty = Type::Continuation { args, ret: inner, effects };
            let mut ret: Vec<Type> = Vec::new();
            ret.push(ty);
            assert(type_views(ret@) =~= seq![ty@]);
            Some(ret)
        } else {
            // return type list
            Some(args)
        }
    }

    /// Parses the effects of a closure type behind the first one.
    fn more_effects(&mut self, first: Effect) -> (effects: Vec<Effect>)
        requires
            old(self).wf(),
        ensures
            final(self).wf(),
            (effect_views(effects@), final(self)@) == more_effects(old(self)@, seq![first@]),
            final(self)@.follows(old(self)@),
        decreases old(self)@.remaining(), 0nat,
    {
        proof {
            reveal(more_effects);
            reveal(parsed_effect);
            self.lemma_wf();
        }
        let mut effects: Vec<Effect> = Vec::new();
        effects.push(first);
        assert(effect_views(effects@) =~= seq![first@]);
        loop
            invariant
                self.wf(),
                self@.follows(old(self)@),
                more_effects(self@, effect_views(effects@)) == more_effects(
                    old(self)@,
                    seq![first@],
                ),
            decreases self@.remaining(),
        {
            proof {
                reveal(more_effects);
                reveal(parsed_effect);
            }
            if self.consume(TokenKind::Comma).value.is_none() {
                return effects;
            }
            let effect = self.effect();
            proof {
                lemma_effect_views_push(effects@, effect);
            }
            effects.push(effect);
        }
    }

    /// Parses a type name. Types are:
    /// Simple: qualident [ type, ..., type ]
    /// Continuation: ( type, ..., type ) / effect, effect -> ... / effect, effect -> ( type, ..., type )
    /// Closure: { type, ..., type } / effect, effect
    pub fn ty(&mut self) -> (ty: Type)
        requires
            old(self).wf(),
        ensures
            final(self).wf(),
            (ty@, final(self)@) == parsed_ty(old(self)@),
            final(self)@.follows(old(self)@.advance()),
        decreases old(self)@.remaining(), 1nat,
    {
        proof {
            reveal(parsed_ty);
            reveal(effect_clause);
            reveal(more_effects);
            reveal(parsed_effect);
            reveal(return_types);
            reveal(type_args);
            reveal(types_until);
            self.lemma_wf();
        }
        let head_tkn = self.peek();
        match head_tkn.value {
            TokenKind::CurlyL => {
                // closure type
                self.advance();
                let until = [TokenKind::CurlyR];
                assert(until@ =~= seq![TokenKind::CurlyR]);
                let ret = self.types_until(&until);
                let _ = self.expect(TokenKind::CurlyR);
                if self.consume(TokenKind::Slash).value.is_some() {
                    let first = self.effect();
                    let effects = self.more_effects(first);
                    Type::Closure { ret, effects }
                } else {
                    let effects: Vec<Effect> = Vec::new();
                    assert(effect_views(effects@) =~= seq![]);
                    Type::Closure { ret, effects }
                }
            },
            TokenKind::RoundL => {
                // continuation type
                self.advance();
                let until = [TokenKind::RoundR];
                assert(until@ =~= seq![TokenKind::RoundR]);
                let args = self.types_until(&until);
                let _ = self.expect(TokenKind::RoundR);
                let effects = self.effect_clause();
                let _ = self.expect(TokenKind::Arrow);
                let ret = self.return_types();
                Type::Continuation { args, ret, effects }
            },
            _ => {
                // simple type
                let (_, ty_name) = self.qualified_ident().into_span_value();
                let args = self.type_args();
                Type::Simple { name: ty_name, args }
            },
        }
    }

    /// Parses an effect.
    /// effect ident [ ty, ..., ty ]
    pub fn effect(&mut self) -> (effect: Effect)
        requires
            old(self).wf(),
        ensures
            final(self).wf(),
            (effect@, final(self)@) == parsed_effect(old(self)@),
            final(self)@.follows(old(self)@.advance()),
        decreases old(self)@.remaining(), 2nat,
    {
        proof {
            reveal(parsed_effect);
            reveal(effect_chain);
            reveal(type_args);
            self.lemma_wf();
        }
        let mut effect_seq: Vec<Effect> = Vec::new();
        assert(effect_views(effect_seq@) =~= seq![]);
        loop
            invariant
                self.wf(),
                self@.follows(old(self)@),
                effect_seq@.len() == 0 ==> self@ == old(self)@,
                effect_seq@.len() > 0 ==> self@.follows(old(self)@.advance()),
                effect_seq@.len() > 0 ==> self@.peek().value == TokenKind::Ident,
                effect_chain(self@, effect_views(effect_seq@)) == parsed_effect(old(self)@),
            decreases self@.remaining(),
        {
            proof {
                reveal(parsed_effect);
                reveal(effect_chain);
                reveal(type_args);
            }
            let ghost before = self@;
            let (_, name) = self.qualified_ident().into_span_value();
            // generic arguments
            let args = self.type_args();
            // note: we assume that an effect must begin with an ident token
            if self.peek().value != TokenKind::Ident {
                return Effect { name, args, meta_effects: effect_seq };
            }
            let meta_effects: Vec<Effect> = Vec::new();
            assert(effect_views(meta_effects@) =~= seq![]);
            let effect = Effect { name, args, meta_effects };
            proof {
                lemma_effect_views_push(effect_seq@, effect);
            }
            effect_seq.push(effect);
        }
    }
}

} // verus!
