//! Lists of identifiers and of typed names.

use crate::ast::generic::lemma_typed_ident_views_push;
use crate::ast::generic::typed_ident_views;
use crate::ast::generic::TypedIdent;
use crate::ast::generic::TypedIdentView;
use crate::ast::ident::Ident;
use crate::parse::after;
use crate::parse::atoms::group_atoms;
use crate::parse::atoms::parsed_ident;
use crate::parse::group_parse_state;
use crate::parse::types::parsed_ty;
use crate::parse::ParseState;
use crate::parse::Parser;
use crate::span::Spanned;
use crate::token::TokenKind;
use vstd::prelude::*;

verus! {

broadcast use {group_parse_state, group_atoms};

/// A list of identifiers with commas between them, behind the identifiers
/// `names`: it ends before a token of `until`, which stays, or behind the
/// first identifier that no comma follows.
#[verifier::opaque]
pub open spec fn idents_until(s: ParseState, until: Seq<TokenKind>, names: Seq<Ident>) -> (
    Seq<Ident>,
    ParseState,
)
    decreases s.remaining(),
    when s.wf()
{
    if until.contains(s.peek().value) {
        (names, s)
    } else {
        let (name, s1) = parsed_ident(s);
        let (comma, s2) = s1.consume(TokenKind::Comma);
        if comma.value is Some {
            idents_until(s2, until, names.push(name.value))
        } else {
            (names.push(name.value), s2)
        }
    }
}

/// A name with its type: an identifier, `:` and a type. Where the colon is
/// missing, the token in its place is consumed and there is no pair.
#[verifier::opaque]
pub open spec fn parsed_name_and_type(s: ParseState) -> (Spanned<Option<TypedIdentView>>, ParseState) {
    let (name, s1) = parsed_ident(s);
    let (colon, s2) = s1.expect(TokenKind::Colon);
    if colon.value is None {
        (Spanned { span: name.span, value: None }, s2)
    } else {
        let (ty, s3) = after(parsed_ty(s2), s2);
        (Spanned { span: name.span, value: Some(TypedIdentView { name: name.value, ty }) }, s3)
    }
}

/// A list of names with their types, with commas between them, behind the
/// pairs `pairs`: it ends before a token of `until`, which stays, or behind
/// the first pair that no comma follows.
#[verifier::opaque]
pub open spec fn typed_idents_until(
    s: ParseState,
    until: Seq<TokenKind>,
    pairs: Seq<Option<TypedIdentView>>,
) -> (Seq<Option<TypedIdentView>>, ParseState)
    decreases s.remaining(),
    when s.wf()
{
    if until.contains(s.peek().value) {
        (pairs, s)
    } else {
        let (pair, s1) = parsed_name_and_type(s);
        proof {
            lemma_parsed_name_and_type(s);
        }
        let (comma, s2) = s1.consume(TokenKind::Comma);
        if comma.value is Some {
            typed_idents_until(s2, until, pairs.push(pair.value))
        } else {
            (pairs.push(pair.value), s2)
        }
    }
}

/// Whether each of `pairs` is there.
pub open spec fn all_there(pairs: Seq<Option<TypedIdentView>>) -> bool {
    forall|i: int| 0 <= i < pairs.len() ==> (#[trigger] pairs[i]) is Some
}

/// The pairs of a list in which each pair is there, and the empty list for
/// any other list.
pub open spec fn all_or_nothing(pairs: Seq<Option<TypedIdentView>>) -> Seq<TypedIdentView> {
    if all_there(pairs) {
        Seq::new(pairs.len(), |i: int| pairs[i].unwrap())
    } else {
        seq![]
    }
}

/// A name with its type leaves a state that follows the one behind its
/// first token.
pub broadcast proof fn lemma_parsed_name_and_type(s: ParseState)
    requires
        s.wf(),
    ensures
        (#[trigger] parsed_name_and_type(s)).1.follows(s.advance()),
{
    reveal(parsed_name_and_type);
}

impl<'a> Parser<'a> {
    /// Parses identifiers separated by commas. Stops before a token of
    /// `until`, which it leaves, or behind an identifier that no comma
    /// follows.
    pub fn idents_until(&mut self, until: &[TokenKind]) -> (names: Vec<Ident>)
        requires
            old(self).wf(),
        ensures
            final(self).wf(),
            (names@, final(self)@) == idents_until(old(self)@, until@, seq![]),
            final(self)@.follows(old(self)@),
    {
        proof {
            reveal(idents_until);
            self.lemma_wf();
        }
        let mut values: Vec<Ident> = Vec::new();
        loop
            invariant
                self.wf(),
                self@.follows(old(self)@),
                idents_until(self@, until@, values@) == idents_until(old(self)@, until@, seq![]),
            decreases self@.remaining(),
        {
            proof {
                reveal(idents_until);
            }
            let next_token = self.peek();
            if next_token.value.is_one_of(until) {
                return values;
            }
            let (_, name) = self.ident().into_span_value();
            values.push(name);
            if self.consume(TokenKind::Comma).value.is_none() {
                return values;
            }
        }
    }

    /// Parses a name and type pair.
    pub fn name_and_type(&mut self) -> (r: Spanned<Option<TypedIdent>>)
        requires
            old(self).wf(),
        ensures
            final(self).wf(),
            final(self)@.follows(old(self)@.advance()),
            (
                Spanned {
                    span: r.span,
                    value: match r.value {
                        Some(pair) => Some(pair@),
                        None => None,
                    },
                },
                final(self)@,
            ) == parsed_name_and_type(old(self)@),
    {
        proof {
            reveal(parsed_name_and_type);
            reveal(parsed_ty);
            self.lemma_wf();
        }
        let (name_span, name) = self.ident().into_span_value();
        if self.expect(TokenKind::Colon).value.is_none() {
            return Spanned::from_span_value(name_span, None);
        }
        let ty = self.ty();
        let typed_ident = TypedIdent { name, ty };
        Spanned::from_span_value(name_span, Some(typed_ident))
    }

    /// Parses names with their types, separated by commas. Stops before a
    /// token of `until`, which it leaves, or behind a pair that no comma
    /// follows. Where one of the pairs lacks its colon, no pair is handed
    /// back.
    pub fn typed_idents_until(&mut self, until: &[TokenKind]) -> (pairs: Vec<TypedIdent>)
        requires
            old(self).wf(),
        ensures
            final(self).wf(),
            final(self)@.follows(old(self)@),
            typed_ident_views(pairs@) == all_or_nothing(
                typed_idents_until(old(self)@, until@, seq![]).0,
            ),
            final(self)@ == typed_idents_until(old(self)@, until@, seq![]).1,
    {
        proof {
            reveal(typed_idents_until);
            reveal(parsed_name_and_type);
            self.lemma_wf();
        }
        let mut values: Vec<TypedIdent> = Vec::new();
        let mut complete = true;
        let ghost mut seen: Seq<Option<TypedIdentView>> = seq![];
        assert(typed_ident_views(values@) =~= all_or_nothing(seen));
        loop
            invariant
                self.wf(),
                self@.follows(old(self)@),
                complete == all_there(seen),
                typed_ident_views(values@) == all_or_nothing(seen),
                typed_idents_until(self@, until@, seen) == typed_idents_until(
                    old(self)@,
                    until@,
                    seq![],
                ),
            decreases self@.remaining(),
        {
            proof {
                reveal(typed_idents_until);
                reveal(parsed_name_and_type);
            }
            let next_token = self.peek();
            if next_token.value.is_one_of(until) {
                return values;
            }
            let (_, pair) = self.name_and_type().into_span_value();
            let ghost before = seen;
            match pair {
                Some(pair) => {
                    proof {
                        seen = seen.push(Some(pair@));
                        lemma_typed_ident_views_push(values@, pair);
                    }
                    if complete {
                        values.push(pair);
                        proof {
                            assert forall|i: int| 0 <= i < seen.len() implies (#[trigger] seen[i]) is Some by {
                                if i < before.len() {
                                    assert(before[i] is Some);
                                }
                            }
                            assert(typed_ident_views(values@) =~= all_or_nothing(seen));
                        }
                    } else {
                        proof {
                            let i = choose|i: int| 0 <= i < before.len() && !((#[trigger] before[i]) is Some);
                            assert(!(seen[i] is Some));
                        }
                    }
                },
                None => {
                    proof {
                        seen = seen.push(None);
                        assert(!(seen[seen.len() - 1] is Some));
                    }
                    complete = false;
                    values = Vec::new();
                    assert(typed_ident_views(values@) =~= all_or_nothing(seen));
                },
            }
            if self.consume(TokenKind::Comma).value.is_none() {
                return values;
            }
        }
    }
}

} // verus!
