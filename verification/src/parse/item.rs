//! Items.

use crate::ast::expr::item_views;
use crate::ast::expr::lemma_item_views_push;
use crate::ast::ident::Ident;
use crate::ast::item::Function;
use crate::ast::item::FunctionHeader;
use crate::ast::item::FunctionHeaderView;
use crate::ast::item::Item;
use crate::ast::item::ItemView;
use crate::ast::types::Type;
use crate::ast::types::TypeView;
use crate::diagnostic::Code;
use crate::parse::after;
use crate::parse::atoms::group_atoms;
use crate::parse::atoms::parsed_ident;
use crate::parse::combinators::all_or_nothing;
use crate::parse::combinators::idents_until;
use crate::parse::combinators::typed_idents_until;
use crate::parse::group_parse_state;
use crate::parse::statement::parsed_braced_block;
use crate::parse::types::effect_clause;
use crate::parse::types::optional_type_views;
use crate::parse::types::return_types;
use crate::parse::ParseState;
use crate::parse::Parser;
use crate::token::TokenKind;
use vstd::prelude::*;

verus! {

broadcast use {group_parse_state, group_atoms};

/// The type and effect parameters of a generic item: nothing, or `[`, the
/// names of the type parameters, behind `|` if it follows the names of the
/// effect parameters, and `]`.
#[verifier::opaque]
pub open spec fn generic_params(s: ParseState) -> ((Seq<Ident>, Seq<Ident>), ParseState) {
    let (open, s1) = s.consume(TokenKind::SquareL);
    if open.value is Some {
        let (type_params, s2) = after(
            idents_until(s1, seq![TokenKind::SquareR, TokenKind::Pipe], seq![]),
            s1,
        );
        let (pipe, s3) = s2.consume(TokenKind::Pipe);
        if pipe.value is Some {
            let (effect_params, s4) = after(idents_until(s3, seq![TokenKind::SquareR], seq![]), s3);
            let (_close, s5) = s4.expect(TokenKind::SquareR);
            ((type_params, effect_params), s5)
        } else {
            let (_close, s4) = s3.expect(TokenKind::SquareR);
            ((type_params, seq![]), s4)
        }
    } else {
        ((seq![], seq![]), s1)
    }
}

/// What a function returns, behind the arrow of its header: nothing where
/// `{` or `;` follows, and otherwise what follows the arrow of a
/// continuation type.
#[verifier::opaque]
pub open spec fn returned(s: ParseState) -> (Option<Seq<TypeView>>, ParseState) {
    let next = s.peek().value;
    if next == TokenKind::CurlyL || next == TokenKind::Semi {
        (None, s)
    } else {
        after(return_types(s), s)
    }
}

/// A function header: `fn`, the name, the generic parameters, the
/// parameters in round brackets, the effects, `->` and what is returned.
#[verifier::opaque]
pub open spec fn parsed_function_header(s: ParseState) -> (FunctionHeaderView, ParseState) {
    let (_fn, s1) = s.expect(TokenKind::Fn);
    let (name, s2) = parsed_ident(s1);
    let ((type_params, effect_params), s3) = after(generic_params(s2), s2);
    let (_open, s4) = s3.expect(TokenKind::RoundL);
    let (params, s5) = after(typed_idents_until(s4, seq![TokenKind::RoundR], seq![]), s4);
    let (_close, s6) = s5.expect(TokenKind::RoundR);
    let (effects, s7) = after(effect_clause(s6), s6);
    let (_arrow, s8) = s7.expect(TokenKind::Arrow);
    let (ret, s9) = after(returned(s8), s8);
    (
        FunctionHeaderView {
            name: name.value,
            type_params,
            effect_params,
            params: all_or_nothing(params),
            effects,
            ret,
        },
        s9,
    )
}

/// A function: a header, and behind it `;`, which leaves the function
/// abstract, or its body in braces.
#[verifier::opaque]
pub open spec fn parsed_function(s: ParseState) -> (ItemView, ParseState)
    decreases s.remaining(), 8nat,
    when s.wf()
{
    let (header, s1) = after(parsed_function_header(s), s);
    let (semi, s2) = s1.consume(TokenKind::Semi);
    if semi.value is Some {
        (ItemView::AbstractFunction(header), s2)
    } else {
        let (body, s3) = after(parsed_braced_block(s2), s2);
        (ItemView::Function { header, body }, s3)
    }
}

/// An item: a function, a `finally` block, or an effect definition with its
/// items in braces. Any other token is consumed, reported as unexpected and
/// stands in the tree as an error item.
#[verifier::opaque]
pub open spec fn parsed_item(s: ParseState) -> (ItemView, ParseState)
    decreases s.remaining(), 9nat,
    when s.wf()
{
    let token = s.peek();
    match token.value {
        TokenKind::Fn => parsed_function(s),
        TokenKind::Finally => {
            let s1 = s.advance();
            let (stmts, s2) = after(parsed_braced_block(s1), s1);
            (ItemView::Finally { stmts }, s2)
        },
        TokenKind::Effect => {
            let s1 = s.advance();
            let (name, s2) = parsed_ident(s1);
            let ((type_params, effect_params), s3) = after(generic_params(s2), s2);
            let (_open, s4) = s3.expect(TokenKind::CurlyL);
            let (body, s5) = after(items_until(s4, seq![TokenKind::CurlyR], seq![]), s4);
            let (_close, s6) = s5.expect(TokenKind::CurlyR);
            (ItemView::Effect { name: name.value, type_params, effect_params, body }, s6)
        },
        _ => (
            ItemView::Error { err_span: token.span },
            s.advance().report(Code::Unexpected, token.span, token.value.text()),
        ),
    }
}

/// Items one behind the other, behind the items `items`, up to the end of
/// the input or a token of `until`, which stays.
#[verifier::opaque]
pub open spec fn items_until(s: ParseState, until: Seq<TokenKind>, items: Seq<ItemView>) -> (
    Seq<ItemView>,
    ParseState,
)
    decreases s.remaining(), 10nat,
    when s.wf()
{
    let next = s.peek().value;
    if next == TokenKind::Eof || until.contains(next) {
        (items, s)
    } else {
        let (item, s1) = after(parsed_item(s), s);
        if s1.remaining() < s.remaining() {
            items_until(s1, until, items.push(item))
        } else {
            (items.push(item), s1)
        }
    }
}

impl<'a> Parser<'a> {
    /// A top-level or nested item.
    pub fn item(&mut self) -> (item: Item)
        requires
            old(self).wf(),
        ensures
            final(self).wf(),
            (item.view(), final(self)@) == parsed_item(old(self)@),
            final(self)@.follows(old(self)@.advance()),
        decreases old(self)@.remaining(), 9nat,
    {
        proof {
            reveal(parsed_item);
            reveal(generic_params);
            reveal(items_until);
            reveal(parsed_braced_block);
            reveal(parsed_function);
            self.lemma_wf();
        }
        let head_tkn = self.peek();
        match head_tkn.value {
            TokenKind::Fn => self.function(),
            TokenKind::Finally => {
                self.advance();
                let stmts = self.braced_block();
                Item::Finally { stmts }
            },
            TokenKind::Effect => {
                self.advance();
                let (_, name) = self.ident().into_span_value();
                let (type_params, effect_params) = self.generic_params();
                let _ = self.expect(TokenKind::CurlyL);
                let body = self.items_until_curly();
                let _ = self.expect(TokenKind::CurlyR);
                Item::Effect { name, type_params, effect_params, body }
            },
            _ => {
                self.advance();
                let err_span = head_tkn.span;
                self.ds.add(Code::Unexpected, err_span, head_tkn.value.as_str());
                Item::Error { err_span }
            },
        }
    }

    /// Parses the items of an effect definition or of a handler, up to the
    /// closing brace.
    pub fn items_until_curly(&mut self) -> (items: Vec<Item>)
        requires
            old(self).wf(),
        ensures
            final(self).wf(),
            (item_views(items@), final(self)@) == items_until(
                old(self)@,
                seq![TokenKind::CurlyR],
                seq![],
            ),
            final(self)@.follows(old(self)@),
        decreases old(self)@.remaining(), 10nat,
    {
        proof {
            reveal(items_until);
            reveal(parsed_item);
            self.lemma_wf();
        }
        let until = [TokenKind::CurlyR];
        assert(until@ =~= seq![TokenKind::CurlyR]);
        let mut values: Vec<Item> = Vec::new();
        assert(item_views(values@) =~= seq![]);
        loop
            invariant
                self.wf(),
                self@.follows(old(self)@),
                until@ == seq![TokenKind::CurlyR],
                items_until(self@, until@, item_views(values@)) == items_until(
                    old(self)@,
                    until@,
                    seq![],
                ),
            decreases self@.remaining(),
        {
            proof {
                reveal(items_until);
                reveal(parsed_item);
            }
            let next_token = self.peek();
            if next_token.value == TokenKind::Eof || next_token.value.is_one_of(&until) {
                return values;
            }
            let item = self.item();
            proof {
                lemma_item_views_push(values@, item);
            }
            values.push(item);
        }
    }

    /// Parses what a function returns, behind the arrow of its header.
    pub fn fn_return_sequence(&mut self) -> (ret: Option<Vec<Type>>)
        requires
            old(self).wf(),
        ensures
            final(self).wf(),
            (optional_type_views(ret), final(self)@) == returned(old(self)@),
            final(self)@.follows(old(self)@),
    {
        proof {
            reveal(returned);
            reveal(return_types);
            self.lemma_wf();
        }
        let next = self.peek().value;
        if next == TokenKind::CurlyL || next == TokenKind::Semi {
            None
        } else {
            self.return_types()
        }
    }

    /// Parses a function header. A function header must end in either ; or {
    /// fn name [ ident, ..., ident | ident, ..., ident ] ( nameandtype , ... , nameandtype ) / effect, ..., effect -> type
    pub fn function_header(&mut self) -> (header: FunctionHeader)
        requires
            old(self).wf(),
        ensures
            final(self).wf(),
            (header@, final(self)@) == parsed_function_header(old(self)@),
            final(self)@.follows(old(self)@.advance()),
    {
        proof {
            reveal(parsed_function_header);
            reveal(effect_clause);
            reveal(generic_params);
            reveal(returned);
            reveal(typed_idents_until);
            self.lemma_wf();
        }
        let _ = self.expect(TokenKind::Fn);
        let (_, name) = self.ident().into_span_value();
        let (type_params, effect_params) = self.generic_params();

        // parameters
        let _ = self.expect(TokenKind::RoundL);
        let until = [TokenKind::RoundR];
        assert(until@ =~= seq![TokenKind::RoundR]);
        let params = self.typed_idents_until(&until);
        let _ = self.expect(TokenKind::RoundR);

        // effects
        let effects = self.effect_clause();

        let _ = self.expect(TokenKind::Arrow);
        let ret = self.fn_return_sequence();

        FunctionHeader { name, type_params, effect_params, params, effects, ret }
    }

    /// Parses a function - a function header followed by either ; or { block }.
    pub fn function(&mut self) -> (item: Item)
        requires
            old(self).wf(),
        ensures
            final(self).wf(),
            (item.view(), final(self)@) == parsed_function(old(self)@),
            final(self)@.follows(old(self)@.advance()),
        decreases old(self)@.remaining(), 8nat,
    {
        proof {
            reveal(parsed_function);
            reveal(parsed_braced_block);
            reveal(parsed_function_header);
            self.lemma_wf();
        }
        let header = self.function_header();
        if self.consume(TokenKind::Semi).value.is_some() {
            Item::AbstractFunction(header)
        } else {
            let body = self.braced_block();
            Item::Function(Function { header, body })
        }
    }

    /// Parses a list of type and effect parameters, including the delimiters.
    pub fn generic_params(&mut self) -> (params: (Vec<Ident>, Vec<Ident>))
        requires
            old(self).wf(),
        ensures
            final(self).wf(),
            ((params.0@, params.1@), final(self)@) == generic_params(old(self)@),
            final(self)@.follows(old(self)@),
    {
        proof {
            reveal(generic_params);
            reveal(idents_until);
            self.lemma_wf();
        }
        if self.consume(TokenKind::SquareL).value.is_some() {
            let until = [TokenKind::SquareR, TokenKind::Pipe];
            assert(until@ =~= seq![TokenKind::SquareR, TokenKind::Pipe]);
            let type_params = self.idents_until(&until);
            let effect_params = if self.consume(TokenKind::Pipe).value.is_some() {
                let until = [TokenKind::SquareR];
                assert(until@ =~= seq![TokenKind::SquareR]);
                self.idents_until(&until)
            } else {
                Vec::new()
            };
            let _ = self.expect(TokenKind::SquareR);
            (type_params, effect_params)
        } else {
            (Vec::new(), Vec::new())
        }
    }
}

} // verus!
