//! A parse that records no diagnostic builds a complete tree: one without a
//! placeholder for something that could not be parsed.

use crate::ast::complete::cases_complete;
use crate::ast::complete::lemma_cases_complete_push;
use crate::ast::complete::lemma_exprs_complete_push;
use crate::ast::complete::lemma_items_complete_push;
use crate::ast::complete::lemma_statements_complete_push;
use crate::ast::complete::lemma_effects_complete_push;
use crate::ast::complete::lemma_names_complete_push;
use crate::ast::complete::lemma_types_complete_push;
use crate::ast::complete::effects_complete;
use crate::ast::complete::exprs_complete;
use crate::ast::complete::items_complete;
use crate::ast::complete::names_complete;
use crate::ast::complete::statements_complete;
use crate::ast::complete::typed_idents_complete;
use crate::ast::complete::types_complete;
use crate::ast::expr::ConditionalView;
use crate::ast::expr::ExprView;
use crate::ast::generic::TypedIdentView;
use crate::ast::ident::Ident;
use crate::ast::item::FunctionHeaderView;
use crate::ast::item::ItemView;
use crate::ast::statement::StatementView;
use crate::ast::types::EffectView;
use crate::ast::types::TypeView;
use crate::parse::atoms::group_atoms;
use crate::parse::atoms::parsed_ident;
use crate::parse::atoms::parsed_integer;
use crate::parse::combinators::all_or_nothing;
use crate::parse::combinators::all_there;
use crate::parse::combinators::idents_until;
use crate::parse::combinators::lemma_parsed_name_and_type;
use crate::parse::combinators::parsed_name_and_type;
use crate::parse::combinators::typed_idents_until;
use crate::parse::expr::binary_exprs_until;
use crate::parse::expr::block_call;
use crate::parse::expr::exprs_until;
use crate::parse::expr::ladder;
use crate::parse::expr::ladder_end;
use crate::parse::expr::more_operands;
use crate::parse::expr::parsed_binary_expr;
use crate::parse::expr::parsed_block_call;
use crate::parse::expr::parsed_block_expr;
use crate::parse::expr::parsed_case;
use crate::parse::expr::parsed_closure_body;
use crate::parse::expr::parsed_do;
use crate::parse::expr::parsed_free_binary_expr;
use crate::parse::expr::parsed_handler;
use crate::parse::expr::parsed_unary_expr;
use crate::parse::expr::postfix;
use crate::parse::group_parse_state;
use crate::parse::item::generic_params;
use crate::parse::item::items_until;
use crate::parse::item::parsed_function;
use crate::parse::item::parsed_function_header;
use crate::parse::item::parsed_item;
use crate::parse::item::returned;
use crate::parse::items_to_end;
use crate::parse::lemma_between;
use crate::parse::paths::group_paths;
use crate::parse::paths::lemma_more_segments;
use crate::parse::paths::more_segments;
use crate::parse::paths::parsed_qualified_ident;
use crate::parse::progress::lemma_effect_chain;
use crate::parse::progress::lemma_effect_clause;
use crate::parse::progress::lemma_effects_until;
use crate::parse::progress::lemma_idents_until;
use crate::parse::progress::lemma_more_effects;
use crate::parse::progress::lemma_parsed_effect;
use crate::parse::progress::lemma_parsed_ty;
use crate::parse::progress::lemma_return_types;
use crate::parse::progress::lemma_type_args;
use crate::parse::progress::lemma_types_until;
use crate::parse::progress::lemma_binary_exprs_until;
use crate::parse::progress::lemma_exprs_until;
use crate::parse::progress::lemma_generic_params;
use crate::parse::progress::lemma_items_to_end;
use crate::parse::progress::lemma_items_until;
use crate::parse::progress::lemma_ladder_end;
use crate::parse::progress::lemma_more_operands;
use crate::parse::progress::lemma_parsed_binary_expr;
use crate::parse::progress::lemma_parsed_block_expr;
use crate::parse::progress::lemma_parsed_braced_block;
use crate::parse::progress::lemma_parsed_case;
use crate::parse::progress::lemma_parsed_closure_body;
use crate::parse::progress::lemma_parsed_free_binary_expr;
use crate::parse::progress::lemma_parsed_function_header;
use crate::parse::progress::lemma_parsed_item;
use crate::parse::progress::lemma_parsed_stmt;
use crate::parse::progress::lemma_parsed_unary_expr;
use crate::parse::progress::lemma_postfix;
use crate::parse::progress::lemma_returned;
use crate::parse::progress::lemma_stmts_until;
use crate::parse::progress::lemma_typed_idents_until;
use crate::parse::statement::parsed_braced_block;
use crate::parse::statement::parsed_stmt;
use crate::parse::statement::stmts_until;
use crate::parse::types::effect_chain;
use crate::parse::types::effect_clause;
use crate::parse::types::effects_until;
use crate::parse::types::more_effects;
use crate::parse::types::parsed_effect;
use crate::parse::types::parsed_ty;
use crate::parse::types::return_types;
use crate::parse::types::type_args;
use crate::parse::types::types_until;
use crate::diagnostic::Code;
use crate::parse::ParseState;
use crate::span::Span;
use crate::span::Spanned;
use crate::token::TokenKind;
use crate::tokens::Operator;
use vstd::prelude::*;

verus! {

broadcast use {group_parse_state, group_atoms, group_paths};

/// Recording a diagnostic behind the next token changes the diagnostics.
pub proof fn lemma_report_is_heard(s: ParseState, code: Code, span: Span, context: Seq<char>)
    requires
        s.wf(),
    ensures
        !silent(s, s.advance().report(code, span, context)),
{
    assert(s.advance().report(code, span, context).reports.len() == s.reports.len() + 1);
}

/// Whether a rule that led from `s` to `end` recorded nothing.
pub open spec fn silent(s: ParseState, end: ParseState) -> bool {
    end.reports == s.reports
}

/// An identifier that was read without a diagnostic is a name.
pub proof fn lemma_parsed_ident_complete(s: ParseState)
    requires
        s.wf(),
    ensures
        silent(s, parsed_ident(s).1) ==> parsed_ident(s).0.value is Ident,
{
    reveal(parsed_ident);
    reveal(ParseState::intern);
}

/// An integer literal that was read without a diagnostic has a value.
pub proof fn lemma_parsed_integer_complete(s: ParseState)
    requires
        s.wf(),
    ensures
        silent(s, parsed_integer(s).1) ==> parsed_integer(s).0.value is Integer,
{
    reveal(parsed_integer);
    let s1 = s.advance();
    assert forall|code: Code, span: Span, context: Seq<char>|
        (#[trigger] s1.report(code, span, context)).reports != s.reports by {
        assert(s1.report(code, span, context).reports.len() == s.reports.len() + 1);
    }
}

/// What the rule `more_segments` builds without a diagnostic is complete.
pub proof fn lemma_more_segments_complete(s: ParseState, span: Span, segments: Seq<Ident>)
    requires
        s.wf(),
        names_complete(segments),
    ensures
        silent(s, more_segments(s, span, segments).1) ==> names_complete(
            more_segments(s, span, segments).0.value,
        ),
    decreases s.remaining(),
{
    reveal(more_segments);
    let (scope, s1) = s.consume(TokenKind::Scope);
    if scope.value is Some {
        let (id, s2) = parsed_ident(s1);
        let end = more_segments(s, span, segments).1;
        lemma_more_segments(s2, span.cover(id.span), segments.push(id.value));
        if silent(s, end) {
            lemma_between(end, s2, s);
            lemma_parsed_ident_complete(s1);
            lemma_names_complete_push(segments, id.value);
            lemma_more_segments_complete(s2, span.cover(id.span), segments.push(id.value));
        }
    }
}

/// What the rule `parsed_qualified_ident` builds without a diagnostic is complete.
pub proof fn lemma_parsed_qualified_ident_complete(s: ParseState)
    requires
        s.wf(),
    ensures
        silent(s, parsed_qualified_ident(s).1) ==> names_complete(parsed_qualified_ident(s).0.value),
{
    reveal(parsed_qualified_ident);
    let (id, s1) = parsed_ident(s);
    let end = parsed_qualified_ident(s).1;
    lemma_more_segments(s1, id.span, seq![id.value]);
    if silent(s, end) {
        lemma_between(end, s1, s);
        lemma_parsed_ident_complete(s);
        lemma_more_segments_complete(s1, id.span, seq![id.value]);
    }
}

/// What the rule `idents_until` builds without a diagnostic is complete.
pub proof fn lemma_idents_until_complete(s: ParseState, until: Seq<TokenKind>, names: Seq<Ident>)
    requires
        s.wf(),
        names_complete(names),
    ensures
        silent(s, idents_until(s, until, names).1) ==> names_complete(
            idents_until(s, until, names).0,
        ),
    decreases s.remaining(),
{
    reveal(idents_until);
    if !until.contains(s.peek().value) {
        let (name, s1) = parsed_ident(s);
        let (comma, s2) = s1.consume(TokenKind::Comma);
        let end = idents_until(s, until, names).1;
        lemma_idents_until(s, until, names);
        if comma.value is Some {
            lemma_idents_until(s2, until, names.push(name.value));
        }
        if silent(s, end) {
            lemma_between(end, s1, s);
            lemma_parsed_ident_complete(s);
            lemma_names_complete_push(names, name.value);
            if comma.value is Some {
                lemma_idents_until_complete(s2, until, names.push(name.value));
            }
        }
    }
}

/// What the rule `types_until` builds without a diagnostic is complete.
pub proof fn lemma_types_until_complete(s: ParseState, until: Seq<TokenKind>, types: Seq<TypeView>)
    requires
        s.wf(),
        types_complete(types),
    ensures
        silent(s, types_until(s, until, types).1) ==> types_complete(types_until(s, until, types).0),
    decreases s.remaining(), 2nat,
{
    if !until.contains(s.peek().value) {
        lemma_parsed_ty(s);
        let (ty, s1) = parsed_ty(s);
        let (comma, s2) = s1.consume(TokenKind::Comma);
        let rest = if comma.value is Some {
            types_until(s2, until, types.push(ty))
        } else {
            (types.push(ty), s2)
        };
        assert(types_until(s, until, types) == rest) by {
            reveal(types_until);
            reveal(parsed_ty);
        }
        if comma.value is Some {
            lemma_types_until(s2, until, types.push(ty));
        }
        if silent(s, rest.1) {
            lemma_between(rest.1, s1, s);
            lemma_parsed_ty_complete(s);
            lemma_types_complete_push(types, ty);
            if comma.value is Some {
                lemma_types_until_complete(s2, until, types.push(ty));
            }
        }
    } else {
        reveal(types_until);
    }
}

/// What the rule `effects_until` builds without a diagnostic is complete.
pub proof fn lemma_effects_until_complete(
    s: ParseState,
    until: Seq<TokenKind>,
    effects: Seq<EffectView>,
)
    requires
        s.wf(),
        effects_complete(effects),
    ensures
        silent(s, effects_until(s, until, effects).1) ==> effects_complete(
            effects_until(s, until, effects).0,
        ),
    decreases s.remaining(), 3nat,
{
    if !until.contains(s.peek().value) {
        lemma_parsed_effect(s);
        let (effect, s1) = parsed_effect(s);
        let (comma, s2) = s1.consume(TokenKind::Comma);
        let rest = if comma.value is Some {
            effects_until(s2, until, effects.push(effect))
        } else {
            (effects.push(effect), s2)
        };
        assert(effects_until(s, until, effects) == rest) by {
            reveal(effects_until);
            reveal(parsed_effect);
        }
        if comma.value is Some {
            lemma_effects_until(s2, until, effects.push(effect));
        }
        if silent(s, rest.1) {
            lemma_between(rest.1, s1, s);
            lemma_parsed_effect_complete(s);
            lemma_effects_complete_push(effects, effect);
            if comma.value is Some {
                lemma_effects_until_complete(s2, until, effects.push(effect));
            }
        }
    } else {
        reveal(effects_until);
    }
}

/// What the rule `type_args` builds without a diagnostic is complete.
pub proof fn lemma_type_args_complete(s: ParseState)
    requires
        s.wf(),
    ensures
        silent(s, type_args(s).1) ==> types_complete(type_args(s).0),
    decreases s.remaining(), 0nat,
{
    let (open, s1) = s.consume(TokenKind::SquareL);
    if open.value is Some {
        lemma_types_until(s1, seq![TokenKind::SquareR], seq![]);
        let (args, s2) = types_until(s1, seq![TokenKind::SquareR], seq![]);
        let (_close, s3) = s2.expect(TokenKind::SquareR);
        assert(type_args(s) == (args, s3)) by {
            reveal(type_args);
            reveal(types_until);
        }
        if silent(s, s3) {
            lemma_between(s3, s2, s);
            lemma_between(s2, s1, s);
            lemma_types_until_complete(s1, seq![TokenKind::SquareR], seq![]);
        }
    } else {
        reveal(type_args);
    }
}

/// What the rule `effect_clause` builds without a diagnostic is complete.
pub proof fn lemma_effect_clause_complete(s: ParseState)
    requires
        s.wf(),
    ensures
        silent(s, effect_clause(s).1) ==> effects_complete(effect_clause(s).0),
    decreases s.remaining(), 0nat,
{
    let (slash, s1) = s.consume(TokenKind::Slash);
    if slash.value is Some {
        lemma_effects_until(s1, seq![TokenKind::Arrow], seq![]);
        let (effects, s2) = effects_until(s1, seq![TokenKind::Arrow], seq![]);
        assert(effect_clause(s) == (effects, s2)) by {
            reveal(effect_clause);
            reveal(effects_until);
        }
        if silent(s, s2) {
            lemma_between(s2, s1, s);
            lemma_effects_until_complete(s1, seq![TokenKind::Arrow], seq![]);
        }
    } else {
        reveal(effect_clause);
    }
}

/// What the rule `more_effects` builds without a diagnostic is complete.
pub proof fn lemma_more_effects_complete(s: ParseState, effects: Seq<EffectView>)
    requires
        s.wf(),
        effects_complete(effects),
    ensures
        silent(s, more_effects(s, effects).1) ==> effects_complete(more_effects(s, effects).0),
    decreases s.remaining(), 0nat,
{
    let (comma, s1) = s.consume(TokenKind::Comma);
    if comma.value is Some {
        lemma_parsed_effect(s1);
        let (effect, s2) = parsed_effect(s1);
        let rest = more_effects(s2, effects.push(effect));
        assert(more_effects(s, effects) == rest) by {
            reveal(more_effects);
            reveal(parsed_effect);
        }
        lemma_more_effects(s2, effects.push(effect));
        if silent(s, rest.1) {
            lemma_between(rest.1, s2, s);
            lemma_between(s2, s1, s);
            lemma_parsed_effect_complete(s1);
            lemma_effects_complete_push(effects, effect);
            lemma_more_effects_complete(s2, effects.push(effect));
        }
    } else {
        reveal(more_effects);
    }
}

/// What the rule `return_types` builds without a diagnostic is complete.
pub proof fn lemma_return_types_complete(s: ParseState)
    requires
        s.wf(),
    ensures
        silent(s, return_types(s).1) ==> match return_types(s).0 {
            Some(types) => types_complete(types),
            None => true,
        },
    decreases s.remaining(), 2nat,
{
    let next = s.peek().value;
    if next == TokenKind::Ident || next == TokenKind::CurlyL {
        lemma_parsed_ty(s);
        let (ty, s1) = parsed_ty(s);
        assert(return_types(s) == (Some(seq![ty]), s1)) by {
            reveal(return_types);
            reveal(parsed_ty);
        }
        lemma_parsed_ty_complete(s);
        if silent(s, s1) {
            assert(types_complete(seq![ty]));
        }
    } else if next == TokenKind::RoundL {
        let s1 = s.advance();
        lemma_types_until(s1, seq![TokenKind::RoundR], seq![]);
        let (args, s2) = types_until(s1, seq![TokenKind::RoundR], seq![]);
        let (_close, s3) = s2.expect(TokenKind::RoundR);
        let (slash, s4) = s3.consume(TokenKind::Slash);
        if slash.value is Some {
            lemma_effects_until(s4, seq![TokenKind::Arrow], seq![]);
            let (effects, s5) = effects_until(s4, seq![TokenKind::Arrow], seq![]);
            let (_arrow, s6) = s5.expect(TokenKind::Arrow);
            lemma_return_types(s6);
            let (ret, s7) = return_types(s6);
            let ty = TypeView::Continuation { args, ret, effects };
            assert(return_types(s) == (Some(seq![ty]), s7)) by {
                reveal(return_types);
                reveal(types_until);
                reveal(effects_until);
            }
            if silent(s, s7) {
                lemma_between(s7, s6, s);
                lemma_between(s6, s5, s);
                lemma_between(s5, s4, s);
                lemma_between(s4, s3, s);
                lemma_between(s3, s2, s);
                lemma_between(s2, s1, s);
                lemma_types_until_complete(s1, seq![TokenKind::RoundR], seq![]);
                lemma_effects_until_complete(s4, seq![TokenKind::Arrow], seq![]);
                lemma_return_types_complete(s6);
                assert(ty.complete());
                assert(types_complete(seq![ty]));
            }
        } else {
            let (arrow, s5) = s4.consume(TokenKind::Arrow);
            if arrow.value is Some {
                lemma_return_types(s5);
                let (ret, s6) = return_types(s5);
                let ty = TypeView::Continuation { args, ret, effects: seq![] };
                assert(return_types(s) == (Some(seq![ty]), s6)) by {
                    reveal(return_types);
                    reveal(types_until);
                }
                if silent(s, s6) {
                    lemma_between(s6, s5, s);
                    lemma_between(s5, s3, s);
                    lemma_between(s3, s2, s);
                    lemma_between(s2, s1, s);
                    lemma_types_until_complete(s1, seq![TokenKind::RoundR], seq![]);
                    lemma_return_types_complete(s5);
                    assert(ty.complete());
                    assert(types_complete(seq![ty]));
                }
            } else {
                assert(return_types(s) == (Some(args), s5)) by {
                    reveal(return_types);
                    reveal(types_until);
                }
                if silent(s, s5) {
                    lemma_between(s5, s2, s);
                    lemma_between(s2, s1, s);
                    lemma_types_until_complete(s1, seq![TokenKind::RoundR], seq![]);
                }
            }
        }
    } else {
        reveal(return_types);
    }
}

/// What the rule `parsed_ty` builds without a diagnostic is complete.
pub proof fn lemma_parsed_ty_complete(s: ParseState)
    requires
        s.wf(),
    ensures
        silent(s, parsed_ty(s).1) ==> parsed_ty(s).0.complete(),
    decreases s.remaining(), 1nat,
{
    let next = s.peek().value;
    if next == TokenKind::CurlyL {
        let s1 = s.advance();
        lemma_types_until(s1, seq![TokenKind::CurlyR], seq![]);
        let (ret, s2) = types_until(s1, seq![TokenKind::CurlyR], seq![]);
        let (_close, s3) = s2.expect(TokenKind::CurlyR);
        let (slash, s4) = s3.consume(TokenKind::Slash);
        if slash.value is Some {
            lemma_parsed_effect(s4);
            let (first, s5) = parsed_effect(s4);
            lemma_more_effects(s5, seq![first]);
            let (effects, s6) = more_effects(s5, seq![first]);
            assert(parsed_ty(s) == (TypeView::Closure { ret, effects }, s6)) by {
                reveal(parsed_ty);
                reveal(types_until);
                reveal(parsed_effect);
                reveal(more_effects);
            }
            if silent(s, s6) {
                lemma_between(s6, s5, s);
                lemma_between(s5, s4, s);
                lemma_between(s4, s3, s);
                lemma_between(s3, s2, s);
                lemma_between(s2, s1, s);
                lemma_types_until_complete(s1, seq![TokenKind::CurlyR], seq![]);
                lemma_parsed_effect_complete(s4);
                assert(effects_complete(seq![first]));
                lemma_more_effects_complete(s5, seq![first]);
            }
        } else {
            assert(parsed_ty(s) == (TypeView::Closure { ret, effects: seq![] }, s4)) by {
                reveal(parsed_ty);
                reveal(types_until);
            }
            if silent(s, s4) {
                lemma_between(s4, s2, s);
                lemma_between(s2, s1, s);
                lemma_types_until_complete(s1, seq![TokenKind::CurlyR], seq![]);
                assert(effects_complete(seq![]));
            }
        }
    } else if next == TokenKind::RoundL {
        let s1 = s.advance();
        lemma_types_until(s1, seq![TokenKind::RoundR], seq![]);
        let (args, s2) = types_until(s1, seq![TokenKind::RoundR], seq![]);
        let (_close, s3) = s2.expect(TokenKind::RoundR);
        lemma_effect_clause(s3);
        let (effects, s4) = effect_clause(s3);
        let (_arrow, s5) = s4.expect(TokenKind::Arrow);
        lemma_return_types(s5);
        let (ret, s6) = return_types(s5);
        assert(parsed_ty(s) == (TypeView::Continuation { args, ret, effects }, s6)) by {
            reveal(parsed_ty);
            reveal(types_until);
            reveal(effect_clause);
            reveal(return_types);
        }
        if silent(s, s6) {
            lemma_between(s6, s5, s);
            lemma_between(s5, s4, s);
            lemma_between(s4, s3, s);
            lemma_between(s3, s2, s);
            lemma_between(s2, s1, s);
            lemma_types_until_complete(s1, seq![TokenKind::RoundR], seq![]);
            lemma_effect_clause_complete(s3);
            lemma_return_types_complete(s5);
        }
    } else {
        let (name, s1) = parsed_qualified_ident(s);
        lemma_type_args(s1);
        let (args, s2) = type_args(s1);
        assert(parsed_ty(s) == (TypeView::Simple { name: name.value, args }, s2)) by {
            reveal(parsed_ty);
            reveal(type_args);
        }
        if silent(s, s2) {
            lemma_between(s2, s1, s);
            lemma_parsed_qualified_ident_complete(s);
            lemma_type_args_complete(s1);
        }
    }
}

/// What the rule `effect_chain` builds without a diagnostic is complete.
pub proof fn lemma_effect_chain_complete(s: ParseState, earlier: Seq<EffectView>)
    requires
        s.wf(),
        effects_complete(earlier),
    ensures
        silent(s, effect_chain(s, earlier).1) ==> effect_chain(s, earlier).0.complete(),
    decreases s.remaining(), 1nat,
{
    let (name, s1) = parsed_qualified_ident(s);
    lemma_type_args(s1);
    let (args, s2) = type_args(s1);
    let more = s2.peek().value == TokenKind::Ident && s2.remaining() < s.remaining();
    let effect = EffectView { name: name.value, args, meta_effects: seq![] };
    let rest = if more {
        effect_chain(s2, earlier.push(effect))
    } else {
        (EffectView { name: name.value, args, meta_effects: earlier }, s2)
    };
    assert(effect_chain(s, earlier) == rest) by {
        reveal(effect_chain);
        reveal(type_args);
    }
    if more {
        lemma_effect_chain(s2, earlier.push(effect));
    }
    if silent(s, rest.1) {
        lemma_between(rest.1, s2, s);
        lemma_between(s2, s1, s);
        lemma_parsed_qualified_ident_complete(s);
        lemma_type_args_complete(s1);
        if more {
            assert(effects_complete(seq![]));
            assert(effect.complete());
            lemma_effects_complete_push(earlier, effect);
            lemma_effect_chain_complete(s2, earlier.push(effect));
        }
    }
}

/// What the rule `parsed_effect` builds without a diagnostic is complete.
pub proof fn lemma_parsed_effect_complete(s: ParseState)
    requires
        s.wf(),
    ensures
        silent(s, parsed_effect(s).1) ==> parsed_effect(s).0.complete(),
    decreases s.remaining(), 2nat,
{
    assert(parsed_effect(s) == effect_chain(s, seq![])) by {
        reveal(parsed_effect);
        reveal(effect_chain);
    }
    assert(effects_complete(seq![]));
    lemma_effect_chain_complete(s, seq![]);
}

/// A name with its type that was read without a diagnostic is there and
/// complete.
pub proof fn lemma_parsed_name_and_type_complete(s: ParseState)
    requires
        s.wf(),
    ensures
        silent(s, parsed_name_and_type(s).1) ==> match parsed_name_and_type(s).0.value {
            Some(pair) => pair.complete(),
            None => false,
        },
{
    let (name, s1) = parsed_ident(s);
    let (colon, s2) = s1.expect(TokenKind::Colon);
    if colon.value is None {
        assert(parsed_name_and_type(s).1 == s2) by {
            reveal(parsed_name_and_type);
        }
        if silent(s, s2) {
            lemma_between(s2, s1, s);
        }
    } else {
        lemma_parsed_ty(s2);
        let (ty, s3) = parsed_ty(s2);
        assert(parsed_name_and_type(s) == (
            Spanned { span: name.span, value: Some(TypedIdentView { name: name.value, ty }) },
            s3,
        )) by {
            reveal(parsed_name_and_type);
        }
        if silent(s, s3) {
            lemma_between(s3, s2, s);
            lemma_between(s2, s1, s);
            lemma_parsed_ident_complete(s);
            lemma_parsed_ty_complete(s2);
        }
    }
}

/// Whether each of the pairs is there and complete.
pub open spec fn pairs_complete(pairs: Seq<Option<TypedIdentView>>) -> bool {
    forall|i: int|
        0 <= i < pairs.len() ==> match #[trigger] pairs[i] {
            Some(pair) => pair.complete(),
            None => false,
        }
}

/// The pairs of a list in which each pair is there and complete are
/// complete.
pub proof fn lemma_all_or_nothing_complete(pairs: Seq<Option<TypedIdentView>>)
    requires
        pairs_complete(pairs),
    ensures
        all_there(pairs),
        typed_idents_complete(all_or_nothing(pairs)),
{
    assert forall|i: int| 0 <= i < pairs.len() implies (#[trigger] pairs[i]) is Some by {}
    assert forall|i: int| 0 <= i < all_or_nothing(pairs).len() implies (#[trigger] all_or_nothing(
        pairs,
    )[i]).complete() by {
        assert(pairs[i] is Some);
    }
}

/// What the rule `typed_idents_until` builds without a diagnostic is complete.
pub proof fn lemma_typed_idents_until_complete(
    s: ParseState,
    until: Seq<TokenKind>,
    pairs: Seq<Option<TypedIdentView>>,
)
    requires
        s.wf(),
        pairs_complete(pairs),
    ensures
        silent(s, typed_idents_until(s, until, pairs).1) ==> pairs_complete(
            typed_idents_until(s, until, pairs).0,
        ),
    decreases s.remaining(),
{
    reveal(typed_idents_until);
    if !until.contains(s.peek().value) {
        lemma_parsed_name_and_type(s);
        let (pair, s1) = parsed_name_and_type(s);
        let (comma, s2) = s1.consume(TokenKind::Comma);
        let end = typed_idents_until(s, until, pairs).1;
        if comma.value is Some {
            lemma_typed_idents_until(s2, until, pairs.push(pair.value));
        }
        if silent(s, end) {
            lemma_between(end, s1, s);
            lemma_parsed_name_and_type_complete(s);
            let longer = pairs.push(pair.value);
            assert forall|i: int| 0 <= i < longer.len() implies match #[trigger] longer[i] {
                Some(pair) => pair.complete(),
                None => false,
            } by {
                if i < pairs.len() {
                    assert(longer[i] == pairs[i]);
                }
            }
            if comma.value is Some {
                lemma_typed_idents_until_complete(s2, until, longer);
            }
        }
    }
}

/// What the rule `generic_params` builds without a diagnostic is complete.
pub proof fn lemma_generic_params_complete(s: ParseState)
    requires
        s.wf(),
    ensures
        silent(s, generic_params(s).1) ==> names_complete(generic_params(s).0.0) && names_complete(
            generic_params(s).0.1,
        ),
{
    reveal(generic_params);
    let (open, s1) = s.consume(TokenKind::SquareL);
    if open.value is Some {
        let first_until = seq![TokenKind::SquareR, TokenKind::Pipe];
        lemma_idents_until(s1, first_until, seq![]);
        let (type_params, s2) = idents_until(s1, first_until, seq![]);
        let (pipe, s3) = s2.consume(TokenKind::Pipe);
        if pipe.value is Some {
            lemma_idents_until(s3, seq![TokenKind::SquareR], seq![]);
            let (effect_params, s4) = idents_until(s3, seq![TokenKind::SquareR], seq![]);
            let (_close, s5) = s4.expect(TokenKind::SquareR);
            if silent(s, s5) {
                lemma_between(s5, s4, s);
                lemma_between(s4, s2, s);
                lemma_idents_until_complete(s1, first_until, seq![]);
                lemma_idents_until_complete(s3, seq![TokenKind::SquareR], seq![]);
            }
        } else {
            let (_close, s4) = s3.expect(TokenKind::SquareR);
            if silent(s, s4) {
                lemma_between(s4, s2, s);
                lemma_idents_until_complete(s1, first_until, seq![]);
            }
        }
    }
}

/// What the rule `returned` builds without a diagnostic is complete.
pub proof fn lemma_returned_complete(s: ParseState)
    requires
        s.wf(),
    ensures
        silent(s, returned(s).1) ==> match returned(s).0 {
            Some(types) => types_complete(types),
            None => true,
        },
{
    reveal(returned);
    lemma_return_types(s);
    lemma_return_types_complete(s);
}

/// What the rule `parsed_function_header` builds without a diagnostic is complete.
pub proof fn lemma_parsed_function_header_complete(s: ParseState)
    requires
        s.wf(),
    ensures
        silent(s, parsed_function_header(s).1) ==> parsed_function_header(s).0.complete(),
{
    let (_fn, s1) = s.expect(TokenKind::Fn);
    let (name, s2) = parsed_ident(s1);
    lemma_generic_params(s2);
    let ((type_params, effect_params), s3) = generic_params(s2);
    let (_open, s4) = s3.expect(TokenKind::RoundL);
    lemma_typed_idents_until(s4, seq![TokenKind::RoundR], seq![]);
    let (params, s5) = typed_idents_until(s4, seq![TokenKind::RoundR], seq![]);
    let (_close, s6) = s5.expect(TokenKind::RoundR);
    lemma_effect_clause(s6);
    let (effects, s7) = effect_clause(s6);
    let (_arrow, s8) = s7.expect(TokenKind::Arrow);
    lemma_returned(s8);
    let (ret, s9) = returned(s8);
    let header = FunctionHeaderView {
        name: name.value,
        type_params,
        effect_params,
        params: all_or_nothing(params),
        effects,
        ret,
    };
    assert(parsed_function_header(s) == (header, s9)) by {
        reveal(parsed_function_header);
    }
    if silent(s, s9) {
        lemma_between(s9, s8, s);
        lemma_between(s8, s7, s);
        lemma_between(s7, s6, s);
        lemma_between(s6, s5, s);
        lemma_between(s5, s4, s);
        lemma_between(s4, s3, s);
        lemma_between(s3, s2, s);
        lemma_between(s2, s1, s);
        lemma_parsed_ident_complete(s1);
        lemma_generic_params_complete(s2);
        lemma_typed_idents_until_complete(s4, seq![TokenKind::RoundR], seq![]);
        lemma_all_or_nothing_complete(params);
        lemma_effect_clause_complete(s6);
        lemma_returned_complete(s8);
    }
}

/// What the rule `parsed_unary_expr` builds without a diagnostic is complete.
pub proof fn lemma_parsed_unary_expr_complete(s: ParseState)
    requires
        s.wf(),
    ensures
        silent(s, parsed_unary_expr(s).1) ==> parsed_unary_expr(s).0.complete(),
    decreases s.remaining(), 0nat,
{
    let token = s.peek();
    match token.value {
        TokenKind::RoundL => {
            let s1 = s.advance();
            lemma_parsed_block_expr(s1);
            let (expr, s2) = parsed_block_expr(s1);
            let (_close, s3) = s2.expect(TokenKind::RoundR);
            assert(parsed_unary_expr(s) == (expr, s3)) by {
                reveal(parsed_unary_expr);
                reveal(parsed_block_expr);
            }
            if silent(s, s3) {
                lemma_between(s3, s2, s);
                lemma_parsed_block_expr_complete(s1);
            }
        },
        TokenKind::Ident => {
            reveal(parsed_unary_expr);
            lemma_parsed_qualified_ident_complete(s);
        },
        TokenKind::Number | TokenKind::BasePrefixNumber => {
            reveal(parsed_unary_expr);
            lemma_parsed_integer_complete(s);
        },
        TokenKind::Return | TokenKind::CC => {
            reveal(parsed_unary_expr);
        },
        _ => {
            reveal(parsed_unary_expr);
            lemma_report_is_heard(s, Code::Unexpected, token.span, token.value.text());
        },
    }
}

/// What the rule `postfix` builds without a diagnostic is complete.
pub proof fn lemma_postfix_complete(s: ParseState, expr: ExprView)
    requires
        s.wf(),
        expr.complete(),
    ensures
        silent(s, postfix(s, expr).1) ==> postfix(s, expr).0.complete(),
    decreases s.remaining(), 0nat,
{
    let (op, s1) = s.consume_one_of(seq![TokenKind::RoundL, TokenKind::Dot]);
    if op.value == Some(TokenKind::Dot) {
        let (member, s2) = parsed_ident(s1);
        let wider = ExprView::Member { recv: Box::new(expr), member: member.value };
        assert(postfix(s, expr) == postfix(s2, wider)) by {
            reveal(postfix);
        }
        lemma_postfix(s2, wider);
        if silent(s, postfix(s2, wider).1) {
            lemma_between(postfix(s2, wider).1, s2, s);
            lemma_parsed_ident_complete(s1);
            lemma_postfix_complete(s2, wider);
        }
    } else if op.value == Some(TokenKind::RoundL) {
        lemma_exprs_until(s1, seq![TokenKind::RoundR], seq![]);
        let (args, s2) = exprs_until(s1, seq![TokenKind::RoundR], seq![]);
        let (_close, s3) = s2.expect(TokenKind::RoundR);
        let wider = ExprView::Call { func: Box::new(expr), args };
        assert(postfix(s, expr) == postfix(s3, wider)) by {
            reveal(postfix);
            reveal(exprs_until);
        }
        lemma_postfix(s3, wider);
        if silent(s, postfix(s3, wider).1) {
            lemma_between(postfix(s3, wider).1, s3, s);
            lemma_between(s3, s2, s);
            assert(exprs_complete(seq![]));
            lemma_exprs_until_complete(s1, seq![TokenKind::RoundR], seq![]);
            lemma_postfix_complete(s3, wider);
        }
    } else {
        reveal(postfix);
    }
}

/// What the rule `parsed_free_binary_expr` builds without a diagnostic is complete.
pub proof fn lemma_parsed_free_binary_expr_complete(s: ParseState)
    requires
        s.wf(),
    ensures
        silent(s, parsed_free_binary_expr(s).1) ==> parsed_free_binary_expr(s).0.complete(),
    decreases s.remaining(), 1nat,
{
    lemma_parsed_unary_expr(s);
    let (expr, s1) = parsed_unary_expr(s);
    assert(parsed_free_binary_expr(s) == postfix(s1, expr)) by {
        reveal(parsed_free_binary_expr);
        reveal(parsed_unary_expr);
        reveal(postfix);
    }
    lemma_postfix(s1, expr);
    if silent(s, postfix(s1, expr).1) {
        lemma_between(postfix(s1, expr).1, s1, s);
        lemma_parsed_unary_expr_complete(s);
        lemma_postfix_complete(s1, expr);
    }
}

/// What the rule `more_operands` builds without a diagnostic is complete.
pub proof fn lemma_more_operands_complete(s: ParseState, op_token: TokenKind, operands: Seq<ExprView>)
    requires
        s.wf(),
        exprs_complete(operands),
    ensures
        silent(s, more_operands(s, op_token, operands).1) ==> exprs_complete(
            more_operands(s, op_token, operands).0,
        ),
    decreases s.remaining(), 0nat,
{
    let (op, s1) = s.consume(op_token);
    if op.value is Some && s1.remaining() < s.remaining() {
        lemma_parsed_free_binary_expr(s1);
        let (operand, s2) = parsed_free_binary_expr(s1);
        let rest = more_operands(s2, op_token, operands.push(operand));
        assert(more_operands(s, op_token, operands) == rest) by {
            reveal(more_operands);
            reveal(parsed_free_binary_expr);
        }
        lemma_more_operands(s2, op_token, operands.push(operand));
        if silent(s, rest.1) {
            lemma_between(rest.1, s2, s);
            lemma_parsed_free_binary_expr_complete(s1);
            lemma_exprs_complete_push(operands, operand);
            lemma_more_operands_complete(s2, op_token, operands.push(operand));
        }
    } else {
        reveal(more_operands);
    }
}

/// What the rule `parsed_binary_expr` builds without a diagnostic is complete.
pub proof fn lemma_parsed_binary_expr_complete(s: ParseState)
    requires
        s.wf(),
    ensures
        silent(s, parsed_binary_expr(s).1) ==> parsed_binary_expr(s).0.complete(),
    decreases s.remaining(), 2nat,
{
    lemma_parsed_free_binary_expr(s);
    let (expr, s1) = parsed_free_binary_expr(s);
    let op_token = s1.peek().value;
    match Operator::of_token(op_token) {
        None => {
            assert(parsed_binary_expr(s) == (expr, s1)) by {
                reveal(parsed_binary_expr);
                reveal(parsed_free_binary_expr);
            }
            lemma_parsed_free_binary_expr_complete(s);
        },
        Some(op) => {
            let s2 = s1.advance();
            lemma_parsed_free_binary_expr(s2);
            let (rhs, s3) = parsed_free_binary_expr(s2);
            let first = seq![expr, rhs];
            lemma_more_operands(s3, op_token, first);
            let (operands, s4) = more_operands(s3, op_token, first);
            assert(parsed_binary_expr(s) == (
                ExprView::Binary { op: op.in_tree(), operands },
                s4,
            )) by {
                reveal(parsed_binary_expr);
                reveal(parsed_free_binary_expr);
                reveal(more_operands);
            }
            if silent(s, s4) {
                lemma_between(s4, s3, s);
                lemma_between(s3, s1, s);
                lemma_parsed_free_binary_expr_complete(s);
                lemma_parsed_free_binary_expr_complete(s2);
                assert(exprs_complete(first));
                lemma_more_operands_complete(s3, op_token, first);
            }
        },
    }
}

/// What the rule `binary_exprs_until` builds without a diagnostic is complete.
pub proof fn lemma_binary_exprs_until_complete(
    s: ParseState,
    until: Seq<TokenKind>,
    exprs: Seq<ExprView>,
)
    requires
        s.wf(),
        exprs_complete(exprs),
    ensures
        silent(s, binary_exprs_until(s, until, exprs).1) ==> exprs_complete(
            binary_exprs_until(s, until, exprs).0,
        ),
    decreases s.remaining(), 3nat,
{
    if !until.contains(s.peek().value) {
        lemma_parsed_binary_expr(s);
        let (expr, s1) = parsed_binary_expr(s);
        let (comma, s2) = s1.consume(TokenKind::Comma);
        let rest = if comma.value is Some {
            binary_exprs_until(s2, until, exprs.push(expr))
        } else {
            (exprs.push(expr), s2)
        };
        assert(binary_exprs_until(s, until, exprs) == rest) by {
            reveal(binary_exprs_until);
            reveal(parsed_binary_expr);
        }
        if comma.value is Some {
            lemma_binary_exprs_until(s2, until, exprs.push(expr));
        }
        if silent(s, rest.1) {
            lemma_between(rest.1, s1, s);
            lemma_parsed_binary_expr_complete(s);
            lemma_exprs_complete_push(exprs, expr);
            if comma.value is Some {
                lemma_binary_exprs_until_complete(s2, until, exprs.push(expr));
            }
        }
    } else {
        reveal(binary_exprs_until);
    }
}

/// What the rule `exprs_until` builds without a diagnostic is complete.
pub proof fn lemma_exprs_until_complete(s: ParseState, until: Seq<TokenKind>, exprs: Seq<ExprView>)
    requires
        s.wf(),
        exprs_complete(exprs),
    ensures
        silent(s, exprs_until(s, until, exprs).1) ==> exprs_complete(exprs_until(s, until, exprs).0),
    decreases s.remaining(), 5nat,
{
    if !until.contains(s.peek().value) {
        lemma_parsed_block_expr(s);
        let (expr, s1) = parsed_block_expr(s);
        let (comma, s2) = s1.consume(TokenKind::Comma);
        let rest = if comma.value is Some {
            exprs_until(s2, until, exprs.push(expr))
        } else {
            (exprs.push(expr), s2)
        };
        assert(exprs_until(s, until, exprs) == rest) by {
            reveal(exprs_until);
            reveal(parsed_block_expr);
        }
        if comma.value is Some {
            lemma_exprs_until(s2, until, exprs.push(expr));
        }
        if silent(s, rest.1) {
            lemma_between(rest.1, s1, s);
            lemma_parsed_block_expr_complete(s);
            lemma_exprs_complete_push(exprs, expr);
            if comma.value is Some {
                lemma_exprs_until_complete(s2, until, exprs.push(expr));
            }
        }
    } else {
        reveal(exprs_until);
    }
}

/// What the rule `parsed_closure_body` builds without a diagnostic is complete.
pub proof fn lemma_parsed_closure_body_complete(s: ParseState)
    requires
        s.wf(),
    ensures
        silent(s, parsed_closure_body(s).1) ==> parsed_closure_body(s).0.complete(),
    decreases s.remaining(), 7nat,
{
    let block_end = seq![TokenKind::CurlyR];
    if s.peek2().value == TokenKind::Colon {
        lemma_typed_idents_until(s, seq![TokenKind::Arrow], seq![]);
        let (params, s1) = typed_idents_until(s, seq![TokenKind::Arrow], seq![]);
        let (_arrow, s2) = s1.expect(TokenKind::Arrow);
        lemma_stmts_until(s2, block_end, seq![]);
        let (stmts, s3) = stmts_until(s2, block_end, seq![]);
        assert(parsed_closure_body(s) == (
            ExprView::Closure { params: all_or_nothing(params), stmts },
            s3,
        )) by {
            reveal(parsed_closure_body);
            reveal(stmts_until);
        }
        if silent(s, s3) {
            lemma_between(s3, s2, s);
            lemma_between(s2, s1, s);
            lemma_typed_idents_until_complete(s, seq![TokenKind::Arrow], seq![]);
            lemma_all_or_nothing_complete(params);
            assert(statements_complete(seq![]));
            lemma_stmts_until_complete(s2, block_end, seq![]);
        }
    } else {
        lemma_stmts_until(s, block_end, seq![]);
        let (stmts, s1) = stmts_until(s, block_end, seq![]);
        assert(parsed_closure_body(s) == (ExprView::Closure { params: seq![], stmts }, s1)) by {
            reveal(parsed_closure_body);
            reveal(stmts_until);
        }
        assert(statements_complete(seq![]));
        assert(typed_idents_complete(seq![]));
        lemma_stmts_until_complete(s, block_end, seq![]);
    }
}

/// What the rule `parsed_braced_block` builds without a diagnostic is complete.
pub proof fn lemma_parsed_braced_block_complete(s: ParseState)
    requires
        s.wf(),
    ensures
        silent(s, parsed_braced_block(s).1) ==> statements_complete(parsed_braced_block(s).0),
    decreases s.remaining(), 7nat,
{
    let block_end = seq![TokenKind::CurlyR];
    let (_open, s1) = s.expect(TokenKind::CurlyL);
    lemma_stmts_until(s1, block_end, seq![]);
    let (stmts, s2) = stmts_until(s1, block_end, seq![]);
    let (_close, s3) = s2.expect(TokenKind::CurlyR);
    assert(parsed_braced_block(s) == (stmts, s3)) by {
        reveal(parsed_braced_block);
        reveal(stmts_until);
    }
    if silent(s, s3) {
        lemma_between(s3, s2, s);
        lemma_between(s2, s1, s);
        assert(statements_complete(seq![]));
        lemma_stmts_until_complete(s1, block_end, seq![]);
    }
}

/// What the rule `parsed_case` builds without a diagnostic is complete.
pub proof fn lemma_parsed_case_complete(s: ParseState)
    requires
        s.wf(),
    ensures
        silent(s, parsed_case(s).1) ==> parsed_case(s).0.complete(),
    decreases s.remaining(), 11nat,
{
    lemma_parsed_binary_expr(s);
    let (condition, s1) = parsed_binary_expr(s);
    lemma_parsed_braced_block(s1);
    let (then_body, s2) = parsed_braced_block(s1);
    assert(parsed_case(s) == (ConditionalView { condition, then_body }, s2)) by {
        reveal(parsed_case);
        reveal(parsed_binary_expr);
        reveal(parsed_braced_block);
    }
    if silent(s, s2) {
        lemma_between(s2, s1, s);
        lemma_parsed_binary_expr_complete(s);
        lemma_parsed_braced_block_complete(s1);
    }
}

/// What the rule `ladder` builds without a diagnostic is complete.
pub proof fn lemma_ladder_complete(s: ParseState, cases: Seq<ConditionalView>)
    requires
        s.wf(),
        cases_complete(cases),
    ensures
        silent(s, ladder(s, cases).1) ==> ladder(s, cases).0.complete(),
    decreases s.remaining(), 12nat,
{
    lemma_parsed_case(s);
    let (case, s1) = parsed_case(s);
    let rest = ladder_end(s1, cases.push(case));
    assert(ladder(s, cases) == rest) by {
        reveal(ladder);
        reveal(parsed_case);
        reveal(ladder_end);
    }
    lemma_ladder_end(s1, cases.push(case));
    if silent(s, rest.1) {
        lemma_between(rest.1, s1, s);
        lemma_parsed_case_complete(s);
        lemma_cases_complete_push(cases, case);
        lemma_ladder_end_complete(s1, cases.push(case));
    }
}

/// What the rule `ladder_end` builds without a diagnostic is complete.
pub proof fn lemma_ladder_end_complete(s: ParseState, cases: Seq<ConditionalView>)
    requires
        s.wf(),
        cases_complete(cases),
    ensures
        silent(s, ladder_end(s, cases).1) ==> ladder_end(s, cases).0.complete(),
    decreases s.remaining(), 8nat,
{
    let (otherwise, s1) = s.consume(TokenKind::Else);
    if otherwise.value is None {
        reveal(ladder_end);
        assert(statements_complete(seq![]));
    } else {
        let (again, s2) = s1.consume(TokenKind::If);
        if again.value is None {
            lemma_parsed_braced_block(s2);
            let (final_else, s3) = parsed_braced_block(s2);
            assert(ladder_end(s, cases) == (ExprView::Conditional { cases, final_else }, s3)) by {
                reveal(ladder_end);
                reveal(parsed_braced_block);
            }
            lemma_parsed_braced_block_complete(s2);
        } else {
            assert(ladder_end(s, cases) == ladder(s2, cases)) by {
                reveal(ladder_end);
                reveal(ladder);
            }
            lemma_ladder_complete(s2, cases);
        }
    }
}

/// What the rule `parsed_do` builds without a diagnostic is complete.
pub proof fn lemma_parsed_do_complete(s: ParseState)
    requires
        s.wf(),
    ensures
        silent(s, parsed_do(s).1) ==> parsed_do(s).0.complete(),
    decreases s.remaining(), 11nat,
{
    lemma_parsed_braced_block(s);
    let (stmts, s1) = parsed_braced_block(s);
    let (with, s2) = s1.consume(TokenKind::With);
    if with.value is None {
        assert(parsed_do(s) == (ExprView::Do { stmts }, s2)) by {
            reveal(parsed_do);
            reveal(parsed_braced_block);
        }
        lemma_parsed_braced_block_complete(s);
    } else {
        lemma_parsed_block_expr(s2);
        let (handler, s3) = parsed_block_expr(s2);
        assert(parsed_do(s) == (ExprView::DoWith { stmts, handler: Box::new(handler) }, s3)) by {
            reveal(parsed_do);
            reveal(parsed_braced_block);
            reveal(parsed_block_expr);
        }
        if silent(s, s3) {
            lemma_between(s3, s2, s);
            lemma_parsed_braced_block_complete(s);
            lemma_parsed_block_expr_complete(s2);
        }
    }
}

/// What the rule `parsed_handler` builds without a diagnostic is complete.
pub proof fn lemma_parsed_handler_complete(s: ParseState)
    requires
        s.wf(),
    ensures
        silent(s, parsed_handler(s).1) ==> parsed_handler(s).0.complete(),
    decreases s.remaining(), 11nat,
{
    lemma_effects_until(s, seq![TokenKind::CurlyL], seq![]);
    let (impl_effects, s1) = effects_until(s, seq![TokenKind::CurlyL], seq![]);
    let (_open, s2) = s1.expect(TokenKind::CurlyL);
    lemma_items_until(s2, seq![TokenKind::CurlyR], seq![]);
    let (items, s3) = items_until(s2, seq![TokenKind::CurlyR], seq![]);
    let (_close, s4) = s3.expect(TokenKind::CurlyR);
    assert(parsed_handler(s) == (ExprView::Handler { impl_effects, items }, s4)) by {
        reveal(parsed_handler);
        reveal(items_until);
    }
    if silent(s, s4) {
        lemma_between(s4, s3, s);
        lemma_between(s3, s2, s);
        lemma_between(s2, s1, s);
        assert(effects_complete(seq![]));
        assert(items_complete(seq![]));
        lemma_effects_until_complete(s, seq![TokenKind::CurlyL], seq![]);
        lemma_items_until_complete(s2, seq![TokenKind::CurlyR], seq![]);
    }
}

/// A call with a trailing block is complete where the expression and the
/// block are.
pub proof fn lemma_block_call_complete(expr: ExprView, block: ExprView)
    requires
        expr.complete(),
        block.complete(),
    ensures
        block_call(expr, block).complete(),
{
    reveal_with_fuel(ExprView::complete, 2);
    match expr {
        ExprView::Call { func, args } => {
            lemma_exprs_complete_push(args, block);
        },
        _ => {
            assert(exprs_complete(seq![block]));
        },
    }
}

/// What the rule `parsed_block_call` builds without a diagnostic is complete.
pub proof fn lemma_parsed_block_call_complete(s: ParseState)
    requires
        s.wf(),
    ensures
        silent(s, parsed_block_call(s).1) ==> parsed_block_call(s).0.complete(),
    decreases s.remaining(), 3nat,
{
    lemma_parsed_binary_expr(s);
    let (expr, s1) = parsed_binary_expr(s);
    if expr is Binary {
        assert(parsed_block_call(s) == (expr, s1)) by {
            reveal(parsed_block_call);
            reveal(parsed_binary_expr);
        }
        lemma_parsed_binary_expr_complete(s);
    } else {
        let (open, s2) = s1.consume(TokenKind::CurlyL);
        if open.value is Some {
            lemma_parsed_closure_body(s2);
            let (block, s3) = parsed_closure_body(s2);
            let (_close, s4) = s3.expect(TokenKind::CurlyR);
            assert(parsed_block_call(s) == (block_call(expr, block), s4)) by {
                reveal(parsed_block_call);
                reveal(parsed_binary_expr);
                reveal(parsed_closure_body);
            }
            if silent(s, s4) {
                lemma_between(s4, s3, s);
                lemma_between(s3, s1, s);
                lemma_parsed_binary_expr_complete(s);
                lemma_parsed_closure_body_complete(s2);
                lemma_block_call_complete(expr, block);
            }
        } else {
            assert(parsed_block_call(s) == (expr, s2)) by {
                reveal(parsed_block_call);
                reveal(parsed_binary_expr);
            }
            lemma_parsed_binary_expr_complete(s);
        }
    }
}

/// What the rule `parsed_block_expr` builds without a diagnostic is complete.
pub proof fn lemma_parsed_block_expr_complete(s: ParseState)
    requires
        s.wf(),
    ensures
        silent(s, parsed_block_expr(s).1) ==> parsed_block_expr(s).0.complete(),
    decreases s.remaining(), 4nat,
{
    match s.peek().value {
        TokenKind::If => {
            assert(parsed_block_expr(s) == ladder(s.advance(), seq![])) by {
                reveal(parsed_block_expr);
                reveal(ladder);
            }
            assert(cases_complete(seq![]));
            lemma_ladder_complete(s.advance(), seq![]);
        },
        TokenKind::Do => {
            assert(parsed_block_expr(s) == parsed_do(s.advance())) by {
                reveal(parsed_block_expr);
                reveal(parsed_do);
            }
            lemma_parsed_do_complete(s.advance());
        },
        TokenKind::CurlyL => {
            let s1 = s.advance();
            lemma_parsed_closure_body(s1);
            let (closure, s2) = parsed_closure_body(s1);
            let (_close, s3) = s2.expect(TokenKind::CurlyR);
            assert(parsed_block_expr(s) == (closure, s3)) by {
                reveal(parsed_block_expr);
                reveal(parsed_closure_body);
            }
            if silent(s, s3) {
                lemma_between(s3, s2, s);
                lemma_parsed_closure_body_complete(s1);
            }
        },
        TokenKind::Handle => {
            assert(parsed_block_expr(s) == parsed_handler(s.advance())) by {
                reveal(parsed_block_expr);
                reveal(parsed_handler);
            }
            lemma_parsed_handler_complete(s.advance());
        },
        _ => {
            assert(parsed_block_expr(s) == parsed_block_call(s)) by {
                reveal(parsed_block_expr);
                reveal(parsed_block_call);
            }
            lemma_parsed_block_call_complete(s);
        },
    }
}

/// What the rule `parsed_stmt` builds without a diagnostic is complete.
pub proof fn lemma_parsed_stmt_complete(s: ParseState)
    requires
        s.wf(),
    ensures
        silent(s, parsed_stmt(s).1) ==> parsed_stmt(s).0.complete(),
    decreases s.remaining(), 5nat,
{
    match s.peek().value {
        TokenKind::Colon => {
            let s1 = s.advance();
            lemma_parsed_free_binary_expr(s1);
            let (cont, s2) = parsed_free_binary_expr(s1);
            lemma_binary_exprs_until(s2, seq![TokenKind::Semi], seq![]);
            let (args, s3) = binary_exprs_until(s2, seq![TokenKind::Semi], seq![]);
            let (_semi, s4) = s3.expect(TokenKind::Semi);
            assert(parsed_stmt(s) == (StatementView::Continue { cont, args }, s4)) by {
                reveal(parsed_stmt);
                reveal(parsed_free_binary_expr);
                reveal(binary_exprs_until);
            }
            if silent(s, s4) {
                lemma_between(s4, s3, s);
                lemma_between(s3, s2, s);
                lemma_parsed_free_binary_expr_complete(s1);
                assert(exprs_complete(seq![]));
                lemma_binary_exprs_until_complete(s2, seq![TokenKind::Semi], seq![]);
            }
        },
        TokenKind::Let => {
            let s1 = s.advance();
            lemma_typed_idents_until(s1, seq![TokenKind::Equals], seq![]);
            let (bindings, s2) = typed_idents_until(s1, seq![TokenKind::Equals], seq![]);
            let (_equals, s3) = s2.expect(TokenKind::Equals);
            lemma_parsed_block_expr(s3);
            let (init, s4) = parsed_block_expr(s3);
            let (_semi, s5) = s4.expect(TokenKind::Semi);
            assert(parsed_stmt(s) == (
                StatementView::Let { bindings: all_or_nothing(bindings), init },
                s5,
            )) by {
                reveal(parsed_stmt);
                reveal(parsed_block_expr);
            }
            if silent(s, s5) {
                lemma_between(s5, s4, s);
                lemma_between(s4, s3, s);
                lemma_between(s3, s2, s);
                lemma_typed_idents_until_complete(s1, seq![TokenKind::Equals], seq![]);
                lemma_all_or_nothing_complete(bindings);
                lemma_parsed_block_expr_complete(s3);
            }
        },
        _ => {
            lemma_parsed_block_expr(s);
            let (expr, s1) = parsed_block_expr(s);
            let (semi, s2) = s1.consume(TokenKind::Semi);
            assert(parsed_stmt(s).1 == s2 && (parsed_stmt(s).0 == StatementView::BlockExpr(expr)
                || parsed_stmt(s).0 == StatementView::Expr(expr) || parsed_stmt(s).0
                == StatementView::BlockEndExpr(expr))) by {
                reveal(parsed_stmt);
                reveal(parsed_block_expr);
            }
            lemma_parsed_block_expr_complete(s);
        },
    }
}

/// What the rule `stmts_until` builds without a diagnostic is complete.
pub proof fn lemma_stmts_until_complete(
    s: ParseState,
    until: Seq<TokenKind>,
    stmts: Seq<StatementView>,
)
    requires
        s.wf(),
        statements_complete(stmts),
    ensures
        silent(s, stmts_until(s, until, stmts).1) ==> statements_complete(
            stmts_until(s, until, stmts).0,
        ),
    decreases s.remaining(), 6nat,
{
    let next = s.peek().value;
    if !(next == TokenKind::Eof || until.contains(next)) {
        lemma_parsed_stmt(s);
        let (stmt, s1) = parsed_stmt(s);
        let rest = stmts_until(s1, until, stmts.push(stmt));
        assert(stmts_until(s, until, stmts) == rest) by {
            reveal(stmts_until);
            reveal(parsed_stmt);
        }
        lemma_stmts_until(s1, until, stmts.push(stmt));
        if silent(s, rest.1) {
            lemma_between(rest.1, s1, s);
            lemma_parsed_stmt_complete(s);
            lemma_statements_complete_push(stmts, stmt);
            lemma_stmts_until_complete(s1, until, stmts.push(stmt));
        }
    } else {
        reveal(stmts_until);
    }
}

/// What the rule `parsed_function` builds without a diagnostic is complete.
pub proof fn lemma_parsed_function_complete(s: ParseState)
    requires
        s.wf(),
    ensures
        silent(s, parsed_function(s).1) ==> parsed_function(s).0.complete(),
    decreases s.remaining(), 8nat,
{
    lemma_parsed_function_header(s);
    let (header, s1) = parsed_function_header(s);
    let (semi, s2) = s1.consume(TokenKind::Semi);
    if semi.value is Some {
        assert(parsed_function(s) == (ItemView::AbstractFunction(header), s2)) by {
            reveal(parsed_function);
        }
        lemma_parsed_function_header_complete(s);
    } else {
        lemma_parsed_braced_block(s2);
        let (body, s3) = parsed_braced_block(s2);
        assert(parsed_function(s) == (ItemView::Function { header, body }, s3)) by {
            reveal(parsed_function);
            reveal(parsed_braced_block);
        }
        if silent(s, s3) {
            lemma_between(s3, s1, s);
            lemma_parsed_function_header_complete(s);
            lemma_parsed_braced_block_complete(s2);
        }
    }
}

/// What the rule `parsed_item` builds without a diagnostic is complete.
pub proof fn lemma_parsed_item_complete(s: ParseState)
    requires
        s.wf(),
    ensures
        silent(s, parsed_item(s).1) ==> parsed_item(s).0.complete(),
    decreases s.remaining(), 9nat,
{
    let token = s.peek();
    match token.value {
        TokenKind::Fn => {
            assert(parsed_item(s) == parsed_function(s)) by {
                reveal(parsed_item);
                reveal(parsed_function);
            }
            lemma_parsed_function_complete(s);
        },
        TokenKind::Finally => {
            let s1 = s.advance();
            lemma_parsed_braced_block(s1);
            let (stmts, s2) = parsed_braced_block(s1);
            assert(parsed_item(s) == (ItemView::Finally { stmts }, s2)) by {
                reveal(parsed_item);
                reveal(parsed_braced_block);
            }
            lemma_parsed_braced_block_complete(s1);
        },
        TokenKind::Effect => {
            let s1 = s.advance();
            let (name, s2) = parsed_ident(s1);
            lemma_generic_params(s2);
            let ((type_params, effect_params), s3) = generic_params(s2);
            let (_open, s4) = s3.expect(TokenKind::CurlyL);
            lemma_items_until(s4, seq![TokenKind::CurlyR], seq![]);
            let (body, s5) = items_until(s4, seq![TokenKind::CurlyR], seq![]);
            let (_close, s6) = s5.expect(TokenKind::CurlyR);
            assert(parsed_item(s) == (
                ItemView::Effect { name: name.value, type_params, effect_params, body },
                s6,
            )) by {
                reveal(parsed_item);
                reveal(items_until);
            }
            if silent(s, s6) {
                lemma_between(s6, s5, s);
                lemma_between(s5, s4, s);
                lemma_between(s4, s3, s);
                lemma_between(s3, s2, s);
                lemma_parsed_ident_complete(s1);
                lemma_generic_params_complete(s2);
                assert(items_complete(seq![]));
                lemma_items_until_complete(s4, seq![TokenKind::CurlyR], seq![]);
            }
        },
        _ => {
            reveal(parsed_item);
            lemma_report_is_heard(s, Code::Unexpected, token.span, token.value.text());
        },
    }
}

/// What the rule `items_until` builds without a diagnostic is complete.
pub proof fn lemma_items_until_complete(s: ParseState, until: Seq<TokenKind>, items: Seq<ItemView>)
    requires
        s.wf(),
        items_complete(items),
    ensures
        silent(s, items_until(s, until, items).1) ==> items_complete(items_until(s, until, items).0),
    decreases s.remaining(), 10nat,
{
    let next = s.peek().value;
    if !(next == TokenKind::Eof || until.contains(next)) {
        lemma_parsed_item(s);
        let (item, s1) = parsed_item(s);
        let rest = items_until(s1, until, items.push(item));
        assert(items_until(s, until, items) == rest) by {
            reveal(items_until);
            reveal(parsed_item);
        }
        lemma_items_until(s1, until, items.push(item));
        if silent(s, rest.1) {
            lemma_between(rest.1, s1, s);
            lemma_parsed_item_complete(s);
            lemma_items_complete_push(items, item);
            lemma_items_until_complete(s1, until, items.push(item));
        }
    } else {
        reveal(items_until);
    }
}

/// A file that was parsed without a diagnostic has complete items only.
pub proof fn lemma_items_to_end_complete(s: ParseState, items: Seq<ItemView>)
    requires
        s.wf(),
        items_complete(items),
    ensures
        silent(s, items_to_end(s, items).1) ==> items_complete(items_to_end(s, items).0),
    decreases s.remaining(),
{
    if s.peek().value != TokenKind::Eof {
        lemma_parsed_item(s);
        let (item, s1) = parsed_item(s);
        let rest = items_to_end(s1, items.push(item));
        assert(items_to_end(s, items) == rest) by {
            reveal(items_to_end);
        }
        lemma_items_to_end(s1, items.push(item));
        if silent(s, rest.1) {
            lemma_between(rest.1, s1, s);
            lemma_parsed_item_complete(s);
            lemma_items_complete_push(items, item);
            lemma_items_to_end_complete(s1, items.push(item));
        }
    } else {
        reveal(items_to_end);
    }
}

} // verus!
