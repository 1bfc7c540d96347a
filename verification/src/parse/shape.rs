//! The shape of what the grammar rules build: every tree is well formed.

use crate::ast::expr::ConditionalView;
use crate::ast::expr::ExprView;
use crate::ast::generic::TypedIdentView;
use crate::ast::item::ItemView;
use crate::ast::shape::cases_well_formed;
use crate::ast::shape::effects_well_formed;
use crate::ast::shape::exprs_well_formed;
use crate::ast::shape::items_well_formed;
use crate::ast::shape::statements_well_formed;
use crate::ast::shape::typed_idents_well_formed;
use crate::ast::shape::types_well_formed;
use crate::ast::statement::StatementView;
use crate::ast::types::EffectView;
use crate::ast::types::TypeView;
use crate::parse::after;
use crate::parse::atoms::group_atoms;
use crate::parse::atoms::parsed_ident;
use crate::parse::combinators::all_or_nothing;
use crate::parse::combinators::lemma_parsed_name_and_type;
use crate::parse::combinators::parsed_name_and_type;
use crate::parse::combinators::typed_idents_until;
use crate::parse::expr::binary_exprs_until;
use crate::parse::expr::block_call;
use crate::parse::expr::exprs_until;
use crate::parse::expr::ladder;
use crate::parse::expr::ladder_end;
use crate::parse::expr::more_operands;
use crate::parse::expr::parsed_binary_expr;
use crate::parse::expr::parsed_block_call;
use crate::parse::expr::parsed_block_expr;
use crate::parse::expr::parsed_case;
use crate::parse::expr::parsed_closure_body;
use crate::parse::expr::parsed_do;
use crate::parse::expr::parsed_free_binary_expr;
use crate::parse::expr::parsed_handler;
use crate::parse::expr::parsed_unary_expr;
use crate::parse::expr::postfix;
use crate::parse::group_parse_state;
use crate::parse::item::generic_params;
use crate::parse::item::items_until;
use crate::parse::item::parsed_function;
use crate::parse::item::parsed_function_header;
use crate::parse::item::parsed_item;
use crate::parse::item::returned;
use crate::parse::items_to_end;
use crate::parse::paths::group_paths;
use crate::parse::paths::more_segments;
use crate::parse::paths::parsed_qualified_ident;
use crate::parse::statement::parsed_braced_block;
use crate::parse::statement::parsed_stmt;
use crate::parse::statement::stmts_until;
use crate::parse::types::effect_chain;
use crate::parse::types::effect_clause;
use crate::parse::types::effects_until;
use crate::parse::types::more_effects;
use crate::parse::types::parsed_effect;
use crate::parse::types::parsed_ty;
use crate::parse::types::return_types;
use crate::parse::types::type_args;
use crate::parse::types::types_until;
use crate::parse::ParseState;
use crate::ast::ident::Ident;
use crate::span::Span;
use crate::token::TokenKind;
use crate::tokens::Operator;
use vstd::prelude::*;

verus! {

broadcast use {group_parse_state, group_atoms, group_paths};

/// Further segments keep the segments that were read.
pub proof fn lemma_more_segments_shape(s: ParseState, span: Span, segments: Seq<Ident>)
    requires
        s.wf(),
    ensures
        more_segments(s, span, segments).0.value.len() >= segments.len(),
    decreases s.remaining(),
{
    reveal(more_segments);
    let (scope, s1) = s.consume(TokenKind::Scope);
    if scope.value is Some {
        let (id, s2) = parsed_ident(s1);
        lemma_more_segments_shape(s2, span.cover(id.span), segments.push(id.value));
    }
}

/// A qualified name has at least one segment.
pub proof fn lemma_parsed_qualified_ident_shape(s: ParseState)
    requires
        s.wf(),
    ensures
        parsed_qualified_ident(s).0.value.len() >= 1,
{
    reveal(parsed_qualified_ident);
    let (id, s1) = parsed_ident(s);
    lemma_more_segments_shape(s1, id.span, seq![id.value]);
}

/// What the rule `types_until` builds is well formed.
pub proof fn lemma_types_until_shape(s: ParseState, until: Seq<TokenKind>, types: Seq<TypeView>)
    requires
        s.wf(),
        types_well_formed(types),
    ensures
        types_well_formed(types_until(s, until, types).0),
    decreases s.remaining(), 2nat,
{
    reveal(types_until);
    reveal(parsed_ty);
    if !until.contains(s.peek().value) {
        lemma_parsed_ty_shape(s);
        let (ty, s1) = after(parsed_ty(s), s);
        let (comma, s2) = s1.consume(TokenKind::Comma);
        if comma.value is Some {
            lemma_types_until_shape(s2, until, types.push(ty));
        }
    }
}

/// What the rule `effects_until` builds is well formed.
pub proof fn lemma_effects_until_shape(s: ParseState, until: Seq<TokenKind>, effects: Seq<EffectView>)
    requires
        s.wf(),
        effects_well_formed(effects),
    ensures
        effects_well_formed(effects_until(s, until, effects).0),
    decreases s.remaining(), 3nat,
{
    reveal(effects_until);
    reveal(parsed_effect);
    if !until.contains(s.peek().value) {
        lemma_parsed_effect_shape(s);
        let (effect, s1) = after(parsed_effect(s), s);
        let (comma, s2) = s1.consume(TokenKind::Comma);
        if comma.value is Some {
            lemma_effects_until_shape(s2, until, effects.push(effect));
        }
    }
}

/// What the rule `type_args` builds is well formed.
pub proof fn lemma_type_args_shape(s: ParseState)
    requires
        s.wf(),
    ensures
        types_well_formed(type_args(s).0),
    decreases s.remaining(), 0nat,
{
    reveal(type_args);
    reveal(types_until);
    let (open, s1) = s.consume(TokenKind::SquareL);
    if open.value is Some {
        lemma_types_until_shape(s1, seq![TokenKind::SquareR], seq![]);
    }
}

/// What the rule `effect_clause` builds is well formed.
pub proof fn lemma_effect_clause_shape(s: ParseState)
    requires
        s.wf(),
    ensures
        effects_well_formed(effect_clause(s).0),
    decreases s.remaining(), 0nat,
{
    reveal(effect_clause);
    reveal(effects_until);
    let (slash, s1) = s.consume(TokenKind::Slash);
    if slash.value is Some {
        lemma_effects_until_shape(s1, seq![TokenKind::Arrow], seq![]);
    }
}

/// What the rule `more_effects` builds is well formed.
pub proof fn lemma_more_effects_shape(s: ParseState, effects: Seq<EffectView>)
    requires
        s.wf(),
        effects_well_formed(effects),
    ensures
        effects_well_formed(more_effects(s, effects).0),
    decreases s.remaining(), 0nat,
{
    reveal(more_effects);
    reveal(parsed_effect);
    let (comma, s1) = s.consume(TokenKind::Comma);
    if comma.value is Some {
        lemma_parsed_effect_shape(s1);
        let (effect, s2) = after(parsed_effect(s1), s1);
        lemma_more_effects_shape(s2, effects.push(effect));
    }
}

/// What the rule `return_types` builds is well formed.
pub proof fn lemma_return_types_shape(s: ParseState)
    requires
        s.wf(),
    ensures
        match return_types(s).0 {
            Some(types) => types_well_formed(types),
            None => true,
        },
    decreases s.remaining(), 2nat,
{
    reveal(return_types);
    reveal(parsed_ty);
    reveal(types_until);
    reveal(effects_until);
    let next = s.peek().value;
    if next == TokenKind::Ident || next == TokenKind::CurlyL {
        lemma_parsed_ty_shape(s);
        let (ty, s1) = after(parsed_ty(s), s);
        assert(types_well_formed(seq![ty]));
    } else if next == TokenKind::RoundL {
        let s1 = s.advance();
        lemma_types_until_shape(s1, seq![TokenKind::RoundR], seq![]);
        let (args, s2) = after(types_until(s1, seq![TokenKind::RoundR], seq![]), s1);
        let (_close, s3) = s2.expect(TokenKind::RoundR);
        let (slash, s4) = s3.consume(TokenKind::Slash);
        if slash.value is Some {
            lemma_effects_until_shape(s4, seq![TokenKind::Arrow], seq![]);
            let (effects, s5) = after(effects_until(s4, seq![TokenKind::Arrow], seq![]), s4);
            let (_arrow, s6) = s5.expect(TokenKind::Arrow);
            lemma_return_types_shape(s6);
            let (ret, s7) = after(return_types(s6), s6);
            let ty = TypeView::Continuation { args, ret, effects };
            assert(ty.well_formed());
            assert(types_well_formed(seq![ty]));
        } else {
            let (arrow, s5) = s4.consume(TokenKind::Arrow);
            if arrow.value is Some {
                lemma_return_types_shape(s5);
                let (ret, s6) = after(return_types(s5), s5);
                let ty = TypeView::Continuation { args, ret, effects: seq![] };
                assert(ty.well_formed());
                assert(types_well_formed(seq![ty]));
            }
        }
    }
}

/// What the rule `parsed_ty` builds is well formed.
pub proof fn lemma_parsed_ty_shape(s: ParseState)
    requires
        s.wf(),
    ensures
        parsed_ty(s).0.well_formed(),
    decreases s.remaining(), 1nat,
{
    reveal(parsed_ty);
    reveal(types_until);
    reveal(parsed_effect);
    reveal(more_effects);
    reveal(effect_clause);
    reveal(return_types);
    reveal(type_args);
    let next = s.peek().value;
    if next == TokenKind::CurlyL {
        let s1 = s.advance();
        lemma_types_until_shape(s1, seq![TokenKind::CurlyR], seq![]);
        let (ret, s2) = after(types_until(s1, seq![TokenKind::CurlyR], seq![]), s1);
        let (_close, s3) = s2.expect(TokenKind::CurlyR);
        let (slash, s4) = s3.consume(TokenKind::Slash);
        if slash.value is Some {
            lemma_parsed_effect_shape(s4);
            let (first, s5) = after(parsed_effect(s4), s4);
            lemma_more_effects_shape(s5, seq![first]);
        }
    } else if next == TokenKind::RoundL {
        let s1 = s.advance();
        lemma_types_until_shape(s1, seq![TokenKind::RoundR], seq![]);
        let (args, s2) = after(types_until(s1, seq![TokenKind::RoundR], seq![]), s1);
        let (_close, s3) = s2.expect(TokenKind::RoundR);
        lemma_effect_clause_shape(s3);
        let (effects, s4) = after(effect_clause(s3), s3);
        let (_arrow, s5) = s4.expect(TokenKind::Arrow);
        lemma_return_types_shape(s5);
    } else {
        lemma_parsed_qualified_ident_shape(s);
        let (name, s1) = parsed_qualified_ident(s);
        lemma_type_args_shape(s1);
    }
}

/// What the rule `effect_chain` builds is well formed.
pub proof fn lemma_effect_chain_shape(s: ParseState, earlier: Seq<EffectView>)
    requires
        s.wf(),
        effects_well_formed(earlier),
    ensures
        effect_chain(s, earlier).0.well_formed(),
    decreases s.remaining(), 1nat,
{
    reveal(effect_chain);
    reveal(type_args);
    lemma_parsed_qualified_ident_shape(s);
    let (name, s1) = parsed_qualified_ident(s);
    lemma_type_args_shape(s1);
    let (args, s2) = after(type_args(s1), s1);
    if s2.peek().value == TokenKind::Ident && s2.remaining() < s.remaining() {
        let effect = EffectView { name: name.value, args, meta_effects: seq![] };
        assert(effect.well_formed());
        lemma_effect_chain_shape(s2, earlier.push(effect));
    }
}

/// What the rule `parsed_effect` builds is well formed.
pub proof fn lemma_parsed_effect_shape(s: ParseState)
    requires
        s.wf(),
    ensures
        parsed_effect(s).0.well_formed(),
    decreases s.remaining(), 2nat,
{
    reveal(parsed_effect);
    reveal(effect_chain);
    lemma_effect_chain_shape(s, seq![]);
}

/// What the rule `parsed_name_and_type` builds is well formed.
pub proof fn lemma_parsed_name_and_type_shape(s: ParseState)
    requires
        s.wf(),
    ensures
        match parsed_name_and_type(s).0.value {
            Some(pair) => pair.well_formed(),
            None => true,
        },
{
    reveal(parsed_name_and_type);
    let (name, s1) = parsed_ident(s);
    let (colon, s2) = s1.expect(TokenKind::Colon);
    if colon.value is Some {
        lemma_parsed_ty_shape(s2);
    }
}

/// Whether each pair that is there is well formed.
pub open spec fn pairs_well_formed(pairs: Seq<Option<TypedIdentView>>) -> bool {
    forall|i: int|
        0 <= i < pairs.len() ==> match #[trigger] pairs[i] {
            Some(pair) => pair.well_formed(),
            None => true,
        }
}

/// What the rule `typed_idents_until` builds is well formed.
pub proof fn lemma_typed_idents_until_shape(
    s: ParseState,
    until: Seq<TokenKind>,
    pairs: Seq<Option<TypedIdentView>>,
)
    requires
        s.wf(),
        pairs_well_formed(pairs),
    ensures
        pairs_well_formed(typed_idents_until(s, until, pairs).0),
        typed_idents_well_formed(all_or_nothing(typed_idents_until(s, until, pairs).0)),
    decreases s.remaining(),
{
    reveal(typed_idents_until);
    if !until.contains(s.peek().value) {
        lemma_parsed_name_and_type(s);
        lemma_parsed_name_and_type_shape(s);
        let (pair, s1) = parsed_name_and_type(s);
        let (comma, s2) = s1.consume(TokenKind::Comma);
        if comma.value is Some {
            lemma_typed_idents_until_shape(s2, until, pairs.push(pair.value));
        }
    }
    let all = typed_idents_until(s, until, pairs).0;
    assert forall|i: int| 0 <= i < all_or_nothing(all).len() implies (#[trigger] all_or_nothing(
        all,
    )[i]).well_formed() by {
        assert(all[i] is Some);
    }
}

/// What the rule `returned` builds is well formed.
pub proof fn lemma_returned_shape(s: ParseState)
    requires
        s.wf(),
    ensures
        match returned(s).0 {
            Some(types) => types_well_formed(types),
            None => true,
        },
{
    reveal(returned);
    lemma_return_types_shape(s);
}

/// What the rule `parsed_function_header` builds is well formed.
pub proof fn lemma_parsed_function_header_shape(s: ParseState)
    requires
        s.wf(),
    ensures
        parsed_function_header(s).0.well_formed(),
{
    reveal(parsed_function_header);
    let (_fn, s1) = s.expect(TokenKind::Fn);
    let (name, s2) = parsed_ident(s1);
    let (_params, s3) = after(generic_params(s2), s2);
    let (_open, s4) = s3.expect(TokenKind::RoundL);
    lemma_typed_idents_until_shape(s4, seq![TokenKind::RoundR], seq![]);
    let (params, s5) = after(typed_idents_until(s4, seq![TokenKind::RoundR], seq![]), s4);
    let (_close, s6) = s5.expect(TokenKind::RoundR);
    lemma_effect_clause_shape(s6);
    let (effects, s7) = after(effect_clause(s6), s6);
    let (_arrow, s8) = s7.expect(TokenKind::Arrow);
    lemma_returned_shape(s8);
}

/// What the rule `parsed_unary_expr` builds is well formed.
pub proof fn lemma_parsed_unary_expr_shape(s: ParseState)
    requires
        s.wf(),
    ensures
        parsed_unary_expr(s).0.well_formed(),
    decreases s.remaining(), 0nat,
{
    reveal(parsed_unary_expr);
    reveal(parsed_block_expr);
    let next = s.peek().value;
    if next == TokenKind::RoundL {
        lemma_parsed_block_expr_shape(s.advance());
    } else if next == TokenKind::Ident {
        lemma_parsed_qualified_ident_shape(s);
    }
}

/// What the rule `postfix` builds is well formed.
pub proof fn lemma_postfix_shape(s: ParseState, expr: ExprView)
    requires
        s.wf(),
        expr.well_formed(),
    ensures
        postfix(s, expr).0.well_formed(),
    decreases s.remaining(), 0nat,
{
    reveal(postfix);
    reveal(exprs_until);
    let (op, s1) = s.consume_one_of(seq![TokenKind::RoundL, TokenKind::Dot]);
    if op.value == Some(TokenKind::Dot) {
        let (member, s2) = parsed_ident(s1);
        lemma_postfix_shape(s2, ExprView::Member { recv: Box::new(expr), member: member.value });
    } else if op.value == Some(TokenKind::RoundL) {
        lemma_exprs_until_shape(s1, seq![TokenKind::RoundR], seq![]);
        let (args, s2) = after(exprs_until(s1, seq![TokenKind::RoundR], seq![]), s1);
        let (_close, s3) = s2.expect(TokenKind::RoundR);
        lemma_postfix_shape(s3, ExprView::Call { func: Box::new(expr), args });
    }
}

/// What the rule `parsed_free_binary_expr` builds is well formed.
pub proof fn lemma_parsed_free_binary_expr_shape(s: ParseState)
    requires
        s.wf(),
    ensures
        parsed_free_binary_expr(s).0.well_formed(),
    decreases s.remaining(), 1nat,
{
    reveal(parsed_free_binary_expr);
    reveal(parsed_unary_expr);
    reveal(postfix);
    lemma_parsed_unary_expr_shape(s);
    let (expr, s1) = after(parsed_unary_expr(s), s);
    lemma_postfix_shape(s1, expr);
}

/// What the rule `more_operands` builds is well formed.
pub proof fn lemma_more_operands_shape(s: ParseState, op_token: TokenKind, operands: Seq<ExprView>)
    requires
        s.wf(),
        exprs_well_formed(operands),
    ensures
        exprs_well_formed(more_operands(s, op_token, operands).0),
        more_operands(s, op_token, operands).0.len() >= operands.len(),
    decreases s.remaining(), 0nat,
{
    reveal(more_operands);
    reveal(parsed_free_binary_expr);
    let (op, s1) = s.consume(op_token);
    if op.value is Some && s1.remaining() < s.remaining() {
        lemma_parsed_free_binary_expr_shape(s1);
        let (operand, s2) = after(parsed_free_binary_expr(s1), s1);
        lemma_more_operands_shape(s2, op_token, operands.push(operand));
    }
}

/// What the rule `parsed_binary_expr` builds is well formed.
pub proof fn lemma_parsed_binary_expr_shape(s: ParseState)
    requires
        s.wf(),
    ensures
        parsed_binary_expr(s).0.well_formed(),
    decreases s.remaining(), 2nat,
{
    lemma_parsed_free_binary_expr_shape(s);
    let (expr, s1) = after(parsed_free_binary_expr(s), s);
    let op_token = s1.peek().value;
    match Operator::of_token(op_token) {
        None => {
            assert(parsed_binary_expr(s).0 == expr) by {
                reveal(parsed_binary_expr);
                reveal(parsed_free_binary_expr);
            }
        },
        Some(op) => {
            let s2 = s1.advance();
            lemma_parsed_free_binary_expr_shape(s2);
            let (rhs, s3) = after(parsed_free_binary_expr(s2), s2);
            let first = seq![expr, rhs];
            assert(exprs_well_formed(first));
            lemma_more_operands_shape(s3, op_token, first);
            let operands = more_operands(s3, op_token, first).0;
            assert(parsed_binary_expr(s).0 == (ExprView::Binary { op: op.in_tree(), operands })) by {
                reveal(parsed_binary_expr);
                reveal(parsed_free_binary_expr);
                reveal(more_operands);
            }
        },
    }
}

/// What the rule `binary_exprs_until` builds is well formed.
pub proof fn lemma_binary_exprs_until_shape(s: ParseState, until: Seq<TokenKind>, exprs: Seq<ExprView>)
    requires
        s.wf(),
        exprs_well_formed(exprs),
    ensures
        exprs_well_formed(binary_exprs_until(s, until, exprs).0),
    decreases s.remaining(), 3nat,
{
    reveal(binary_exprs_until);
    reveal(parsed_binary_expr);
    if !until.contains(s.peek().value) {
        lemma_parsed_binary_expr_shape(s);
        let (expr, s1) = after(parsed_binary_expr(s), s);
        let (comma, s2) = s1.consume(TokenKind::Comma);
        if comma.value is Some {
            lemma_binary_exprs_until_shape(s2, until, exprs.push(expr));
        }
    }
}

/// What the rule `exprs_until` builds is well formed.
pub proof fn lemma_exprs_until_shape(s: ParseState, until: Seq<TokenKind>, exprs: Seq<ExprView>)
    requires
        s.wf(),
        exprs_well_formed(exprs),
    ensures
        exprs_well_formed(exprs_until(s, until, exprs).0),
    decreases s.remaining(), 5nat,
{
    reveal(exprs_until);
    reveal(parsed_block_expr);
    if !until.contains(s.peek().value) {
        lemma_parsed_block_expr_shape(s);
        let (expr, s1) = after(parsed_block_expr(s), s);
        let (comma, s2) = s1.consume(TokenKind::Comma);
        if comma.value is Some {
            lemma_exprs_until_shape(s2, until, exprs.push(expr));
        }
    }
}

/// What the rule `parsed_closure_body` builds is well formed.
pub proof fn lemma_parsed_closure_body_shape(s: ParseState)
    requires
        s.wf(),
    ensures
        parsed_closure_body(s).0.well_formed(),
        parsed_closure_body(s).0 is Closure,
    decreases s.remaining(), 7nat,
{
    reveal(parsed_closure_body);
    reveal(stmts_until);
    if s.peek2().value == TokenKind::Colon {
        lemma_typed_idents_until_shape(s, seq![TokenKind::Arrow], seq![]);
        let (params, s1) = after(typed_idents_until(s, seq![TokenKind::Arrow], seq![]), s);
        let (_arrow, s2) = s1.expect(TokenKind::Arrow);
        lemma_stmts_until_shape(s2, seq![TokenKind::CurlyR], seq![]);
    } else {
        lemma_stmts_until_shape(s, seq![TokenKind::CurlyR], seq![]);
    }
}

/// What the rule `parsed_braced_block` builds is well formed.
pub proof fn lemma_parsed_braced_block_shape(s: ParseState)
    requires
        s.wf(),
    ensures
        statements_well_formed(parsed_braced_block(s).0),
    decreases s.remaining(), 7nat,
{
    reveal(parsed_braced_block);
    reveal(stmts_until);
    let (_open, s1) = s.expect(TokenKind::CurlyL);
    lemma_stmts_until_shape(s1, seq![TokenKind::CurlyR], seq![]);
}

/// What the rule `parsed_case` builds is well formed.
pub proof fn lemma_parsed_case_shape(s: ParseState)
    requires
        s.wf(),
    ensures
        parsed_case(s).0.well_formed(),
    decreases s.remaining(), 11nat,
{
    lemma_parsed_binary_expr_shape(s);
    let (condition, s1) = after(parsed_binary_expr(s), s);
    lemma_parsed_braced_block_shape(s1);
    let then_body = parsed_braced_block(s1).0;
    assert(parsed_case(s).0 == (ConditionalView { condition, then_body })) by {
        reveal(parsed_case);
        reveal(parsed_binary_expr);
        reveal(parsed_braced_block);
    }
}

/// What the rule `ladder` builds is well formed.
pub proof fn lemma_ladder_shape(s: ParseState, cases: Seq<ConditionalView>)
    requires
        s.wf(),
        cases_well_formed(cases),
    ensures
        ladder(s, cases).0.well_formed(),
        ladder(s, cases).0 is Conditional,
    decreases s.remaining(), 12nat,
{
    reveal(ladder);
    reveal(parsed_case);
    reveal(ladder_end);
    lemma_parsed_case_shape(s);
    let (case, s1) = after(parsed_case(s), s);
    lemma_ladder_end_shape(s1, cases.push(case));
}

/// What the rule `ladder_end` builds is well formed.
pub proof fn lemma_ladder_end_shape(s: ParseState, cases: Seq<ConditionalView>)
    requires
        s.wf(),
        cases.len() >= 1,
        cases_well_formed(cases),
    ensures
        ladder_end(s, cases).0.well_formed(),
        ladder_end(s, cases).0 is Conditional,
    decreases s.remaining(), 8nat,
{
    reveal(ladder_end);
    reveal(ladder);
    reveal(parsed_braced_block);
    let (otherwise, s1) = s.consume(TokenKind::Else);
    if otherwise.value is None {
        let expr = ExprView::Conditional { cases, final_else: seq![] };
        assert(statements_well_formed(seq![]));
        assert(expr.well_formed());
    } else {
        let (again, s2) = s1.consume(TokenKind::If);
        if again.value is None {
            lemma_parsed_braced_block_shape(s2);
            let (final_else, s3) = after(parsed_braced_block(s2), s2);
            let expr = ExprView::Conditional { cases, final_else };
            assert(expr.well_formed());
        } else {
            lemma_ladder_shape(s2, cases);
        }
    }
}

/// What the rule `parsed_do` builds is well formed.
pub proof fn lemma_parsed_do_shape(s: ParseState)
    requires
        s.wf(),
    ensures
        parsed_do(s).0.well_formed(),
        parsed_do(s).0 is Do || parsed_do(s).0 is DoWith,
    decreases s.remaining(), 11nat,
{
    reveal(parsed_do);
    reveal(parsed_braced_block);
    reveal(parsed_block_expr);
    lemma_parsed_braced_block_shape(s);
    let (stmts, s1) = after(parsed_braced_block(s), s);
    let (with, s2) = s1.consume(TokenKind::With);
    if with.value is Some {
        lemma_parsed_block_expr_shape(s2);
    }
}

/// What the rule `parsed_handler` builds is well formed.
pub proof fn lemma_parsed_handler_shape(s: ParseState)
    requires
        s.wf(),
    ensures
        parsed_handler(s).0.well_formed(),
        parsed_handler(s).0 is Handler,
    decreases s.remaining(), 11nat,
{
    reveal(parsed_handler);
    reveal(items_until);
    lemma_effects_until_shape(s, seq![TokenKind::CurlyL], seq![]);
    let (impl_effects, s1) = after(effects_until(s, seq![TokenKind::CurlyL], seq![]), s);
    let (_open, s2) = s1.expect(TokenKind::CurlyL);
    lemma_items_until_shape(s2, seq![TokenKind::CurlyR], seq![]);
}

/// A call with a trailing block is well formed where the expression and the
/// block are.
pub proof fn lemma_block_call_shape(expr: ExprView, block: ExprView)
    requires
        expr.well_formed(),
        block.well_formed(),
    ensures
        block_call(expr, block).well_formed(),
        block_call(expr, block) is BlockCall,
{
    reveal_with_fuel(ExprView::well_formed, 2);
    match expr {
        ExprView::Call { func, args } => {
            let all = args.push(block);
            assert forall|i: int| 0 <= i < all.len() implies (#[trigger] all[i]).well_formed() by {
                if i < args.len() {
                    assert(args[i].well_formed());
                }
            }
            assert(exprs_well_formed(all));
        },
        _ => {
            assert(exprs_well_formed(seq![block]));
        },
    }
}

/// What the rule `parsed_block_call` builds is well formed.
pub proof fn lemma_parsed_block_call_shape(s: ParseState)
    requires
        s.wf(),
    ensures
        parsed_block_call(s).0.well_formed(),
    decreases s.remaining(), 3nat,
{
    reveal(parsed_block_call);
    reveal(parsed_binary_expr);
    reveal(parsed_closure_body);
    lemma_parsed_binary_expr_shape(s);
    let (expr, s1) = after(parsed_binary_expr(s), s);
    if !(expr is Binary) {
        let (open, s2) = s1.consume(TokenKind::CurlyL);
        if open.value is Some {
            lemma_parsed_closure_body_shape(s2);
            let (block, s3) = after(parsed_closure_body(s2), s2);
            lemma_block_call_shape(expr, block);
        }
    }
}

/// What the rule `parsed_block_expr` builds is well formed.
pub proof fn lemma_parsed_block_expr_shape(s: ParseState)
    requires
        s.wf(),
    ensures
        parsed_block_expr(s).0.well_formed(),
    decreases s.remaining(), 4nat,
{
    reveal(parsed_block_expr);
    reveal(ladder);
    reveal(parsed_do);
    reveal(parsed_closure_body);
    reveal(parsed_handler);
    reveal(parsed_block_call);
    let next = s.peek().value;
    if next == TokenKind::If {
        lemma_ladder_shape(s.advance(), seq![]);
    } else if next == TokenKind::Do {
        lemma_parsed_do_shape(s.advance());
    } else if next == TokenKind::CurlyL {
        lemma_parsed_closure_body_shape(s.advance());
    } else if next == TokenKind::Handle {
        lemma_parsed_handler_shape(s.advance());
    } else {
        lemma_parsed_block_call_shape(s);
    }
}

/// What the rule `parsed_stmt` builds is well formed.
pub proof fn lemma_parsed_stmt_shape(s: ParseState)
    requires
        s.wf(),
    ensures
        parsed_stmt(s).0.well_formed(),
    decreases s.remaining(), 5nat,
{
    reveal(parsed_stmt);
    reveal(parsed_free_binary_expr);
    reveal(binary_exprs_until);
    reveal(parsed_block_expr);
    match s.peek().value {
        TokenKind::Colon => {
            let s1 = s.advance();
            lemma_parsed_free_binary_expr_shape(s1);
            let (cont, s2) = after(parsed_free_binary_expr(s1), s1);
            lemma_binary_exprs_until_shape(s2, seq![TokenKind::Semi], seq![]);
            let (args, s3) = after(binary_exprs_until(s2, seq![TokenKind::Semi], seq![]), s2);
            assert((StatementView::Continue { cont, args }).well_formed());
        },
        TokenKind::Let => {
            let s1 = s.advance();
            lemma_typed_idents_until_shape(s1, seq![TokenKind::Equals], seq![]);
            let (bindings, s2) = after(
                typed_idents_until(s1, seq![TokenKind::Equals], seq![]),
                s1,
            );
            let (_equals, s3) = s2.expect(TokenKind::Equals);
            lemma_parsed_block_expr_shape(s3);
            let (init, s4) = after(parsed_block_expr(s3), s3);
            assert((StatementView::Let { bindings: all_or_nothing(bindings), init }).well_formed());
        },
        _ => {
            lemma_parsed_block_expr_shape(s);
            let (expr, s1) = after(parsed_block_expr(s), s);
            assert((StatementView::BlockExpr(expr)).well_formed() == expr.is_block());
            assert((StatementView::Expr(expr)).well_formed() == !expr.is_block());
            assert((StatementView::BlockEndExpr(expr)).well_formed() == !expr.is_block());
        },
    }
}

/// What the rule `stmts_until` builds is well formed.
pub proof fn lemma_stmts_until_shape(s: ParseState, until: Seq<TokenKind>, stmts: Seq<StatementView>)
    requires
        s.wf(),
        statements_well_formed(stmts),
    ensures
        statements_well_formed(stmts_until(s, until, stmts).0),
    decreases s.remaining(), 6nat,
{
    reveal(stmts_until);
    reveal(parsed_stmt);
    let next = s.peek().value;
    if !(next == TokenKind::Eof || until.contains(next)) {
        lemma_parsed_stmt_shape(s);
        let (stmt, s1) = after(parsed_stmt(s), s);
        if s1.remaining() < s.remaining() {
            lemma_stmts_until_shape(s1, until, stmts.push(stmt));
        }
    }
}

/// What the rule `parsed_function` builds is well formed.
pub proof fn lemma_parsed_function_shape(s: ParseState)
    requires
        s.wf(),
    ensures
        parsed_function(s).0.well_formed(),
    decreases s.remaining(), 8nat,
{
    reveal(parsed_function);
    reveal(parsed_braced_block);
    lemma_parsed_function_header_shape(s);
    let (header, s1) = after(parsed_function_header(s), s);
    let (semi, s2) = s1.consume(TokenKind::Semi);
    if semi.value is None {
        lemma_parsed_braced_block_shape(s2);
    }
}

/// What the rule `parsed_item` builds is well formed.
pub proof fn lemma_parsed_item_shape(s: ParseState)
    requires
        s.wf(),
    ensures
        parsed_item(s).0.well_formed(),
    decreases s.remaining(), 9nat,
{
    reveal(parsed_item);
    reveal(parsed_function);
    reveal(parsed_braced_block);
    reveal(items_until);
    let token = s.peek();
    match token.value {
        TokenKind::Fn => {
            lemma_parsed_function_shape(s);
        },
        TokenKind::Finally => {
            let s1 = s.advance();
            lemma_parsed_braced_block_shape(s1);
            let (stmts, s2) = after(parsed_braced_block(s1), s1);
            assert((ItemView::Finally { stmts }).well_formed());
        },
        TokenKind::Effect => {
            let s1 = s.advance();
            let (name, s2) = parsed_ident(s1);
            let ((type_params, effect_params), s3) = after(generic_params(s2), s2);
            let (_open, s4) = s3.expect(TokenKind::CurlyL);
            lemma_items_until_shape(s4, seq![TokenKind::CurlyR], seq![]);
            let (body, s5) = after(items_until(s4, seq![TokenKind::CurlyR], seq![]), s4);
            assert((ItemView::Effect {
                name: name.value,
                type_params,
                effect_params,
                body,
            }).well_formed());
        },
        _ => {
            assert((ItemView::Error { err_span: token.span }).well_formed());
        },
    }
}

/// What the rule `items_until` builds is well formed.
pub proof fn lemma_items_until_shape(s: ParseState, until: Seq<TokenKind>, items: Seq<ItemView>)
    requires
        s.wf(),
        items_well_formed(items),
    ensures
        items_well_formed(items_until(s, until, items).0),
    decreases s.remaining(), 10nat,
{
    reveal(items_until);
    reveal(parsed_item);
    let next = s.peek().value;
    if !(next == TokenKind::Eof || until.contains(next)) {
        lemma_parsed_item_shape(s);
        let (item, s1) = after(parsed_item(s), s);
        if s1.remaining() < s.remaining() {
            lemma_items_until_shape(s1, until, items.push(item));
        }
    }
}

/// Every item of a file is well formed.
pub proof fn lemma_items_to_end_shape(s: ParseState, items: Seq<ItemView>)
    requires
        s.wf(),
        items_well_formed(items),
    ensures
        items_well_formed(items_to_end(s, items).0),
    decreases s.remaining(),
{
    reveal(items_to_end);
    if s.peek().value != TokenKind::Eof {
        lemma_parsed_item_shape(s);
        let (item, s1) = after(parsed_item(s), s);
        if s1.remaining() < s.remaining() {
            lemma_items_to_end_shape(s1, items.push(item));
        }
    }
}

} // verus!
