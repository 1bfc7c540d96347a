//! Forward progress: every grammar rule leaves a state that follows the one
//! it began in, so that the guard `after` in the rules' definitions never
//! changes the result of a rule, and the rules that consume a token whatever
//! comes leave the cursor behind that token.

use crate::ast::expr::ConditionalView;
use crate::ast::expr::ExprView;
use crate::ast::generic::TypedIdentView;
use crate::ast::ident::Ident;
use crate::ast::item::ItemView;
use crate::ast::statement::StatementView;
use crate::ast::types::EffectView;
use crate::ast::types::TypeView;
use crate::parse::after;
use crate::parse::atoms::group_atoms;
use crate::parse::atoms::parsed_ident;
use crate::parse::combinators::idents_until;
use crate::parse::combinators::lemma_parsed_name_and_type;
use crate::parse::combinators::parsed_name_and_type;
use crate::parse::combinators::typed_idents_until;
use crate::parse::expr::binary_exprs_until;
use crate::parse::expr::exprs_until;
use crate::parse::expr::ladder;
use crate::parse::expr::ladder_end;
use crate::parse::expr::more_operands;
use crate::parse::expr::parsed_binary_expr;
use crate::parse::expr::parsed_block_call;
use crate::parse::expr::parsed_block_expr;
use crate::parse::expr::parsed_case;
use crate::parse::expr::parsed_closure_body;
use crate::parse::expr::parsed_do;
use crate::parse::expr::parsed_free_binary_expr;
use crate::parse::expr::parsed_handler;
use crate::parse::expr::parsed_unary_expr;
use crate::parse::expr::postfix;
use crate::parse::group_parse_state;
use crate::parse::item::generic_params;
use crate::parse::item::items_until;
use crate::parse::item::parsed_function;
use crate::parse::item::parsed_function_header;
use crate::parse::item::parsed_item;
use crate::parse::item::returned;
use crate::parse::items_to_end;
use crate::parse::paths::group_paths;
use crate::parse::statement::parsed_braced_block;
use crate::parse::statement::parsed_stmt;
use crate::parse::statement::stmts_until;
use crate::parse::types::effect_chain;
use crate::parse::types::effect_clause;
use crate::parse::types::effects_until;
use crate::parse::types::more_effects;
use crate::parse::types::parsed_effect;
use crate::parse::types::parsed_ty;
use crate::parse::types::return_types;
use crate::parse::types::type_args;
use crate::parse::types::types_until;
use crate::parse::ParseState;
use crate::token::TokenKind;
use vstd::prelude::*;

verus! {

broadcast use {group_parse_state, group_atoms, group_paths};

/// A result that follows the state it was guarded against passes the guard
/// unchanged.
pub proof fn lemma_after<T>(result: (T, ParseState), before: ParseState)
    requires
        result.1.follows(before),
    ensures
        after(result, before) == result,
{
}

/// The rule `idents_until` leaves a state that follows the one it began in.
pub proof fn lemma_idents_until(s: ParseState, until: Seq<TokenKind>, names: Seq<Ident>)
    requires
        s.wf(),
    ensures
        idents_until(s, until, names).1.follows(s),
    decreases s.remaining(),
{
    reveal(idents_until);
    if !until.contains(s.peek().value) {
        let (name, s1) = parsed_ident(s);
        let (comma, s2) = s1.consume(TokenKind::Comma);
        if comma.value is Some {
            lemma_idents_until(s2, until, names.push(name.value));
        }
    }
}

/// The rule `typed_idents_until` leaves a state that follows the one it began in.
pub proof fn lemma_typed_idents_until(
    s: ParseState,
    until: Seq<TokenKind>,
    pairs: Seq<Option<TypedIdentView>>,
)
    requires
        s.wf(),
    ensures
        typed_idents_until(s, until, pairs).1.follows(s),
    decreases s.remaining(),
{
    reveal(typed_idents_until);
    if !until.contains(s.peek().value) {
        lemma_parsed_name_and_type(s);
        let (pair, s1) = parsed_name_and_type(s);
        let (comma, s2) = s1.consume(TokenKind::Comma);
        if comma.value is Some {
            lemma_typed_idents_until(s2, until, pairs.push(pair.value));
        }
    }
}

/// The rule `types_until` leaves a state that follows the one it began in.
pub proof fn lemma_types_until(s: ParseState, until: Seq<TokenKind>, types: Seq<TypeView>)
    requires
        s.wf(),
    ensures
        types_until(s, until, types).1.follows(s),
    decreases s.remaining(), 2nat,
{
    reveal(types_until);
    reveal(parsed_ty);
    if !until.contains(s.peek().value) {
        let (ty, s1) = after(parsed_ty(s), s);
        let (comma, s2) = s1.consume(TokenKind::Comma);
        if comma.value is Some {
            lemma_types_until(s2, until, types.push(ty));
        }
    }
}

/// The rule `effects_until` leaves a state that follows the one it began in.
pub proof fn lemma_effects_until(s: ParseState, until: Seq<TokenKind>, effects: Seq<EffectView>)
    requires
        s.wf(),
    ensures
        effects_until(s, until, effects).1.follows(s),
    decreases s.remaining(), 3nat,
{
    reveal(effects_until);
    reveal(parsed_effect);
    if !until.contains(s.peek().value) {
        let (effect, s1) = after(parsed_effect(s), s);
        let (comma, s2) = s1.consume(TokenKind::Comma);
        if comma.value is Some {
            lemma_effects_until(s2, until, effects.push(effect));
        }
    }
}

/// The rule `type_args` leaves a state that follows the one it began in.
pub proof fn lemma_type_args(s: ParseState)
    requires
        s.wf(),
    ensures
        type_args(s).1.follows(s),
{
    reveal(type_args);
    reveal(types_until);
}

/// The rule `effect_clause` leaves a state that follows the one it began in.
pub proof fn lemma_effect_clause(s: ParseState)
    requires
        s.wf(),
    ensures
        effect_clause(s).1.follows(s),
{
    reveal(effect_clause);
    reveal(effects_until);
}

/// The rule `more_effects` leaves a state that follows the one it began in.
pub proof fn lemma_more_effects(s: ParseState, effects: Seq<EffectView>)
    requires
        s.wf(),
    ensures
        more_effects(s, effects).1.follows(s),
    decreases s.remaining(), 0nat,
{
    reveal(more_effects);
    reveal(parsed_effect);
    let (comma, s1) = s.consume(TokenKind::Comma);
    if comma.value is Some {
        let (effect, s2) = after(parsed_effect(s1), s1);
        lemma_more_effects(s2, effects.push(effect));
    }
}

/// The rule `return_types` leaves a state that follows the one it began in.
pub proof fn lemma_return_types(s: ParseState)
    requires
        s.wf(),
    ensures
        return_types(s).1.follows(s),
{
    reveal(return_types);
    reveal(effects_until);
    reveal(parsed_ty);
    reveal(types_until);
}

/// The rule `parsed_ty` consumes the next token whatever it is: the state it
/// leaves follows the state behind that token.
pub proof fn lemma_parsed_ty(s: ParseState)
    requires
        s.wf(),
    ensures
        parsed_ty(s).1.follows(s.advance()),
{
    reveal(parsed_ty);
    reveal(effect_clause);
    reveal(more_effects);
    reveal(parsed_effect);
    reveal(return_types);
    reveal(type_args);
    reveal(types_until);
}

/// The rule `effect_chain` consumes the next token whatever it is: the state it
/// leaves follows the state behind that token.
pub proof fn lemma_effect_chain(s: ParseState, earlier: Seq<EffectView>)
    requires
        s.wf(),
    ensures
        effect_chain(s, earlier).1.follows(s.advance()),
    decreases s.remaining(), 1nat,
{
    reveal(effect_chain);
    reveal(type_args);
    let (name, s1) = crate::parse::paths::parsed_qualified_ident(s);
    let (args, s2) = after(type_args(s1), s1);
    if s2.peek().value == TokenKind::Ident && s2.remaining() < s.remaining() {
        lemma_effect_chain(
            s2,
            earlier.push(EffectView { name: name.value, args, meta_effects: seq![] }),
        );
    }
}

/// The rule `parsed_effect` consumes the next token whatever it is: the state it
/// leaves follows the state behind that token.
pub proof fn lemma_parsed_effect(s: ParseState)
    requires
        s.wf(),
    ensures
        parsed_effect(s).1.follows(s.advance()),
{
    reveal(parsed_effect);
    reveal(effect_chain);
    lemma_effect_chain(s, seq![]);
}

/// The rule `generic_params` leaves a state that follows the one it began in.
pub proof fn lemma_generic_params(s: ParseState)
    requires
        s.wf(),
    ensures
        generic_params(s).1.follows(s),
{
    reveal(generic_params);
    reveal(idents_until);
}

/// The rule `returned` leaves a state that follows the one it began in.
pub proof fn lemma_returned(s: ParseState)
    requires
        s.wf(),
    ensures
        returned(s).1.follows(s),
{
    reveal(returned);
    reveal(return_types);
}

/// The rule `parsed_function_header` consumes the next token whatever it is: the state it
/// leaves follows the state behind that token.
pub proof fn lemma_parsed_function_header(s: ParseState)
    requires
        s.wf(),
    ensures
        parsed_function_header(s).1.follows(s.advance()),
{
    reveal(parsed_function_header);
    reveal(effect_clause);
    reveal(generic_params);
    reveal(returned);
    reveal(typed_idents_until);
}

/// The rule `parsed_unary_expr` consumes the next token whatever it is: the state it
/// leaves follows the state behind that token.
pub proof fn lemma_parsed_unary_expr(s: ParseState)
    requires
        s.wf(),
    ensures
        parsed_unary_expr(s).1.follows(s.advance()),
{
    reveal(parsed_unary_expr);
    reveal(parsed_block_expr);
}

/// The rule `postfix` leaves a state that follows the one it began in.
pub proof fn lemma_postfix(s: ParseState, expr: ExprView)
    requires
        s.wf(),
    ensures
        postfix(s, expr).1.follows(s),
    decreases s.remaining(), 0nat,
{
    reveal(postfix);
    reveal(exprs_until);
    let (op, s1) = s.consume_one_of(seq![TokenKind::RoundL, TokenKind::Dot]);
    if op.value == Some(TokenKind::Dot) {
        let (member, s2) = parsed_ident(s1);
        lemma_postfix(s2, ExprView::Member { recv: Box::new(expr), member: member.value });
    } else if op.value == Some(TokenKind::RoundL) {
        let (args, s2) = after(exprs_until(s1, seq![TokenKind::RoundR], seq![]), s1);
        let (_close, s3) = s2.expect(TokenKind::RoundR);
        lemma_postfix(s3, ExprView::Call { func: Box::new(expr), args });
    }
}

/// The rule `parsed_free_binary_expr` consumes the next token whatever it is: the state it
/// leaves follows the state behind that token.
pub proof fn lemma_parsed_free_binary_expr(s: ParseState)
    requires
        s.wf(),
    ensures
        parsed_free_binary_expr(s).1.follows(s.advance()),
{
    reveal(parsed_free_binary_expr);
    reveal(parsed_unary_expr);
    reveal(postfix);
    lemma_parsed_unary_expr(s);
    let (expr, s1) = after(parsed_unary_expr(s), s);
    lemma_postfix(s1, expr);
}

/// The rule `more_operands` leaves a state that follows the one it began in.
pub proof fn lemma_more_operands(s: ParseState, op_token: TokenKind, operands: Seq<ExprView>)
    requires
        s.wf(),
    ensures
        more_operands(s, op_token, operands).1.follows(s),
    decreases s.remaining(), 0nat,
{
    reveal(more_operands);
    reveal(parsed_free_binary_expr);
    let (op, s1) = s.consume(op_token);
    if op.value is Some && s1.remaining() < s.remaining() {
        let (operand, s2) = after(parsed_free_binary_expr(s1), s1);
        lemma_more_operands(s2, op_token, operands.push(operand));
    }
}

/// The rule `parsed_binary_expr` consumes the next token whatever it is: the state it
/// leaves follows the state behind that token.
pub proof fn lemma_parsed_binary_expr(s: ParseState)
    requires
        s.wf(),
    ensures
        parsed_binary_expr(s).1.follows(s.advance()),
{
    reveal(parsed_binary_expr);
    reveal(more_operands);
    reveal(parsed_free_binary_expr);
    lemma_parsed_free_binary_expr(s);
}

/// The rule `binary_exprs_until` leaves a state that follows the one it began in.
pub proof fn lemma_binary_exprs_until(s: ParseState, until: Seq<TokenKind>, exprs: Seq<ExprView>)
    requires
        s.wf(),
    ensures
        binary_exprs_until(s, until, exprs).1.follows(s),
    decreases s.remaining(), 3nat,
{
    reveal(binary_exprs_until);
    reveal(parsed_binary_expr);
    if !until.contains(s.peek().value) {
        let (expr, s1) = after(parsed_binary_expr(s), s);
        let (comma, s2) = s1.consume(TokenKind::Comma);
        if comma.value is Some {
            lemma_binary_exprs_until(s2, until, exprs.push(expr));
        }
    }
}

/// The rule `exprs_until` leaves a state that follows the one it began in.
pub proof fn lemma_exprs_until(s: ParseState, until: Seq<TokenKind>, exprs: Seq<ExprView>)
    requires
        s.wf(),
    ensures
        exprs_until(s, until, exprs).1.follows(s),
    decreases s.remaining(), 5nat,
{
    reveal(exprs_until);
    reveal(parsed_block_expr);
    if !until.contains(s.peek().value) {
        let (expr, s1) = after(parsed_block_expr(s), s);
        let (comma, s2) = s1.consume(TokenKind::Comma);
        if comma.value is Some {
            lemma_exprs_until(s2, until, exprs.push(expr));
        }
    }
}

/// The rule `parsed_closure_body` leaves a state that follows the one it began in.
pub proof fn lemma_parsed_closure_body(s: ParseState)
    requires
        s.wf(),
    ensures
        parsed_closure_body(s).1.follows(s),
{
    reveal(parsed_closure_body);
    reveal(stmts_until);
    reveal(typed_idents_until);
}

/// The rule `parsed_braced_block` consumes the next token whatever it is: the state it
/// leaves follows the state behind that token.
pub proof fn lemma_parsed_braced_block(s: ParseState)
    requires
        s.wf(),
    ensures
        parsed_braced_block(s).1.follows(s.advance()),
{
    reveal(parsed_braced_block);
    reveal(stmts_until);
}

/// The rule `parsed_case` consumes the next token whatever it is: the state it
/// leaves follows the state behind that token.
pub proof fn lemma_parsed_case(s: ParseState)
    requires
        s.wf(),
    ensures
        parsed_case(s).1.follows(s.advance()),
{
    reveal(parsed_case);
    reveal(parsed_binary_expr);
    reveal(parsed_braced_block);
    lemma_parsed_binary_expr(s);
}

/// The rule `ladder` consumes the next token whatever it is: the state it
/// leaves follows the state behind that token.
pub proof fn lemma_ladder(s: ParseState, cases: Seq<ConditionalView>)
    requires
        s.wf(),
    ensures
        ladder(s, cases).1.follows(s.advance()),
    decreases s.remaining(), 12nat,
{
    reveal(ladder);
    reveal(ladder_end);
    reveal(parsed_case);
    lemma_parsed_case(s);
    let (case, s1) = after(parsed_case(s), s);
    lemma_ladder_end(s1, cases.push(case));
}

/// The rule `ladder_end` leaves a state that follows the one it began in.
pub proof fn lemma_ladder_end(s: ParseState, cases: Seq<ConditionalView>)
    requires
        s.wf(),
    ensures
        ladder_end(s, cases).1.follows(s),
    decreases s.remaining(), 8nat,
{
    reveal(ladder_end);
    reveal(ladder);
    reveal(parsed_braced_block);
    let (otherwise, s1) = s.consume(TokenKind::Else);
    if otherwise.value is Some {
        let (again, s2) = s1.consume(TokenKind::If);
        if again.value is Some {
            lemma_ladder(s2, cases);
        }
    }
}

/// The rule `parsed_do` consumes the next token whatever it is: the state it
/// leaves follows the state behind that token.
pub proof fn lemma_parsed_do(s: ParseState)
    requires
        s.wf(),
    ensures
        parsed_do(s).1.follows(s.advance()),
{
    reveal(parsed_do);
    reveal(parsed_block_expr);
    reveal(parsed_braced_block);
    lemma_parsed_braced_block(s);
}

/// The rule `parsed_handler` leaves a state that follows the one it began in.
pub proof fn lemma_parsed_handler(s: ParseState)
    requires
        s.wf(),
    ensures
        parsed_handler(s).1.follows(s),
{
    reveal(parsed_handler);
    reveal(effects_until);
    reveal(items_until);
}

/// The rule `parsed_block_call` consumes the next token whatever it is: the state it
/// leaves follows the state behind that token.
pub proof fn lemma_parsed_block_call(s: ParseState)
    requires
        s.wf(),
    ensures
        parsed_block_call(s).1.follows(s.advance()),
{
    reveal(parsed_block_call);
    reveal(parsed_binary_expr);
    reveal(parsed_closure_body);
    lemma_parsed_binary_expr(s);
}

/// The rule `parsed_block_expr` consumes the next token whatever it is: the state it
/// leaves follows the state behind that token.
pub proof fn lemma_parsed_block_expr(s: ParseState)
    requires
        s.wf(),
    ensures
        parsed_block_expr(s).1.follows(s.advance()),
{
    reveal(parsed_block_expr);
    reveal(ladder);
    reveal(parsed_block_call);
    reveal(parsed_closure_body);
    reveal(parsed_do);
    reveal(parsed_handler);
    let next = s.peek().value;
    if next == TokenKind::If {
        lemma_ladder(s.advance(), seq![]);
    } else if next == TokenKind::Do {
        lemma_parsed_do(s.advance());
    } else if next == TokenKind::Handle {
        lemma_parsed_handler(s.advance());
    } else if next != TokenKind::CurlyL {
        lemma_parsed_block_call(s);
    }
}

/// The rule `parsed_stmt` consumes the next token whatever it is: the state it
/// leaves follows the state behind that token.
pub proof fn lemma_parsed_stmt(s: ParseState)
    requires
        s.wf(),
    ensures
        parsed_stmt(s).1.follows(s.advance()),
{
    reveal(parsed_stmt);
    reveal(binary_exprs_until);
    reveal(parsed_block_expr);
    reveal(parsed_free_binary_expr);
    reveal(typed_idents_until);
    lemma_parsed_block_expr(s);
}

/// The rule `stmts_until` leaves a state that follows the one it began in.
pub proof fn lemma_stmts_until(s: ParseState, until: Seq<TokenKind>, stmts: Seq<StatementView>)
    requires
        s.wf(),
    ensures
        stmts_until(s, until, stmts).1.follows(s),
    decreases s.remaining(), 6nat,
{
    reveal(stmts_until);
    reveal(parsed_stmt);
    let next = s.peek().value;
    if !(next == TokenKind::Eof || until.contains(next)) {
        let (stmt, s1) = after(parsed_stmt(s), s);
        if s1.remaining() < s.remaining() {
            lemma_stmts_until(s1, until, stmts.push(stmt));
        }
    }
}

/// The rule `parsed_function` consumes the next token whatever it is: the state it
/// leaves follows the state behind that token.
pub proof fn lemma_parsed_function(s: ParseState)
    requires
        s.wf(),
    ensures
        parsed_function(s).1.follows(s.advance()),
{
    reveal(parsed_function);
    reveal(parsed_braced_block);
    reveal(parsed_function_header);
    lemma_parsed_function_header(s);
}

/// The rule `parsed_item` consumes the next token whatever it is: the state it
/// leaves follows the state behind that token.
pub proof fn lemma_parsed_item(s: ParseState)
    requires
        s.wf(),
    ensures
        parsed_item(s).1.follows(s.advance()),
{
    reveal(parsed_item);
    reveal(generic_params);
    reveal(items_until);
    reveal(parsed_braced_block);
    reveal(parsed_function);
    lemma_parsed_function(s);
}

/// The rule `items_until` leaves a state that follows the one it began in.
pub proof fn lemma_items_until(s: ParseState, until: Seq<TokenKind>, items: Seq<ItemView>)
    requires
        s.wf(),
    ensures
        items_until(s, until, items).1.follows(s),
    decreases s.remaining(), 10nat,
{
    reveal(items_until);
    reveal(parsed_item);
    let next = s.peek().value;
    if !(next == TokenKind::Eof || until.contains(next)) {
        let (item, s1) = after(parsed_item(s), s);
        if s1.remaining() < s.remaining() {
            lemma_items_until(s1, until, items.push(item));
        }
    }
}

/// The items of a file end at the end of the input.
pub proof fn lemma_items_to_end(s: ParseState, items: Seq<ItemView>)
    requires
        s.wf(),
    ensures
        items_to_end(s, items).1.follows(s),
        items_to_end(s, items).1.peek().value == TokenKind::Eof,
    decreases s.remaining(),
{
    reveal(items_to_end);
    reveal(parsed_item);
    if s.peek().value != TokenKind::Eof {
        lemma_parsed_item(s);
        let (item, s1) = after(parsed_item(s), s);
        lemma_items_to_end(s1, items.push(item));
    }
}

} // verus!
