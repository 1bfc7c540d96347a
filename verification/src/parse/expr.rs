//! Expressions.

use crate::ast::expr::conditional_views;
use crate::ast::expr::expr_views;
use crate::ast::expr::lemma_conditional_views_push;
use crate::ast::expr::lemma_expr_views_push;
use crate::ast::expr::statement_views;
use crate::ast::expr::Conditional;
use crate::ast::expr::ConditionalView;
use crate::ast::expr::Expr;
use crate::ast::expr::ExprView;
use crate::ast::generic::typed_ident_views;
use crate::ast::generic::TypedIdent;
use crate::ast::statement::Statement;
use crate::diagnostic::Code;
use crate::parse::after;
use crate::parse::atoms::group_atoms;
use crate::parse::atoms::parsed_ident;
use crate::parse::atoms::parsed_integer;
use crate::parse::combinators::all_or_nothing;
use crate::parse::combinators::typed_idents_until;
use crate::parse::group_parse_state;
use crate::parse::item::items_until;
use crate::parse::paths::group_paths;
use crate::parse::paths::parsed_qualified_ident;
use crate::parse::statement::parsed_braced_block;
use crate::parse::statement::stmts_until;
use crate::parse::types::effects_until;
use crate::parse::ParseState;
use crate::parse::Parser;
use crate::token::TokenKind;
use crate::tokens::Operator;
use vstd::prelude::*;

verus! {

broadcast use {group_parse_state, group_atoms, group_paths};

/// An operand: an expression in round brackets, one of the keywords `return`
/// and `k`, a qualified name or an integer literal. Any other token is
/// consumed, reported as unexpected and stands in the tree as an error node.
#[verifier::opaque]
pub open spec fn parsed_unary_expr(s: ParseState) -> (ExprView, ParseState)
    decreases s.remaining(), 0nat,
    when s.wf()
{
    let token = s.peek();
    match token.value {
        TokenKind::RoundL => {
            let s1 = s.advance();
            let (expr, s2) = after(parsed_block_expr(s1), s1);
            let (_close, s3) = s2.expect(TokenKind::RoundR);
            (expr, s3)
        },
        TokenKind::Return => (ExprView::Return, s.advance()),
        TokenKind::CC => (ExprView::Continue, s.advance()),
        TokenKind::Ident => {
            let (name, s1) = parsed_qualified_ident(s);
            (ExprView::Ident(name.value), s1)
        },
        TokenKind::Number | TokenKind::BasePrefixNumber => {
            let (literal, s1) = parsed_integer(s);
            (ExprView::Int(literal.value), s1)
        },
        _ => (
            ExprView::Error { err_span: token.span },
            s.advance().report(Code::Unexpected, token.span, token.value.text()),
        ),
    }
}

/// The member accesses and calls behind an operand, applied to it from left
/// to right: `.` and a name, or `(`, arguments with commas between them, and
/// `)`.
#[verifier::opaque]
pub open spec fn postfix(s: ParseState, expr: ExprView) -> (ExprView, ParseState)
    decreases s.remaining(), 0nat,
    when s.wf()
{
    let (op, s1) = s.consume_one_of(seq![TokenKind::RoundL, TokenKind::Dot]);
    if op.value == Some(TokenKind::Dot) {
        let (member, s2) = parsed_ident(s1);
        postfix(s2, ExprView::Member { recv: Box::new(expr), member: member.value })
    } else if op.value == Some(TokenKind::RoundL) {
        let (args, s2) = after(exprs_until(s1, seq![TokenKind::RoundR], seq![]), s1);
        let (_close, s3) = s2.expect(TokenKind::RoundR);
        postfix(s3, ExprView::Call { func: Box::new(expr), args })
    } else {
        (expr, s1)
    }
}

/// An operand with its member accesses and calls.
#[verifier::opaque]
pub open spec fn parsed_free_binary_expr(s: ParseState) -> (ExprView, ParseState)
    decreases s.remaining(), 1nat,
    when s.wf()
{
    let (expr, s1) = after(parsed_unary_expr(s), s);
    postfix(s1, expr)
}

/// The operands of a chain behind the operands `operands`: one behind each
/// further occurrence of the chain's operator.
#[verifier::opaque]
pub open spec fn more_operands(s: ParseState, op_token: TokenKind, operands: Seq<ExprView>) -> (
    Seq<ExprView>,
    ParseState,
)
    decreases s.remaining(), 0nat,
    when s.wf()
{
    let (op, s1) = s.consume(op_token);
    if op.value is Some && s1.remaining() < s.remaining() {
        let (operand, s2) = after(parsed_free_binary_expr(s1), s1);
        more_operands(s2, op_token, operands.push(operand))
    } else {
        (operands, s1)
    }
}

/// A chain of operands with one operator between them. Where one of `+`,
/// `-`, `*` and `/` follows the first operand, a second operand is read
/// behind it, and further ones as long as the same operator follows; the
/// chain is one node. A different operator is left where it is.
#[verifier::opaque]
pub open spec fn parsed_binary_expr(s: ParseState) -> (ExprView, ParseState)
    decreases s.remaining(), 2nat,
    when s.wf()
{
    let (expr, s1) = after(parsed_free_binary_expr(s), s);
    let op_token = s1.peek().value;
    match Operator::of_token(op_token) {
        None => (expr, s1),
        Some(op) => {
            let s2 = s1.advance();
            let (rhs, s3) = after(parsed_free_binary_expr(s2), s2);
            let (operands, s4) = after(more_operands(s3, op_token, seq![expr, rhs]), s3);
            (ExprView::Binary { op: op.in_tree(), operands }, s4)
        },
    }
}

/// A list of chains with commas between them, behind the chains `exprs`: it
/// ends before a token of `until`, which stays, or behind the first chain
/// that no comma follows.
#[verifier::opaque]
pub open spec fn binary_exprs_until(s: ParseState, until: Seq<TokenKind>, exprs: Seq<ExprView>) -> (
    Seq<ExprView>,
    ParseState,
)
    decreases s.remaining(), 3nat,
    when s.wf()
{
    if until.contains(s.peek().value) {
        (exprs, s)
    } else {
        let (expr, s1) = after(parsed_binary_expr(s), s);
        let (comma, s2) = s1.consume(TokenKind::Comma);
        if comma.value is Some {
            binary_exprs_until(s2, until, exprs.push(expr))
        } else {
            (exprs.push(expr), s2)
        }
    }
}

/// A list of expressions with commas between them, behind the expressions
/// `exprs`: it ends before a token of `until`, which stays, or behind the
/// first expression that no comma follows.
#[verifier::opaque]
pub open spec fn exprs_until(s: ParseState, until: Seq<TokenKind>, exprs: Seq<ExprView>) -> (
    Seq<ExprView>,
    ParseState,
)
    decreases s.remaining(), 5nat,
    when s.wf()
{
    if until.contains(s.peek().value) {
        (exprs, s)
    } else {
        let (expr, s1) = after(parsed_block_expr(s), s);
        let (comma, s2) = s1.consume(TokenKind::Comma);
        if comma.value is Some {
            exprs_until(s2, until, exprs.push(expr))
        } else {
            (exprs.push(expr), s2)
        }
    }
}

/// What stands between the braces of a closure: parameters and `->`, if a
/// colon is the second token, and then statements up to `}`.
#[verifier::opaque]
pub open spec fn parsed_closure_body(s: ParseState) -> (ExprView, ParseState)
    decreases s.remaining(), 7nat,
    when s.wf()
{
    if s.peek2().value == TokenKind::Colon {
        let (params, s1) = after(typed_idents_until(s, seq![TokenKind::Arrow], seq![]), s);
        let (_arrow, s2) = s1.expect(TokenKind::Arrow);
        let (stmts, s3) = after(stmts_until(s2, seq![TokenKind::CurlyR], seq![]), s2);
        (ExprView::Closure { params: all_or_nothing(params), stmts }, s3)
    } else {
        let (stmts, s1) = after(stmts_until(s, seq![TokenKind::CurlyR], seq![]), s);
        (ExprView::Closure { params: seq![], stmts }, s1)
    }
}

/// One case of an if-else ladder: a condition and a block.
#[verifier::opaque]
pub open spec fn parsed_case(s: ParseState) -> (ConditionalView, ParseState)
    decreases s.remaining(), 11nat,
    when s.wf()
{
    let (condition, s1) = after(parsed_binary_expr(s), s);
    let (then_body, s2) = after(parsed_braced_block(s1), s1);
    (ConditionalView { condition, then_body }, s2)
}

/// The cases of an if-else ladder behind the cases `cases`, from the
/// condition of the next case on: a case, and what follows it.
#[verifier::opaque]
pub open spec fn ladder(s: ParseState, cases: Seq<ConditionalView>) -> (ExprView, ParseState)
    decreases s.remaining(), 12nat,
    when s.wf()
{
    let (case, s1) = after(parsed_case(s), s);
    ladder_end(s1, cases.push(case))
}

/// What follows a case of an if-else ladder with the cases `cases`: nothing
/// more, or `else` and a last block, or `else if` and the rest of the ladder.
#[verifier::opaque]
pub open spec fn ladder_end(s: ParseState, cases: Seq<ConditionalView>) -> (ExprView, ParseState)
    decreases s.remaining(), 8nat,
    when s.wf()
{
    let (otherwise, s1) = s.consume(TokenKind::Else);
    if otherwise.value is None {
        (ExprView::Conditional { cases, final_else: seq![] }, s1)
    } else {
        let (again, s2) = s1.consume(TokenKind::If);
        if again.value is None {
            let (final_else, s3) = after(parsed_braced_block(s2), s2);
            (ExprView::Conditional { cases, final_else }, s3)
        } else {
            ladder(s2, cases)
        }
    }
}

/// A do expression behind its keyword: a block, and behind `with`, if it
/// follows, the handler that the block runs under.
#[verifier::opaque]
pub open spec fn parsed_do(s: ParseState) -> (ExprView, ParseState)
    decreases s.remaining(), 11nat,
    when s.wf()
{
    let (stmts, s1) = after(parsed_braced_block(s), s);
    let (with, s2) = s1.consume(TokenKind::With);
    if with.value is None {
        (ExprView::Do { stmts }, s2)
    } else {
        let (handler, s3) = after(parsed_block_expr(s2), s2);
        (ExprView::DoWith { stmts, handler: Box::new(handler) }, s3)
    }
}

/// A handler behind its keyword: the effects it implements, with commas
/// between them, and its items in braces.
#[verifier::opaque]
pub open spec fn parsed_handler(s: ParseState) -> (ExprView, ParseState)
    decreases s.remaining(), 11nat,
    when s.wf()
{
    let (impl_effects, s1) = after(effects_until(s, seq![TokenKind::CurlyL], seq![]), s);
    let (_open, s2) = s1.expect(TokenKind::CurlyL);
    let (items, s3) = after(items_until(s2, seq![TokenKind::CurlyR], seq![]), s2);
    let (_close, s4) = s3.expect(TokenKind::CurlyR);
    (ExprView::Handler { impl_effects, items }, s4)
}

/// The call that a trailing block makes of the expression before it: the
/// block joins the arguments of a call, and any other expression is called
/// with the block as its one argument.
pub open spec fn block_call(expr: ExprView, block: ExprView) -> ExprView {
    match expr {
        ExprView::Call { func, args } => ExprView::BlockCall { func, args: args.push(block) },
        _ => ExprView::BlockCall { func: Box::new(expr), args: seq![block] },
    }
}

/// A chain of operands, or a call with a trailing block: where the
/// expression is no chain of several operands and `{` follows it, a closure
/// is read behind it and becomes its last argument.
#[verifier::opaque]
pub open spec fn parsed_block_call(s: ParseState) -> (ExprView, ParseState)
    decreases s.remaining(), 3nat,
    when s.wf()
{
    let (expr, s1) = after(parsed_binary_expr(s), s);
    if expr is Binary {
        (expr, s1)
    } else {
        let (open, s2) = s1.consume(TokenKind::CurlyL);
        if open.value is Some {
            let (block, s3) = after(parsed_closure_body(s2), s2);
            let (_close, s4) = s3.expect(TokenKind::CurlyR);
            (block_call(expr, block), s4)
        } else {
            (expr, s2)
        }
    }
}

/// An expression that may end with a block: an if-else ladder, a do
/// expression, a closure in braces, a handler, or a chain of operands with
/// or without a trailing block.
#[verifier::opaque]
pub open spec fn parsed_block_expr(s: ParseState) -> (ExprView, ParseState)
    decreases s.remaining(), 4nat,
    when s.wf()
{
    match s.peek().value {
        TokenKind::If => ladder(s.advance(), seq![]),
        TokenKind::Do => parsed_do(s.advance()),
        TokenKind::CurlyL => {
            let s1 = s.advance();
            let (closure, s2) = after(parsed_closure_body(s1), s1);
            let (_close, s3) = s2.expect(TokenKind::CurlyR);
            (closure, s3)
        },
        TokenKind::Handle => parsed_handler(s.advance()),
        _ => parsed_block_call(s),
    }
}

impl Expr {
    /// Whether the expression is a chain of several operands.
    pub fn is_chain(&self) -> (b: bool)
        ensures
            b == (self.view() is Binary),
    {
        match self {
            Expr::Binary { .. } => true,
            _ => false,
        }
    }

    /// Makes the call with a trailing block: the block becomes the last
    /// argument of a call, and is the one argument with which any other
    /// expression is called.
    pub fn with_block(self, block_arg: Expr) -> (call: Expr)
        ensures
            call.view() == block_call(self.view(), block_arg.view()),
    {
        // determine whether we can add this argument to an existing function call
        match self {
            Expr::Call { func, args } => {
                let mut args = args;
                proof {
                    lemma_expr_views_push(args@, block_arg);
                }
                args.push(block_arg);
                Expr::BlockCall { func, args }
            },
            expr => {
                let mut args: Vec<Expr> = Vec::new();
                args.push(block_arg);
                assert(expr_views(args@) =~= seq![block_arg.view()]);
                Expr::BlockCall { func: Box::new(expr), args }
            },
        }
    }
}

impl<'a> Parser<'a> {
    /// Parses an expression that can be the operand of a binary expression.
    /// This includes:
    /// - qualified identifiers: ident::...::ident
    /// - integer literals: 0xFF
    /// - keyword literals
    /// - parenthesized expressions: ( blockbased )
    pub fn unary_expr(&mut self) -> (expr: Expr)
        requires
            old(self).wf(),
        ensures
            final(self).wf(),
            (expr.view(), final(self)@) == parsed_unary_expr(old(self)@),
            final(self)@.follows(old(self)@.advance()),
        decreases old(self)@.remaining(), 0nat,
    {
        proof {
            reveal(parsed_unary_expr);
            reveal(parsed_block_expr);
            self.lemma_wf();
        }
        let token = self.peek();
        match token.value {
            TokenKind::RoundL => {
                // parenthesized expression: (expr)
                self.advance();
                let expr = self.block_expr();
                let _ = self.expect(TokenKind::RoundR);
                expr
            },
            TokenKind::Return => {
                self.advance();
                Expr::Return
            },
            TokenKind::CC => {
                self.advance();
                Expr::Continue
            },
            TokenKind::Ident => {
                // qualified identifier: ident::ident
                let (_, qid) = self.qualified_ident().into_span_value();
                Expr::Ident(qid)
            },
            TokenKind::Number | TokenKind::BasePrefixNumber => {
                // integer literal
                let (_, literal) = self.integer().into_span_value();
                Expr::Int(literal)
            },
            _ => {
                self.advance();
                let err_span = token.span;
                self.ds.add(Code::Unexpected, err_span, token.value.as_str());
                Expr::Error { err_span }
            },
        }
    }

    /// Parses a free binary expression. Free binary operators include:
    /// - member access: unary . ident
    /// - function call: unary ( args )
    /// - any unary expression: unary
    pub fn free_binary_expr(&mut self) -> (expr: Expr)
        requires
            old(self).wf(),
        ensures
            final(self).wf(),
            (expr.view(), final(self)@) == parsed_free_binary_expr(old(self)@),
            final(self)@.follows(old(self)@.advance()),
        decreases old(self)@.remaining(), 1nat,
    {
        proof {
            reveal(parsed_free_binary_expr);
            reveal(parsed_unary_expr);
            reveal(postfix);
            reveal(exprs_until);
            self.lemma_wf();
        }
        let mut expr = self.unary_expr();
        let free_ops = [TokenKind::RoundL, TokenKind::Dot];
        assert(free_ops@ =~= seq![TokenKind::RoundL, TokenKind::Dot]);
        loop
            invariant
                self.wf(),
                old(self)@.wf(),
                self@.follows(old(self)@.advance()),
                free_ops@ == seq![TokenKind::RoundL, TokenKind::Dot],
                postfix(self@, expr.view()) == parsed_free_binary_expr(old(self)@),
            decreases self@.remaining(),
        {
            proof {
                reveal(parsed_free_binary_expr);
                reveal(parsed_unary_expr);
                reveal(postfix);
                reveal(exprs_until);
            }
            let op_token = self.consume_one_of(&free_ops).value;
            match op_token {
                Some(TokenKind::Dot) => {
                    let (_, rhs) = self.ident().into_span_value();
                    expr = Expr::Member { recv: Box::new(expr), member: rhs };
                },
                Some(TokenKind::RoundL) => {
                    let until = [TokenKind::RoundR];
                    assert(until@ =~= seq![TokenKind::RoundR]);
                    let args = self.exprs_until(&until);
                    let _ = self.expect(TokenKind::RoundR);
                    expr = Expr::Call { func: Box::new(expr), args };
                },
                _ => {
                    assert(op_token is Some ==> free_ops@.contains(op_token.unwrap()));
                    return expr;
                },
            }
        }
    }

    /// Parses the operands of a chain behind its first ones: one behind
    /// each further occurrence of the chain's operator.
    fn more_operands(&mut self, op_token: TokenKind, first: Vec<Expr>) -> (all: Vec<Expr>)
        requires
            old(self).wf(),
            op_token != TokenKind::Eof,
        ensures
            final(self).wf(),
            (expr_views(all@), final(self)@) == more_operands(
                old(self)@,
                op_token,
                expr_views(first@),
            ),
            final(self)@.follows(old(self)@),
        decreases old(self)@.remaining(), 0nat,
    {
        proof {
            reveal(more_operands);
            reveal(parsed_free_binary_expr);
            self.lemma_wf();
        }
        let ghost begin = expr_views(first@);
        let mut operands = first;
        loop
            invariant
                self.wf(),
                self@.follows(old(self)@),
                op_token != TokenKind::Eof,
                begin == expr_views(first@),
                more_operands(self@, op_token, expr_views(operands@)) == more_operands(
                    old(self)@,
                    op_token,
                    begin,
                ),
            decreases self@.remaining(),
        {
            proof {
                reveal(more_operands);
                reveal(parsed_free_binary_expr);
            }
            if self.consume(op_token).value.is_none() {
                return operands;
            }
            let operand = self.free_binary_expr();
            proof {
                lemma_expr_views_push(operands@, operand);
            }
            operands.push(operand);
        }
    }

    /// Parses a binary expression: a sequence of free binary expressions separated by the same operator.
    pub fn binary_expr(&mut self) -> (expr: Expr)
        requires
            old(self).wf(),
        ensures
            final(self).wf(),
            (expr.view(), final(self)@) == parsed_binary_expr(old(self)@),
            final(self)@.follows(old(self)@.advance()),
        decreases old(self)@.remaining(), 2nat,
    {
        proof {
            self.lemma_wf();
        }
        let expr = self.free_binary_expr();
        let op_token = self.peek().value;
        let op = match Operator::try_from(op_token) {
            Ok(op) => op,
            Err(_) => {
                // no binary operator
                proof {
                    reveal(parsed_binary_expr);
                    reveal(parsed_free_binary_expr);
                }
                return expr;
            },
        };
        self.advance();
        let rhs = self.free_binary_expr();
        let mut first: Vec<Expr> = Vec::new();
        first.push(expr);
        first.push(rhs);
        assert(expr_views(first@) =~= seq![expr.view(), rhs.view()]);
        let operands = self.more_operands(op_token, first);
        proof {
            reveal(parsed_binary_expr);
            reveal(more_operands);
            reveal(parsed_free_binary_expr);
        }
        Expr::Binary { op: op.into_tree(), operands }
    }

    /// Parses binary expressions separated by commas. Stops before a token
    /// of `until`, which it leaves, or behind an expression that no comma
    /// follows.
    pub fn binary_exprs_until(&mut self, until: &[TokenKind]) -> (exprs: Vec<Expr>)
        requires
            old(self).wf(),
        ensures
            final(self).wf(),
            (expr_views(exprs@), final(self)@) == binary_exprs_until(old(self)@, until@, seq![]),
            final(self)@.follows(old(self)@),
        decreases old(self)@.remaining(), 3nat,
    {
        proof {
            reveal(binary_exprs_until);
            reveal(parsed_binary_expr);
            self.lemma_wf();
        }
        let mut values: Vec<Expr> = Vec::new();
        assert(expr_views(values@) =~= seq![]);
        loop
            invariant
                self.wf(),
                self@.follows(old(self)@),
                binary_exprs_until(self@, until@, expr_views(values@)) == binary_exprs_until(
                    old(self)@,
                    until@,
                    seq![],
                ),
            decreases self@.remaining(),
        {
            proof {
                reveal(binary_exprs_until);
                reveal(parsed_binary_expr);
            }
            let next_token = self.peek();
            if next_token.value.is_one_of(until) {
                return values;
            }
            let expr = self.binary_expr();
            proof {
                lemma_expr_views_push(values@, expr);
            }
            values.push(expr);
            if self.consume(TokenKind::Comma).value.is_none() {
                return values;
            }
        }
    }

    /// Parses expressions separated by commas. Stops before a token of
    /// `until`, which it leaves, or behind an expression that no comma
    /// follows.
    pub fn exprs_until(&mut self, until: &[TokenKind]) -> (exprs: Vec<Expr>)
        requires
            old(self).wf(),
        ensures
            final(self).wf(),
            (expr_views(exprs@), final(self)@) == exprs_until(old(self)@, until@, seq![]),
            final(self)@.follows(old(self)@),
        decreases old(self)@.remaining(), 5nat,
    {
        proof {
            reveal(exprs_until);
            reveal(parsed_block_expr);
            self.lemma_wf();
        }
        let mut values: Vec<Expr> = Vec::new();
        assert(expr_views(values@) =~= seq![]);
        loop
            invariant
                self.wf(),
                self@.follows(old(self)@),
                exprs_until(self@, until@, expr_views(values@)) == exprs_until(
                    old(self)@,
                    until@,
                    seq![],
                ),
            decreases self@.remaining(),
        {
            proof {
                reveal(exprs_until);
                reveal(parsed_block_expr);
            }
            let next_token = self.peek();
            if next_token.value.is_one_of(until) {
                return values;
            }
            let expr = self.block_expr();
            proof {
                lemma_expr_views_push(values@, expr);
            }
            values.push(expr);
            if self.consume(TokenKind::Comma).value.is_none() {
                return values;
            }
        }
    }

    /// A closure body: args -> stmts.
    pub fn closure_body(&mut self) -> (expr: Expr)
        requires
            old(self).wf(),
        ensures
            final(self).wf(),
            (expr.view(), final(self)@) == parsed_closure_body(old(self)@),
            final(self)@.follows(old(self)@),
        decreases old(self)@.remaining(), 7nat,
    {
        proof {
            reveal(parsed_closure_body);
            reveal(stmts_until);
            reveal(typed_idents_until);
            self.lemma_wf();
        }
        let params = if self.peek2().value == TokenKind::Colon {
            // parameters exist
            let until = [TokenKind::Arrow];
            assert(until@ =~= seq![TokenKind::Arrow]);
            let params = self.typed_idents_until(&until);
            let _ = self.expect(TokenKind::Arrow);
            params
        } else {
            let params: Vec<TypedIdent> = Vec::new();
            assert(typed_ident_views(params@) =~= seq![]);
            params
        };
        let stmts = self.block_stmts();
        Expr::Closure { params, stmts }
    }

    /// Parses one case of an if-else ladder: binary { block }
    pub fn conditional_case(&mut self) -> (case: Conditional)
        requires
            old(self).wf(),
        ensures
            final(self).wf(),
            (case.view(), final(self)@) == parsed_case(old(self)@),
            final(self)@.follows(old(self)@),
        decreases old(self)@.remaining(), 11nat,
    {
        proof {
            reveal(parsed_case);
            reveal(parsed_binary_expr);
            reveal(parsed_braced_block);
            self.lemma_wf();
        }
        let condition = self.binary_expr();
        let then_body = self.braced_block();
        Conditional { condition, then_body }
    }

    /// Parses the rest of an if-else ladder behind the cases `earlier`:
    /// binary { block } else if binary { block } ... else { block }
    pub fn ladder(&mut self, earlier: Vec<Conditional>) -> (expr: Expr)
        requires
            old(self).wf(),
        ensures
            final(self).wf(),
            (expr.view(), final(self)@) == ladder(old(self)@, conditional_views(earlier@)),
            final(self)@.follows(old(self)@),
        decreases old(self)@.remaining(), 12nat,
    {
        proof {
            reveal(ladder);
            reveal(parsed_case);
            reveal(ladder_end);
            self.lemma_wf();
        }
        let mut cases = earlier;
        let case = self.conditional_case();
        proof {
            lemma_conditional_views_push(cases@, case);
        }
        cases.push(case);
        self.ladder_end(cases)
    }

    /// Parses what follows a case of an if-else ladder: nothing, `else` and
    /// a block, or `else if` and further cases.
    pub fn ladder_end(&mut self, cases: Vec<Conditional>) -> (expr: Expr)
        requires
            old(self).wf(),
        ensures
            final(self).wf(),
            (expr.view(), final(self)@) == ladder_end(old(self)@, conditional_views(cases@)),
            final(self)@.follows(old(self)@),
        decreases old(self)@.remaining(), 8nat,
    {
        proof {
            reveal(ladder_end);
            reveal(ladder);
            reveal(parsed_braced_block);
            self.lemma_wf();
        }
        if self.consume(TokenKind::Else).value.is_none() {
            // no else block
            let final_else: Vec<Statement> = Vec::new();
            assert(statement_views(final_else@) =~= seq![]);
            return Expr::Conditional { cases, final_else };
        }
        if self.consume(TokenKind::If).value.is_none() {
            // final else block
            let final_else = self.braced_block();
            return Expr::Conditional { cases, final_else };
        }
        // otherwise, continue with the next case
        self.ladder(cases)
    }

    /// Parses an if-else ladder behind its first `if`.
    pub fn conditional(&mut self) -> (expr: Expr)
        requires
            old(self).wf(),
        ensures
            final(self).wf(),
            (expr.view(), final(self)@) == ladder(old(self)@, seq![]),
            final(self)@.follows(old(self)@),
        decreases old(self)@.remaining(), 13nat,
    {
        let cases: Vec<Conditional> = Vec::new();
        assert(conditional_views(cases@) =~= seq![]);
        self.ladder(cases)
    }

    /// Parses a do expression behind `do`: an immediately invoked block, or,
    /// with `with`, a block that runs under an effect handler.
    pub fn do_expr(&mut self) -> (expr: Expr)
        requires
            old(self).wf(),
        ensures
            final(self).wf(),
            (expr.view(), final(self)@) == parsed_do(old(self)@),
            final(self)@.follows(old(self)@),
        decreases old(self)@.remaining(), 11nat,
    {
        proof {
            reveal(parsed_do);
            reveal(parsed_block_expr);
            reveal(parsed_braced_block);
            self.lemma_wf();
        }
        let stmts = self.braced_block();
        if self.consume(TokenKind::With).value.is_none() {
            // do-expression
            return Expr::Do { stmts };
        }
        // do-with expression
        let handler = self.block_expr();
        Expr::DoWith { stmts, handler: Box::new(handler) }
    }

    /// Parses a handler behind `handle`: effect, ..., effect { function-or-finally }
    pub fn handler(&mut self) -> (expr: Expr)
        requires
            old(self).wf(),
        ensures
            final(self).wf(),
            (expr.view(), final(self)@) == parsed_handler(old(self)@),
            final(self)@.follows(old(self)@),
        decreases old(self)@.remaining(), 11nat,
    {
        proof {
            reveal(parsed_handler);
            reveal(effects_until);
            reveal(items_until);
            self.lemma_wf();
        }
        let until = [TokenKind::CurlyL];
        assert(until@ =~= seq![TokenKind::CurlyL]);
        let impl_effects = self.effects_until(&until);
        let _ = self.expect(TokenKind::CurlyL);
        let items = self.items_until_curly();
        let _ = self.expect(TokenKind::CurlyR);
        Expr::Handler { impl_effects, items }
    }

    /// Parses a binary expression and the block that may follow it: where
    /// one does, the expression is called with the block as its last
    /// argument.
    pub fn block_call(&mut self) -> (expr: Expr)
        requires
            old(self).wf(),
        ensures
            final(self).wf(),
            (expr.view(), final(self)@) == parsed_block_call(old(self)@),
            final(self)@.follows(old(self)@.advance()),
        decreases old(self)@.remaining(), 3nat,
    {
        proof {
            reveal(parsed_block_call);
            reveal(parsed_binary_expr);
            reveal(parsed_closure_body);
            self.lemma_wf();
        }
        let expr = self.binary_expr();
        if !expr.is_chain() && self.consume(TokenKind::CurlyL).value.is_some() {
            let block_arg = self.closure_body();
            let _ = self.expect(TokenKind::CurlyR);
            expr.with_block(block_arg)
        } else {
            expr
        }
    }

    /// Block-based expressions include:
    /// - conditional: if binary { block } else ... else if binary { block } else { block }
    /// - do: do { block }
    /// - closure: { args -> block }
    /// - block-based function call: unary { args -> block }
    /// - handle expression: handle effect, ..., effect { function-or-finally }
    /// - any binary expression: binary
    pub fn block_expr(&mut self) -> (expr: Expr)
        requires
            old(self).wf(),
        ensures
            final(self).wf(),
            (expr.view(), final(self)@) == parsed_block_expr(old(self)@),
            final(self)@.follows(old(self)@.advance()),
        decreases old(self)@.remaining(), 4nat,
    {
        proof {
            reveal(parsed_block_expr);
            reveal(ladder);
            reveal(parsed_block_call);
            reveal(parsed_closure_body);
            reveal(parsed_do);
            reveal(parsed_handler);
            self.lemma_wf();
        }
        let head_tkn = self.peek();
        match head_tkn.value {
            TokenKind::If => {
                // if-then or if-then-else
                self.advance();
                self.conditional()
            },
            TokenKind::Do => {
                // do expression (immediately invoked nullary closure)
                // or do-with expression (bind effect handler)
                self.advance();
                self.do_expr()
            },
            TokenKind::CurlyL => {
                // closure
                self.advance();
                let closure = self.closure_body();
                let _ = self.expect(TokenKind::CurlyR);
                closure
            },
            TokenKind::Handle => {
                // handler
                self.advance();
                self.handler()
            },
            _ => {
                // block function call or fallthrough
                self.block_call()
            },
        }
    }
}

} // verus!
