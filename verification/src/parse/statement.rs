//! Statements.

use crate::ast::expr::lemma_statement_views_push;
use crate::ast::expr::statement_views;
use crate::ast::statement::Statement;
use crate::ast::statement::StatementView;
use crate::parse::after;
use crate::parse::combinators::all_or_nothing;
use crate::parse::combinators::typed_idents_until;
use crate::parse::expr::binary_exprs_until;
use crate::parse::expr::parsed_block_expr;
use crate::parse::expr::parsed_free_binary_expr;
use crate::parse::group_parse_state;
use crate::parse::ParseState;
use crate::parse::Parser;
use crate::token::TokenKind;
use vstd::prelude::*;

verus! {

broadcast use group_parse_state;

/// A statement. `:` begins the invocation of a continuation: the
/// continuation, its arguments with commas between them, and `;`. `let`
/// begins a declaration: names with their types, `=`, an expression and `;`.
/// Anything else is an expression: one that ends with a block is a block
/// statement, behind which a semicolon may stand; any other one is an
/// expression statement where a semicolon follows it, and the value of its
/// block where none does.
#[verifier::opaque]
pub open spec fn parsed_stmt(s: ParseState) -> (StatementView, ParseState)
    decreases s.remaining(), 5nat,
    when s.wf()
{
    match s.peek().value {
        TokenKind::Colon => {
            let s1 = s.advance();
            let (cont, s2) = after(parsed_free_binary_expr(s1), s1);
            let (args, s3) = after(binary_exprs_until(s2, seq![TokenKind::Semi], seq![]), s2);
            let (_semi, s4) = s3.expect(TokenKind::Semi);
            (StatementView::Continue { cont, args }, s4)
        },
        TokenKind::Let => {
            let s1 = s.advance();
            let (bindings, s2) = after(typed_idents_until(s1, seq![TokenKind::Equals], seq![]), s1);
            let (_equals, s3) = s2.expect(TokenKind::Equals);
            let (init, s4) = after(parsed_block_expr(s3), s3);
            let (_semi, s5) = s4.expect(TokenKind::Semi);
            (StatementView::Let { bindings: all_or_nothing(bindings), init }, s5)
        },
        _ => {
            let (expr, s1) = after(parsed_block_expr(s), s);
            let (semi, s2) = s1.consume(TokenKind::Semi);
            if expr.is_block() {
                (StatementView::BlockExpr(expr), s2)
            } else if semi.value is Some {
                (StatementView::Expr(expr), s2)
            } else {
                (StatementView::BlockEndExpr(expr), s2)
            }
        },
    }
}

/// Statements one behind the other, behind the statements `stmts`, up to
/// the end of the input or a token of `until`, which stays.
#[verifier::opaque]
pub open spec fn stmts_until(s: ParseState, until: Seq<TokenKind>, stmts: Seq<StatementView>) -> (
    Seq<StatementView>,
    ParseState,
)
    decreases s.remaining(), 6nat,
    when s.wf()
{
    let next = s.peek().value;
    if next == TokenKind::Eof || until.contains(next) {
        (stmts, s)
    } else {
        let (stmt, s1) = after(parsed_stmt(s), s);
        if s1.remaining() < s.remaining() {
            stmts_until(s1, until, stmts.push(stmt))
        } else {
            (stmts.push(stmt), s1)
        }
    }
}

/// A block: `{`, statements and `}`.
#[verifier::opaque]
pub open spec fn parsed_braced_block(s: ParseState) -> (Seq<StatementView>, ParseState)
    decreases s.remaining(), 7nat,
    when s.wf()
{
    let (_open, s1) = s.expect(TokenKind::CurlyL);
    let (stmts, s2) = after(stmts_until(s1, seq![TokenKind::CurlyR], seq![]), s1);
    let (_close, s3) = s2.expect(TokenKind::CurlyR);
    (stmts, s3)
}

impl<'a> Parser<'a> {
    /// Parses a block: { statements }
    pub fn braced_block(&mut self) -> (stmts: Vec<Statement>)
        requires
            old(self).wf(),
        ensures
            final(self).wf(),
            (statement_views(stmts@), final(self)@) == parsed_braced_block(old(self)@),
            final(self)@.follows(old(self)@.advance()),
        decreases old(self)@.remaining(), 7nat,
    {
        proof {
            reveal(parsed_braced_block);
            reveal(stmts_until);
            self.lemma_wf();
        }
        let _ = self.expect(TokenKind::CurlyL);
        let stmts = self.block_stmts();
        let _ = self.expect(TokenKind::CurlyR);
        stmts
    }

    /// Parses a statement. Statements include:
    /// - expression: blockexpr ;
    /// - block expression: blockexpr-end-with-{}
    /// - declaration: let ident: type, ..., ident: type = blockexpr ;
    /// - continuation: : freebinary binary , ... , binary ;
    pub fn stmt(&mut self) -> (stmt: Statement)
        requires
            old(self).wf(),
        ensures
            final(self).wf(),
            (stmt.view(), final(self)@) == parsed_stmt(old(self)@),
            final(self)@.follows(old(self)@.advance()),
        decreases old(self)@.remaining(), 5nat,
    {
        proof {
            reveal(parsed_stmt);
            reveal(binary_exprs_until);
            reveal(parsed_block_expr);
            reveal(parsed_free_binary_expr);
            reveal(typed_idents_until);
            self.lemma_wf();
        }
        let head_tkn = self.peek();
        match head_tkn.value {
            TokenKind::Colon => {
                // continuation statement
                self.advance();
                let cont = self.free_binary_expr();
                let until = [TokenKind::Semi];
                assert(until@ =~= seq![TokenKind::Semi]);
                let args = self.binary_exprs_until(&until);
                let _ = self.expect(TokenKind::Semi);
                Statement::Continue { cont, args }
            },
            TokenKind::Let => {
                // let statement
                self.advance();
                let until = [TokenKind::Equals];
                assert(until@ =~= seq![TokenKind::Equals]);
                let bindings = self.typed_idents_until(&until);
                let _ = self.expect(TokenKind::Equals);
                let init = self.block_expr();
                let _ = self.expect(TokenKind::Semi);
                Statement::Let { bindings, init }
            },
            _ => {
                // expression statement
                let expr = self.block_expr();
                if expr.is_block_expr() {
                    let _ = self.consume(TokenKind::Semi);
                    Statement::BlockExpr(expr)
                } else if self.consume(TokenKind::Semi).value.is_some() {
                    Statement::Expr(expr)
                } else {
                    Statement::BlockEndExpr(expr)
                }
            },
        }
    }

    /// Parses the statements of a block, up to its closing brace.
    pub fn block_stmts(&mut self) -> (stmts: Vec<Statement>)
        requires
            old(self).wf(),
        ensures
            final(self).wf(),
            (statement_views(stmts@), final(self)@) == stmts_until(
                old(self)@,
                seq![TokenKind::CurlyR],
                seq![],
            ),
            final(self)@.follows(old(self)@),
        decreases old(self)@.remaining(), 6nat,
    {
        proof {
            reveal(stmts_until);
            reveal(parsed_stmt);
            self.lemma_wf();
        }
        let until = [TokenKind::CurlyR];
        assert(until@ =~= seq![TokenKind::CurlyR]);
        let mut values: Vec<Statement> = Vec::new();
        assert(statement_views(values@) =~= seq![]);
        loop
            invariant
                self.wf(),
                self@.follows(old(self)@),
                until@ == seq![TokenKind::CurlyR],
                stmts_until(self@, until@, statement_views(values@)) == stmts_until(
                    old(self)@,
                    until@,
                    seq![],
                ),
            decreases self@.remaining(),
        {
            proof {
                reveal(stmts_until);
                reveal(parsed_stmt);
            }
            let next_token = self.peek();
            if next_token.value == TokenKind::Eof || next_token.value.is_one_of(&until) {
                return values;
            }
            let stmt = self.stmt();
            proof {
                lemma_statement_views_push(values@, stmt);
            }
            values.push(stmt);
        }
    }
}

} // verus!
