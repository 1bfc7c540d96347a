//! The parser.

use crate::ast::complete::items_complete;
use crate::ast::expr::item_views;
use crate::ast::expr::lemma_item_views_push;
use crate::ast::item::Item;
use crate::ast::item::ItemView;
use crate::ast::shape::items_well_formed;
use crate::cache::key_of;
use crate::cache::lemma_with_name_ok;
use crate::cache::names_ok;
use crate::cache::with_name;
use crate::cache::StringCache;
use crate::cache::StringKey;
use crate::diagnostic::Code;
use crate::diagnostic::Diagnostics;
use crate::diagnostic::Report;
use crate::parse::complete::lemma_items_to_end_complete;
use crate::parse::item::parsed_item;
use crate::parse::shape::lemma_items_to_end_shape;
use crate::span::Span;
use crate::span::Spanned;
use crate::token::Token;
use crate::token::TokenKind;
use crate::tokenizer::lemma_token_at;
use crate::tokenizer::next_start;
use crate::tokenizer::text::space_end;
use crate::tokenizer::token_at;
use crate::tokenizer::Tokenizer;
use vstd::prelude::*;
use vstd::string::StringSliceAdditionalSpecFns;
use vstd::utf8::*;

pub mod atoms;
pub mod combinators;
pub mod complete;
pub mod expr;
pub mod item;
pub mod paths;
pub mod progress;
pub mod shape;
pub mod statement;
pub mod types;

verus! {

/// Everything a parse depends on and changes: the source text and the place
/// in it where the next token begins, the strings interned so far, and the
/// diagnostics recorded so far.
pub struct ParseState {
    pub source: Seq<u8>,
    pub file: StringKey,
    pub cursor: int,
    pub names: Seq<Seq<char>>,
    pub reports: Seq<Report>,
}

impl ParseState {
    /// The source is valid UTF-8, the cursor is one of its character
    /// boundaries, and the interned strings are in order.
    #[verifier::opaque]
    pub open spec fn wf(self) -> bool {
        &&& valid_utf8(self.source)
        &&& self.source.len() <= usize::MAX
        &&& 0 <= self.cursor <= self.source.len()
        &&& is_char_boundary(self.source, self.cursor)
        &&& names_ok(self.names)
    }

    /// How many bytes of the source lie behind the cursor.
    pub open spec fn remaining(self) -> nat {
        if self.cursor <= self.source.len() {
            (self.source.len() - self.cursor) as nat
        } else {
            0
        }
    }

    /// Whether this state is one that a parse can reach from `before`: the
    /// same source, a cursor that did not move back, and the interned
    /// strings and the diagnostics of `before` with, at most, further ones
    /// behind them.
    pub open spec fn follows(self, before: ParseState) -> bool {
        &&& self.wf()
        &&& self.source == before.source
        &&& self.file == before.file
        &&& before.cursor <= self.cursor
        &&& self.extends(before)
    }

    /// Whether the interned strings and the diagnostics of this state are
    /// those of `before` with, at most, further ones behind them.
    #[verifier::opaque]
    pub open spec fn extends(self, before: ParseState) -> bool {
        &&& before.names.is_prefix_of(self.names)
        &&& before.reports.is_prefix_of(self.reports)
    }

    /// The next token.
    #[verifier::opaque]
    pub open spec fn peek(self) -> Token {
        token_at(self.source, self.file, self.cursor)
    }

    /// The token after the next token.
    #[verifier::opaque]
    pub open spec fn peek2(self) -> Token {
        token_at(self.source, self.file, next_start(self.source, self.cursor))
    }

    /// The state after the next token was consumed.
    #[verifier::opaque]
    pub open spec fn advance(self) -> ParseState {
        ParseState { cursor: next_start(self.source, self.cursor), ..self }
    }

    /// The state after a diagnostic was recorded.
    pub open spec fn report(self, code: Code, span: Span, context: Seq<char>) -> ParseState {
        ParseState { reports: self.reports.push(Report { code, span, context }), ..self }
    }

    /// Consumes the next token whatever it is. Where its kind is none of
    /// `kinds`, an unexpected-token diagnostic with the token's text as
    /// context is recorded and no kind is handed back.
    pub open spec fn expect_one_of(self, kinds: Seq<TokenKind>) -> (Spanned<Option<TokenKind>>, ParseState) {
        let token = self.peek();
        if kinds.contains(token.value) {
            (Spanned { span: token.span, value: Some(token.value) }, self.advance())
        } else {
            (
                Spanned { span: token.span, value: None },
                self.advance().report(Code::Unexpected, token.span, token.value.text()),
            )
        }
    }

    pub open spec fn expect(self, kind: TokenKind) -> (Spanned<Option<TokenKind>>, ParseState) {
        self.expect_one_of(seq![kind])
    }

    /// Consumes the next token if its kind is one of `kinds`, and leaves it
    /// where it is otherwise.
    pub open spec fn consume_one_of(self, kinds: Seq<TokenKind>) -> (Spanned<Option<TokenKind>>, ParseState) {
        let token = self.peek();
        if kinds.contains(token.value) {
            (Spanned { span: token.span, value: Some(token.value) }, self.advance())
        } else {
            (Spanned { span: token.span, value: None }, self)
        }
    }

    pub open spec fn consume(self, kind: TokenKind) -> (Spanned<Option<TokenKind>>, ParseState) {
        self.consume_one_of(seq![kind])
    }

    /// The bytes of the source that a span covers.
    pub open spec fn bytes(self, span: Span) -> Seq<u8> {
        self.source.subrange(span.pos as int, span.pos + span.len)
    }

    /// The text of the source that a span covers.
    pub open spec fn text(self, span: Span) -> Seq<char> {
        decode_utf8(self.bytes(span))
    }

    /// Interns `text`: its key, and the state in which it is interned.
    #[verifier::opaque]
    pub open spec fn intern(self, text: Seq<char>) -> (StringKey, ParseState) {
        (
            StringKey(key_of(self.names, text) as usize),
            ParseState { names: with_name(self.names, text), ..self },
        )
    }
}

/// The result of a grammar rule that was applied in state `before`, as long
/// as the state it ends in follows `before`.
pub open spec fn after<T>(result: (T, ParseState), before: ParseState) -> (T, ParseState) {
    if result.1.follows(before) {
        result
    } else {
        (result.0, before)
    }
}

/// What holds of a well-formed state's next token and of the state behind it:
/// the token lies inside the source between character boundaries, the state
/// behind it is well formed again, and the cursor has moved unless the token
/// is the end of the input.
pub broadcast proof fn lemma_advance(s: ParseState)
    requires
        s.wf(),
    ensures
        #![trigger s.advance()]
        #![trigger s.peek()]
        s.advance().follows(s),
        s.advance().reports == s.reports,
        s.advance().names == s.names,
        s.peek().span.file == s.file,
        s.peek().span.pos == s.cursor,
        s.cursor + s.peek().span.len <= s.advance().cursor,
        is_char_boundary(s.source, s.cursor + s.peek().span.len),
        (s.peek().value == TokenKind::Eof) == (s.cursor == s.source.len()),
        s.peek().value != TokenKind::Eof ==> s.peek().span.len >= 1,
        s.peek().value != TokenKind::Eof ==> s.advance().remaining() < s.remaining(),
        s.peek().value != TokenKind::Unrecognized ==> forall|k: int|
            #![trigger s.source[k]]
            s.cursor <= k < s.cursor + s.peek().span.len ==> s.source[k] < 0x80,
{
    reveal(ParseState::wf);
    reveal(ParseState::peek);
    reveal(ParseState::advance);
    reveal(ParseState::extends);
    lemma_token_at(s.source, s.file, s.cursor);
}

/// Interning keeps a state well formed and leaves the cursor where it is.
pub broadcast proof fn lemma_intern(s: ParseState, text: Seq<char>)
    requires
        s.wf(),
    ensures
        (#[trigger] s.intern(text)).1.follows(s),
        s.intern(text).1.cursor == s.cursor,
{
    reveal(ParseState::wf);
    reveal(ParseState::intern);
    reveal(ParseState::extends);
    lemma_with_name_ok(s.names, text);
}

/// Recording a diagnostic keeps a state well formed and leaves the cursor
/// where it is.
pub broadcast proof fn lemma_report(s: ParseState, code: Code, span: Span, context: Seq<char>)
    requires
        s.wf(),
    ensures
        (#[trigger] s.report(code, span, context)).follows(s),
{
    reveal(ParseState::wf);
    reveal(ParseState::extends);
}

/// What holds of `expect_one_of`: the next token is consumed.
pub broadcast proof fn lemma_expect_one_of(s: ParseState, kinds: Seq<TokenKind>)
    requires
        s.wf(),
    ensures
        (#[trigger] s.expect_one_of(kinds)).1.follows(s.advance()),
        s.expect_one_of(kinds).1.cursor == s.advance().cursor,
        s.expect_one_of(kinds).0.span == s.peek().span,
{
    reveal(ParseState::wf);
    reveal(ParseState::extends);
    lemma_advance(s);
}

/// What holds of `expect`: the next token is consumed.
pub broadcast proof fn lemma_expect(s: ParseState, kind: TokenKind)
    requires
        s.wf(),
    ensures
        (#[trigger] s.expect(kind)).1.follows(s.advance()),
        s.expect(kind).1.cursor == s.advance().cursor,
        s.expect(kind).0.span == s.peek().span,
        s.expect(kind).0.value is Some <==> s.peek().value == kind,
        s.expect(kind).0.value is Some <==> s.expect(kind).1.reports == s.reports,
{
    reveal(ParseState::advance);
    reveal(ParseState::wf);
    reveal(ParseState::extends);
    lemma_advance(s);
    assert(seq![kind][0] == kind);
}

/// What holds of `consume_one_of`: the cursor moves behind the next token or
/// stays.
pub broadcast proof fn lemma_consume_one_of(s: ParseState, kinds: Seq<TokenKind>)
    requires
        s.wf(),
    ensures
        (#[trigger] s.consume_one_of(kinds)).1.follows(s),
        s.consume_one_of(kinds).1.reports == s.reports,
        s.consume_one_of(kinds).0.span == s.peek().span,
        s.consume_one_of(kinds).0.value is Some ==> s.consume_one_of(kinds).1 == s.advance(),
        s.consume_one_of(kinds).0.value is Some ==> s.consume_one_of(kinds).0.value == Some(
            s.peek().value,
        ) && kinds.contains(s.peek().value),
        s.consume_one_of(kinds).0.value is None ==> s.consume_one_of(kinds).1 == s,
{
    reveal(ParseState::extends);
    lemma_advance(s);
}

/// What holds of `consume`: where the next token is of the kind, and is not
/// the end of the input, it is consumed and less of the source remains;
/// otherwise the state stays as it is.
pub broadcast proof fn lemma_consume(s: ParseState, kind: TokenKind)
    requires
        s.wf(),
    ensures
        (#[trigger] s.consume(kind)).1.follows(s),
        s.consume(kind).1.reports == s.reports,
        s.consume(kind).0.span == s.peek().span,
        s.consume(kind).0.value is Some <==> s.peek().value == kind,
        s.consume(kind).0.value is Some ==> s.consume(kind).1 == s.advance(),
        s.consume(kind).0.value is Some && kind != TokenKind::Eof ==> s.consume(kind).1.remaining()
            < s.remaining(),
        s.consume(kind).0.value is None ==> s.consume(kind).1 == s,
{
    reveal(ParseState::extends);
    lemma_advance(s);
    assert(seq![kind][0] == kind);
}

/// A state extends itself.
pub broadcast proof fn lemma_extends_itself(s: ParseState)
    ensures
        #[trigger] s.extends(s),
{
    reveal(ParseState::extends);
}

/// What extends a state extends what that state extends.
pub broadcast proof fn lemma_extends_further(last: ParseState, middle: ParseState, first: ParseState)
    requires
        #[trigger] last.extends(middle),
        #[trigger] middle.extends(first),
    ensures
        last.extends(first),
{
    reveal(ParseState::extends);
}

/// A state between two states with the same diagnostics has these
/// diagnostics too.
pub proof fn lemma_between(last: ParseState, middle: ParseState, first: ParseState)
    requires
        last.extends(middle),
        middle.extends(first),
        last.reports == first.reports,
    ensures
        middle.reports == first.reports,
{
    reveal(ParseState::extends);
    assert(middle.reports =~= first.reports);
}

/// The cursor of a well-formed state lies inside the source, which a `usize`
/// can measure.
pub broadcast proof fn lemma_bounds(s: ParseState)
    ensures
        #[trigger] s.wf() ==> 0 <= s.cursor <= s.source.len() <= usize::MAX,
{
    reveal(ParseState::wf);
}

pub broadcast group group_parse_state {
    lemma_extends_itself,
    lemma_extends_further,
    lemma_bounds,
    lemma_advance,
    lemma_intern,
    lemma_report,
    lemma_expect_one_of,
    lemma_expect,
    lemma_consume_one_of,
    lemma_consume,
}

/// The items of a file behind the items `items`: items one behind the other
/// up to the end of the input.
#[verifier::opaque]
pub open spec fn items_to_end(s: ParseState, items: Seq<ItemView>) -> (Seq<ItemView>, ParseState)
    decreases s.remaining(),
    when s.wf()
{
    if s.peek().value == TokenKind::Eof {
        (items, s)
    } else {
        let (item, s1) = after(parsed_item(s), s);
        if s1.remaining() < s.remaining() {
            items_to_end(s1, items.push(item))
        } else {
            (items.push(item), s1)
        }
    }
}

pub struct Parser<'a> {
    pub tz: Tokenizer<'a>,
    pub cache: StringCache,
    pub ds: Diagnostics,
}

impl<'a> Parser<'a> {
    /// The state of the parse.
    pub open spec fn view(&self) -> ParseState {
        ParseState {
            source: self.tz.source(),
            file: self.tz.file(),
            cursor: self.tz.cursor(),
            names: self.cache@,
            reports: self.ds@,
        }
    }

    /// The tokenizer and the interner are well formed.
    pub open spec fn wf(&self) -> bool {
        self.tz.wf() && self.cache.wf()
    }

    /// The state of a well-formed parser is well formed.
    pub proof fn lemma_wf(&self)
        requires
            self.wf(),
        ensures
            self@.wf(),
    {
        reveal(ParseState::wf);
        self.tz.lemma_cursor();
        self.cache.lemma_names_ok();
    }

    /// A parser for `src`, with an interner and a list of diagnostics of its
    /// own.
    pub fn new(file: StringKey, src: &'a str, cache: StringCache) -> (parser: Parser<'a>)
        requires
            cache.wf(),
        ensures
            parser.wf(),
            parser.cache == cache,
            parser.ds@ == Seq::<Report>::empty(),
            parser.tz.file() == file,
            parser.tz.source() == src.spec_bytes(),
            parser.tz.cursor() == space_end(src.spec_bytes(), 0),
    {
        Parser { tz: Tokenizer::from_parts(file, src), cache, ds: Diagnostics::new() }
    }

    /// The next token, which stays where it is.
    pub fn peek(&mut self) -> (t: Token)
        requires
            old(self).wf(),
        ensures
            final(self).wf(),
            final(self)@ == old(self)@,
            t == old(self)@.peek(),
    {
        reveal(ParseState::peek);
        self.tz.peek()
    }

    /// The token after the next token; both stay where they are.
    pub fn peek2(&mut self) -> (t: Token)
        requires
            old(self).wf(),
        ensures
            final(self).wf(),
            final(self)@ == old(self)@,
            t == old(self)@.peek2(),
    {
        reveal(ParseState::peek2);
        self.tz.peek2()
    }

    /// Advances to the next token and asserts its kind.
    pub fn expect(&mut self, kind: TokenKind) -> (r: Spanned<Option<TokenKind>>)
        requires
            old(self).wf(),
        ensures
            final(self).wf(),
            (r, final(self)@) == old(self)@.expect(kind),
            final(self)@.follows(old(self)@.advance()),
    {
        let kinds = [kind];
        assert(kinds@ =~= seq![kind]);
        self.expect_one_of(&kinds)
    }

    /// Advances to the next token and asserts its kind.
    pub fn expect_one_of(&mut self, kind: &[TokenKind]) -> (r: Spanned<Option<TokenKind>>)
        requires
            old(self).wf(),
        ensures
            final(self).wf(),
            (r, final(self)@) == old(self)@.expect_one_of(kind@),
            final(self)@.follows(old(self)@.advance()),
    {
        proof {
            reveal(ParseState::wf);
            reveal(ParseState::peek);
            reveal(ParseState::advance);
            reveal(ParseState::extends);
            self.lemma_wf();
            lemma_advance(self@);
        }
        match self.tz.expect_one_of(kind) {
            Ok(token) => Spanned::from_span_value(token.span, Some(token.value)),
            Err(token) => {
                self.ds.add(Code::Unexpected, token.span, token.value.as_str());
                Spanned::from_span_value(token.span, None)
            },
        }
    }

    /// Consumes the next token if it matches the given token kind.
    pub fn consume(&mut self, kind: TokenKind) -> (r: Spanned<Option<TokenKind>>)
        requires
            old(self).wf(),
        ensures
            final(self).wf(),
            (r, final(self)@) == old(self)@.consume(kind),
            final(self)@.follows(old(self)@),
    {
        let kinds = [kind];
        assert(kinds@ =~= seq![kind]);
        self.consume_one_of(&kinds)
    }

    /// Consumes the next token if it matches one of the given token kinds.
    pub fn consume_one_of(&mut self, kinds: &[TokenKind]) -> (r: Spanned<Option<TokenKind>>)
        requires
            old(self).wf(),
        ensures
            final(self).wf(),
            (r, final(self)@) == old(self)@.consume_one_of(kinds@),
            final(self)@.follows(old(self)@),
    {
        proof {
            reveal(ParseState::peek);
            reveal(ParseState::advance);
            reveal(ParseState::extends);
            self.lemma_wf();
            lemma_advance(self@);
        }
        let tkn = self.tz.peek();
        if tkn.value.is_one_of(kinds) {
            let _ = self.tz.next();
            Spanned::from_span_value(tkn.span, Some(tkn.value))
        } else {
            Spanned::from_span_value(tkn.span, None)
        }
    }

    /// Parse a single file: its items, up to the end of the input.
    pub fn file(&mut self) -> (items: Vec<Item>)
        requires
            old(self).wf(),
        ensures
            final(self).wf(),
            (item_views(items@), final(self)@) == items_to_end(old(self)@, seq![]),
            final(self)@.follows(old(self)@),
            final(self)@.peek().value == TokenKind::Eof,
            items_well_formed(item_views(items@)),
            final(self)@.reports == old(self)@.reports ==> items_complete(item_views(items@)),
    {
        proof {
            self.lemma_wf();
        }
        let mut items: Vec<Item> = Vec::new();
        assert(item_views(items@) =~= seq![]);
        proof {
            lemma_extends_itself(self@);
        }
        loop
            invariant
                self.wf(),
                old(self)@.wf(),
                self@.follows(old(self)@),
                items_to_end(self@, item_views(items@)) == items_to_end(old(self)@, seq![]),
            decreases self@.remaining(),
        {
            let ghost before = self@;
            proof {
                reveal(items_to_end);
                lemma_advance(before);
                lemma_bounds(before);
            }
            if self.peek().value == TokenKind::Eof {
                proof {
                    assert(items_well_formed(seq![]));
                    assert(items_complete(seq![]));
                    lemma_items_to_end_shape(old(self)@, seq![]);
                    lemma_items_to_end_complete(old(self)@, seq![]);
                }
                return items;
            }
            let item = self.item();
            proof {
                lemma_item_views_push(items@, item);
                lemma_bounds(self@);
                lemma_extends_further(self@, before.advance(), before);
                lemma_extends_further(self@, before, old(self)@);
            }
            items.push(item);
        }
    }

    /// Advances the internal tokenizer, ignoring the next token.
    pub fn advance(&mut self)
        requires
            old(self).wf(),
        ensures
            final(self).wf(),
            final(self)@ == old(self)@.advance(),
            final(self)@.follows(old(self)@),
    {
        proof {
            reveal(ParseState::peek);
            reveal(ParseState::advance);
            reveal(ParseState::extends);
            self.lemma_wf();
            lemma_advance(self@);
        }
        let _ = self.tz.next();
    }
}

} // verus!
