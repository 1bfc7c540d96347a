//! Lazy tokenizer.

use crate::cache::StringKey;
use crate::span::Span;
use crate::span::Spanned;
use crate::token::Token;
use crate::token::TokenKind;
use crate::tokenizer::rules::lemma_scan;
use crate::tokenizer::rules::scan;
use crate::tokenizer::rules::scan_token;
use crate::tokenizer::text::lemma_boundary_in_suffix;
use crate::tokenizer::text::lemma_boundary_of_suffix;
use crate::tokenizer::text::lemma_space_end;
use crate::tokenizer::text::space_end;
use crate::tokenizer::text::space_len_at;
use arraydeque::ArrayDeque;
use vstd::prelude::*;
use vstd::string::StringSliceAdditionalSpecFns;
use vstd::utf8::*;

pub mod rules;
pub mod text;

verus! {

/// The token of `source` that begins at index `at`.
pub open spec fn token_at(source: Seq<u8>, file: StringKey, at: int) -> Token {
    let (kind, len) = scan(source.skip(at));
    Spanned { span: Span { file, pos: at as usize, len }, value: kind }
}

/// Where the token after the one at `at` begins: behind that token and the
/// white space that follows it.
pub open spec fn next_start(source: Seq<u8>, at: int) -> int {
    space_end(source, at + scan(source.skip(at)).1)
}

/// What holds of the token at a character boundary `at` of valid UTF-8 text:
/// it ends inside the text at a boundary, and so does the white space behind
/// it; it is the end-of-input token exactly at the end of the text, and any
/// other token has at least one byte.
pub proof fn lemma_token_at(source: Seq<u8>, file: StringKey, at: int)
    requires
        valid_utf8(source),
        source.len() <= usize::MAX,
        0 <= at <= source.len(),
        is_char_boundary(source, at),
    ensures
        token_at(source, file, at).span.pos == at,
        token_at(source, file, at).span.file == file,
        at + token_at(source, file, at).span.len <= source.len(),
        is_char_boundary(source, at + token_at(source, file, at).span.len),
        at + token_at(source, file, at).span.len <= next_start(source, at) <= source.len(),
        is_char_boundary(source, next_start(source, at)),
        (token_at(source, file, at).value == TokenKind::Eof) == (at == source.len()),
        at < source.len() ==> token_at(source, file, at).span.len >= 1,
        token_at(source, file, at).value != TokenKind::Unrecognized ==> forall|k: int|
            at <= k < at + token_at(source, file, at).span.len ==> #[trigger] source[k] < 0x80,
{
    let rest = source.subrange(at, source.len() as int);
    assert(rest =~= source.skip(at));
    valid_utf8_split(source, at);
    lemma_scan(rest);
    let n = scan(rest).1 as int;
    lemma_boundary_of_suffix(source, at, n);
    lemma_space_end(source, at + n);
    if token_at(source, file, at).value != TokenKind::Unrecognized {
        assert forall|k: int| at <= k < at + n implies #[trigger] source[k] < 0x80 by {
            assert(rest[k - at] == source[k]);
        }
    }
}

/// The tokens that were scanned ahead of the parser: a ring buffer of
/// capacity two from the crate `arraydeque`.
#[verifier::external_body]
pub struct Lookahead {
    buf: ArrayDeque<Token, 2>,
}

/// The tokens that a lookahead buffer holds, front first.
pub uninterp spec fn buffered(lookahead: Lookahead) -> Seq<Token>;

/// `ArrayDeque::new`: an empty buffer.
#[verifier::external_body]
fn lookahead_new() -> (lookahead: Lookahead)
    ensures
        buffered(lookahead) == Seq::<Token>::empty(),
{
    Lookahead { buf: ArrayDeque::new() }
}

/// `ArrayDeque::len`: the number of tokens held, never more than the
/// capacity of two.
#[verifier::external_body]
fn lookahead_len(lookahead: &Lookahead) -> (len: usize)
    ensures
        len == buffered(*lookahead).len(),
        len <= 2,
{
    lookahead.buf.len()
}

/// Indexing an `ArrayDeque`: the token at `index`, counted from the front.
#[verifier::external_body]
fn lookahead_at(lookahead: &Lookahead, index: usize) -> (token: Token)
    requires
        index < buffered(*lookahead).len(),
    ensures
        token == buffered(*lookahead)[index as int],
{
    lookahead.buf[index]
}

/// `ArrayDeque::push_back` of a saturating deque: the token goes to the back
/// if fewer than two are held, and the buffer stays as it is otherwise.
#[verifier::external_body]
fn lookahead_push_back(lookahead: &mut Lookahead, token: Token) -> (pushed: bool)
    ensures
        pushed == (buffered(*old(lookahead)).len() < 2),
        buffered(*final(lookahead)) == if pushed {
            buffered(*old(lookahead)).push(token)
        } else {
            buffered(*old(lookahead))
        },
{
    lookahead.buf.push_back(token).is_ok()
}

/// `ArrayDeque::pop_front`: takes the token at the front out, if there is
/// one.
#[verifier::external_body]
fn lookahead_pop_front(lookahead: &mut Lookahead) -> (front: Option<Token>)
    ensures
        front == if buffered(*old(lookahead)).len() > 0 {
            Some(buffered(*old(lookahead))[0])
        } else {
            None
        },
        buffered(*final(lookahead)) == if front is Some {
            buffered(*old(lookahead)).drop_first()
        } else {
            buffered(*old(lookahead))
        },
{
    lookahead.buf.pop_front()
}

fn space_len(bytes: &[u8], i: usize) -> (n: usize)
    ensures
        n == space_len_at(bytes@, i as int),
        n > 0 ==> i + n <= bytes@.len(),
{
    let len = bytes.len();
    if i >= len {
        return 0;
    }
    let b0 = bytes[i];
    if b0 == 0x20 || (0x09 <= b0 && b0 <= 0x0d) {
        return 1;
    }
    if len - i >= 2 {
        let b1 = bytes[i + 1];
        if b0 == 0xc2 && (b1 == 0x85 || b1 == 0xa0) {
            return 2;
        }
        if len - i >= 3 {
            let b2 = bytes[i + 2];
            if b0 == 0xe1 && b1 == 0x9a && b2 == 0x80 {
                return 3;
            }
            if b0 == 0xe2 && b1 == 0x80 && ((0x80 <= b2 && b2 <= 0x8a) || b2 == 0xa8 || b2 == 0xa9
                || b2 == 0xaf) {
                return 3;
            }
            if b0 == 0xe2 && b1 == 0x81 && b2 == 0x9f {
                return 3;
            }
            if b0 == 0xe3 && b1 == 0x80 && b2 == 0x80 {
                return 3;
            }
        }
    }
    0
}

fn skip_space(bytes: &[u8], from: usize) -> (end: usize)
    requires
        from <= bytes@.len(),
    ensures
        end == space_end(bytes@, from as int),
        from <= end <= bytes@.len(),
{
    let len = bytes.len();
    let mut i = from;
    loop
        invariant
            len == bytes@.len(),
            from <= i <= bytes@.len(),
            space_end(bytes@, from as int) == space_end(bytes@, i as int),
        decreases bytes@.len() - i,
    {
        let n = space_len(bytes, i);
        if n == 0 {
            return i;
        }
        i += n;
    }
}

/// Lazy tokenizer.
pub struct Tokenizer<'a> {
    file: StringKey,
    base: &'a str,
    src: &'a str,
    lookahead: Lookahead,
}

impl<'a> Tokenizer<'a> {
    /// The bytes of the source text.
    pub closed spec fn source(&self) -> Seq<u8> {
        self.base.spec_bytes()
    }

    /// The key of the file that the spans of the tokens name.
    pub closed spec fn file(&self) -> StringKey {
        self.file
    }

    /// How many bytes of the source were scanned.
    closed spec fn offset(&self) -> int {
        self.source().len() - self.src.spec_bytes().len()
    }

    /// Where the next token to hand out begins.
    pub closed spec fn cursor(&self) -> int {
        if buffered(self.lookahead).len() > 0 {
            buffered(self.lookahead)[0].span.pos as int
        } else {
            space_end(self.source(), self.offset())
        }
    }

    /// The scanned part ends at a character boundary and the rest of the
    /// source is what is left to scan.
    closed spec fn scanned(&self) -> bool {
        &&& self.source().len() <= usize::MAX
        &&& 0 <= self.offset()
        &&& self.src.spec_bytes() == self.source().skip(self.offset())
        &&& is_char_boundary(self.source(), self.offset())
    }

    /// The tokenizer's invariant: the tokens in the lookahead buffer are the
    /// tokens of the source from the cursor on, and nothing behind them was
    /// scanned.
    pub closed spec fn wf(&self) -> bool {
        let held = buffered(self.lookahead);
        &&& self.scanned()
        &&& held.len() <= 2
        &&& held.len() >= 1 ==> {
            &&& 0 <= self.cursor() <= self.source().len()
            &&& is_char_boundary(self.source(), self.cursor())
            &&& held[0] == token_at(self.source(), self.file, self.cursor())
        }
        &&& held.len() == 1 ==> self.offset() == self.cursor() + held[0].span.len
        &&& held.len() == 2 ==> {
            &&& held[1] == token_at(self.source(), self.file, next_start(self.source(), self.cursor()))
            &&& self.offset() == next_start(self.source(), self.cursor()) + held[1].span.len
        }
    }

    /// The source of a tokenizer is valid UTF-8 that a `usize` can measure,
    /// and the cursor is one of its character boundaries.
    pub proof fn lemma_cursor(&self)
        requires
            self.wf(),
        ensures
            valid_utf8(self.source()),
            self.source().len() <= usize::MAX,
            0 <= self.cursor() <= self.source().len(),
            is_char_boundary(self.source(), self.cursor()),
    {
        encode_utf8_valid_utf8(self.base@);
        if buffered(self.lookahead).len() == 0 {
            lemma_space_end(self.source(), self.offset());
        }
    }

    /// Constructs a tokenizer from its component parts.
    pub fn from_parts(file: StringKey, src: &'a str) -> (tz: Tokenizer<'a>)
        ensures
            tz.wf(),
            tz.file() == file,
            tz.source() == src.spec_bytes(),
            tz.cursor() == space_end(src.spec_bytes(), 0),
    {
        let tz = Tokenizer { file, src, base: src, lookahead: lookahead_new() };
        proof {
            encode_utf8_valid_utf8(src@);
            is_char_boundary_start_end_of_seq(src.spec_bytes());
            assert(src.spec_bytes().skip(0) =~= src.spec_bytes());
        }
        // the length of a slice is a number that a `usize` holds
        let _len = src.as_bytes().len();
        tz
    }

    /// Scans the next token behind the scanned part.
    fn next_token(&mut self) -> (t: Token)
        requires
            old(self).scanned(),
        ensures
            final(self).scanned(),
            final(self).source() == old(self).source(),
            final(self).file == old(self).file,
            final(self).lookahead == old(self).lookahead,
            t == token_at(old(self).source(), old(self).file, space_end(old(self).source(), old(self).offset())),
            final(self).offset() == space_end(old(self).source(), old(self).offset()) + t.span.len,
    {
        let bytes = self.base.as_bytes();
        let offset = bytes.len() - self.src.as_bytes().len();
        let start = skip_space(bytes, offset);
        proof {
            encode_utf8_valid_utf8(self.base@);
            lemma_space_end(self.source(), offset as int);
            lemma_token_at(self.source(), self.file, start as int);
        }
        let (_, rest) = self.base.split_at(start);
        assert(rest.spec_bytes() =~= self.source().skip(start as int));
        let (kind, len) = scan_token(rest);
        let span = Span { file: self.file, pos: start, len };
        let (_, after) = self.base.split_at(start + len);
        assert(after.spec_bytes() =~= self.source().skip(start + len));
        self.src = after;
        Spanned::from_span_value(span, kind)
    }

    /// Scans one more token into the lookahead buffer.
    fn fill(&mut self)
        requires
            old(self).wf(),
            buffered(old(self).lookahead).len() < 2,
        ensures
            final(self).wf(),
            final(self).source() == old(self).source(),
            final(self).file() == old(self).file(),
            final(self).cursor() == old(self).cursor(),
            buffered(final(self).lookahead).len() == buffered(old(self).lookahead).len() + 1,
    {
        let ghost held = buffered(self.lookahead);
        let ghost source = self.source();
        let ghost cursor = self.cursor();
        let ghost offset = self.offset();
        proof {
            self.lemma_cursor();
            lemma_token_at(source, self.file, cursor);
            lemma_space_end(source, offset);
        }
        let t = self.next_token();
        let _ = lookahead_push_back(&mut self.lookahead, t);
        proof {
            let start = space_end(source, offset);
            lemma_token_at(source, self.file, start);
            assert(buffered(self.lookahead) == held.push(t));
            if held.len() == 0 {
                assert(start == cursor);
                assert(self.cursor() == cursor);
            } else {
                assert(buffered(self.lookahead)[0] == held[0]);
                assert(start == next_start(source, cursor));
                assert(self.cursor() == cursor);
            }
        }
    }

    /// Gets the next token without advancing the tokenizer.
    pub fn peek(&mut self) -> (t: Token)
        requires
            old(self).wf(),
        ensures
            final(self).wf(),
            final(self).source() == old(self).source(),
            final(self).file() == old(self).file(),
            final(self).cursor() == old(self).cursor(),
            t == token_at(old(self).source(), old(self).file(), old(self).cursor()),
    {
        if lookahead_len(&self.lookahead) == 0 {
            self.fill();
        }
        lookahead_at(&self.lookahead, 0)
    }

    /// Gets the second next token without advancing the tokenizer.
    pub fn peek2(&mut self) -> (t: Token)
        requires
            old(self).wf(),
        ensures
            final(self).wf(),
            final(self).source() == old(self).source(),
            final(self).file() == old(self).file(),
            final(self).cursor() == old(self).cursor(),
            t == token_at(
                old(self).source(),
                old(self).file(),
                next_start(old(self).source(), old(self).cursor()),
            ),
    {
        while lookahead_len(&self.lookahead) < 2
            invariant
                self.wf(),
                self.source() == old(self).source(),
                self.file() == old(self).file(),
                self.cursor() == old(self).cursor(),
            decreases 2 - buffered(self.lookahead).len(),
        {
            self.fill();
        }
        lookahead_at(&self.lookahead, 1)
    }

    /// Gets the next token and advances the tokenizer.
    pub fn next(&mut self) -> (t: Token)
        requires
            old(self).wf(),
        ensures
            final(self).wf(),
            final(self).source() == old(self).source(),
            final(self).file() == old(self).file(),
            t == token_at(old(self).source(), old(self).file(), old(self).cursor()),
            final(self).cursor() == next_start(old(self).source(), old(self).cursor()),
    {
        proof {
            self.lemma_cursor();
            lemma_token_at(self.source(), self.file, self.cursor());
            lemma_token_at(self.source(), self.file, next_start(self.source(), self.cursor()));
        }
        match lookahead_pop_front(&mut self.lookahead) {
            Some(t) => t,
            None => self.next_token(),
        }
    }

    /// Gets the next token, advances the tokenizer, and tests the token's
    /// kind against the given kinds. The token is consumed either way.
    pub fn expect_one_of(&mut self, kinds: &[TokenKind]) -> (r: Result<Token, Token>)
        requires
            old(self).wf(),
        ensures
            final(self).wf(),
            final(self).source() == old(self).source(),
            final(self).file() == old(self).file(),
            final(self).cursor() == next_start(old(self).source(), old(self).cursor()),
            r == expected(token_at(old(self).source(), old(self).file(), old(self).cursor()), kinds@),
    {
        let tkn = self.next();
        if tkn.value.is_one_of(kinds) {
            Ok(tkn)
        } else {
            Err(tkn)
        }
    }

    /// Gets the source corresponding to the given span.
    pub fn src_for(&self, span: Span) -> (text: &str)
        requires
            self.wf(),
            span.pos + span.len <= self.source().len(),
            is_char_boundary(self.source(), span.pos as int),
            is_char_boundary(self.source(), span.pos + span.len),
        ensures
            text.spec_bytes() == self.source().subrange(span.pos as int, span.pos + span.len),
    {
        proof {
            encode_utf8_valid_utf8(self.base@);
            lemma_boundary_in_suffix(self.source(), span.pos as int, span.len as int);
        }
        let (_, rest) = self.base.split_at(span.pos);
        let (text, _) = rest.split_at(span.len);
        assert(text.spec_bytes() =~= self.source().subrange(span.pos as int, span.pos + span.len));
        text
    }
}

/// `Ok` of the token where its kind is one of `kinds`, `Err` of it otherwise.
pub open spec fn expected(token: Token, kinds: Seq<TokenKind>) -> Result<Token, Token> {
    if kinds.contains(token.value) {
        Ok(token)
    } else {
        Err(token)
    }
}

} // verus!
