//! Atoms: identifiers and integer literals.

use crate::ast::ident::Ident;
use crate::ast::number::Integer;
use crate::diagnostic::Code;
use crate::parse::lemma_advance;
use crate::parse::lemma_expect;
use crate::parse::lemma_intern;
use crate::parse::ParseState;
use crate::parse::Parser;
use crate::span::Span;
use crate::span::Spanned;
use crate::token::TokenKind;
use crate::tokenizer::rules::lemma_run;
use crate::tokenizer::rules::lemma_scan_data;
use crate::tokenizer::rules::ByteClass;
use crate::tokenizer::text::lemma_ascii_run_boundary;
use crate::tokens::IntRadix;
use vstd::prelude::*;
use vstd::string::StringSliceAdditionalSpecFns;
use vstd::utf8::*;

verus! {

/// The value of a digit: `0` to `9` count 0 to 9, and the letters, in either
/// case, count on from 10.
pub open spec fn digit_value(b: u8) -> Option<int> {
    if 0x30 <= b <= 0x39 {
        Some(b - 0x30)
    } else if 0x61 <= b <= 0x7a {
        Some(b - 0x61 + 10)
    } else if 0x41 <= b <= 0x5a {
        Some(b - 0x41 + 10)
    } else {
        None
    }
}

/// The number that `digits` spell in base `radix` behind the digits that
/// made `value` so far. The digits are read from the left. The first one
/// that is no digit of the base makes the literal an invalid one; a value
/// that no longer fits into 64 bits with a sign makes it too large.
pub open spec fn decode_from(digits: Seq<u8>, radix: int, value: int) -> Result<int, Code>
    decreases digits.len(),
{
    if digits.len() == 0 {
        Ok(value)
    } else {
        match digit_value(digits[0]) {
            Some(d) if d < radix => if value * radix + d > i64::MAX {
                Err(Code::IntegerTooLarge)
            } else {
                decode_from(digits.drop_first(), radix, value * radix + d)
            },
            _ => Err(Code::InvalidIntegerDigit),
        }
    }
}

/// The number that `digits` spell in base `radix`.
pub open spec fn decode(digits: Seq<u8>, radix: int) -> Result<int, Code> {
    decode_from(digits, radix, 0)
}

/// The integer node for a literal at `span` with the given digits, and the
/// state in which its diagnostic, if any, is recorded.
pub open spec fn decoded(s: ParseState, span: Span, digits: Seq<u8>, radix: int) -> (
    Spanned<Integer>,
    ParseState,
) {
    match decode(digits, radix) {
        Ok(value) => (Spanned { span, value: Integer::Integer(value as i64) }, s),
        Err(code) => (
            Spanned { span, value: Integer::Error },
            s.report(code, span, Seq::<char>::empty()),
        ),
    }
}

/// An identifier: the next token is consumed; where it is an identifier its
/// text is interned, and where it is not, the name is an error name.
#[verifier::opaque]
pub open spec fn parsed_ident(s: ParseState) -> (Spanned<Ident>, ParseState) {
    let (token, s1) = s.expect(TokenKind::Ident);
    if token.value is Some {
        let (key, s2) = s1.intern(s.text(token.span));
        (Spanned { span: token.span, value: Ident::Ident(key) }, s2)
    } else {
        (Spanned { span: token.span, value: Ident::Error }, s1)
    }
}

/// An integer literal: the next token is consumed. A number is read in base
/// ten; a number with a base prefix is read in the base that its second
/// character names; any other token is unexpected.
#[verifier::opaque]
pub open spec fn parsed_integer(s: ParseState) -> (Spanned<Integer>, ParseState) {
    let token = s.peek();
    let span = token.span;
    let s1 = s.advance();
    match token.value {
        TokenKind::Number => decoded(s1, span, s.bytes(span), 10),
        TokenKind::BasePrefixNumber => match IntRadix::of_letter(s.source[span.pos + 1]) {
            Some(radix) => decoded(s1, span, s.bytes(span).skip(2), radix.base()),
            None => (
                Spanned { span, value: Integer::Error },
                s1.report(
                    Code::InvalidIntegerBase,
                    span,
                    s.text(Span { file: span.file, pos: span.pos, len: 2 }),
                ),
            ),
        },
        _ => (
            Spanned { span, value: Integer::Error },
            s1.report(Code::Unexpected, span, TokenKind::Number.text()),
        ),
    }
}

/// An identifier consumes the next token, and its span is that token's.
pub broadcast proof fn lemma_parsed_ident(s: ParseState)
    requires
        s.wf(),
    ensures
        (#[trigger] parsed_ident(s)).1.follows(s.advance()),
        parsed_ident(s).1.cursor == s.advance().cursor,
        parsed_ident(s).0.span == s.peek().span,
{
    reveal(parsed_ident);
    lemma_advance(s);
    lemma_expect(s, TokenKind::Ident);
    let (token, s1) = s.expect(TokenKind::Ident);
    lemma_intern(s1, s.text(token.span));
}

/// An integer literal consumes the next token, and its span is that token's.
pub broadcast proof fn lemma_parsed_integer(s: ParseState)
    requires
        s.wf(),
    ensures
        (#[trigger] parsed_integer(s)).1.follows(s.advance()),
        parsed_integer(s).1.cursor == s.advance().cursor,
        parsed_integer(s).0.span == s.peek().span,
{
    reveal(parsed_integer);
    reveal(ParseState::wf);
    reveal(ParseState::extends);
    lemma_advance(s);
}

pub broadcast group group_atoms {
    lemma_parsed_ident,
    lemma_parsed_integer,
}

/// Reads the digits of `digits` from index `from` on as a number in base
/// `radix`.
pub fn parse_digits(digits: &[u8], from: usize, radix: u32) -> (r: Result<i64, Code>)
    requires
        from <= digits@.len(),
        2 <= radix <= 36,
    ensures
        match decode(digits@.skip(from as int), radix as int) {
            Ok(value) => r == Ok::<i64, Code>(value as i64) && 0 <= value <= i64::MAX,
            Err(code) => r == Err::<i64, Code>(code),
        },
{
    let mut value: i64 = 0;
    let mut i: usize = from;
    while i < digits.len()
        invariant
            from <= i <= digits@.len(),
            2 <= radix <= 36,
            0 <= value <= i64::MAX,
            decode(digits@.skip(from as int), radix as int) == decode_from(
                digits@.skip(i as int),
                radix as int,
                value as int,
            ),
        decreases digits@.len() - i,
    {
        let ghost rest = digits@.skip(i as int);
        assert(rest[0] == digits@[i as int]);
        assert(rest.drop_first() =~= digits@.skip(i + 1));
        let b = digits[i];
        let d: u32 = if 0x30 <= b && b <= 0x39 {
            (b - 0x30) as u32
        } else if 0x61 <= b && b <= 0x7a {
            (b - 0x61) as u32 + 10
        } else if 0x41 <= b && b <= 0x5a {
            (b - 0x41) as u32 + 10
        } else {
            radix
        };
        if d >= radix {
            return Err(Code::InvalidIntegerDigit);
        }
        let next = match value.checked_mul(radix as i64) {
            Some(scaled) => scaled.checked_add(d as i64),
            None => None,
        };
        match next {
            Some(next) => {
                value = next;
            },
            None => {
                assert(value * radix + d > i64::MAX) by (nonlinear_arith)
                    requires
                        value * radix > i64::MAX || value * radix + d > i64::MAX,
                        d >= 0,
                ;
                return Err(Code::IntegerTooLarge);
            },
        }
        i += 1;
    }
    Ok(value)
}

impl<'a> Parser<'a> {
    /// Parses an identifier from the next token.
    pub fn ident(&mut self) -> (r: Spanned<Ident>)
        requires
            old(self).wf(),
        ensures
            final(self).wf(),
            (r, final(self)@) == parsed_ident(old(self)@),
            final(self)@.follows(old(self)@.advance()),
    {
        proof {
            reveal(parsed_ident);
            reveal(ParseState::wf);
            reveal(ParseState::extends);
            reveal(ParseState::peek);
            reveal(ParseState::intern);
            self.lemma_wf();
            lemma_advance(self@);
        }
        let (span, kind) = self.expect(TokenKind::Ident).into_span_value();
        if kind.is_none() {
            Spanned::from_span_value(span, Ident::Error)
        } else {
            let text = self.tz.src_for(span);
            proof {
                encode_utf8_decode_utf8(text@);
            }
            let key = self.cache.intern(text);
            Spanned::from_span_value(span, Ident::Ident(key))
        }
    }

    /// Records the diagnostic of a literal that could not be read, if there
    /// is one, and makes the literal's node.
    fn integer_node(&mut self, span: Span, read: Result<i64, Code>) -> (r: Spanned<Integer>)
        requires
            old(self).wf(),
        ensures
            final(self).wf(),
            final(self)@.follows(old(self)@),
            match read {
                Ok(value) => r == (Spanned { span, value: Integer::Integer(value) }) && final(self)@
                    == old(self)@,
                Err(code) => r == (Spanned { span, value: Integer::Error }) && final(self)@ == old(
                    self,
                )@.report(code, span, Seq::<char>::empty()),
            },
    {
        proof {
            reveal(ParseState::wf);
            reveal(ParseState::extends);
            self.lemma_wf();
            reveal_strlit("");
        }
        match read {
            Ok(value) => Spanned::from_span_value(span, Integer::Integer(value)),
            Err(code) => {
                self.ds.add(code, span, "");
                assert(""@ =~= Seq::<char>::empty());
                Spanned::from_span_value(span, Integer::Error)
            },
        }
    }

    /// Parses an integer from the next token.
    pub fn integer(&mut self) -> (r: Spanned<Integer>)
        requires
            old(self).wf(),
        ensures
            final(self).wf(),
            (r, final(self)@) == parsed_integer(old(self)@),
            final(self)@.follows(old(self)@.advance()),
    {
        proof {
            reveal(parsed_integer);
        }
        let ghost s = self@;
        proof {
            reveal(ParseState::wf);
            reveal(ParseState::extends);
            reveal(ParseState::peek);
            reveal(ParseState::advance);
            self.lemma_wf();
            lemma_advance(s);
            lemma_scan_data(s.source.skip(s.cursor));
        }
        let (span, t) = self.tz.next().into_span_value();
        match t {
            TokenKind::Number => {
                let src = self.tz.src_for(span);
                let read = parse_digits(src.as_bytes(), 0, 10);
                assert(src.spec_bytes().skip(0) =~= s.bytes(span));
                self.integer_node(span, read)
            },
            TokenKind::BasePrefixNumber => {
                let src = self.tz.src_for(span);
                let bytes = src.as_bytes();
                proof {
                    lemma_run(s.source.skip(s.cursor), 2, ByteClass::HexDigit);
                    assert(bytes@[1] == s.source[span.pos + 1]);
                }
                match IntRadix::from_letter(bytes[1]) {
                    Some(radix) => {
                        let read = parse_digits(bytes, 2, radix.value());
                        self.integer_node(span, read)
                    },
                    None => {
                        proof {
                            encode_utf8_valid_utf8(src@);
                            is_char_boundary_start_end_of_seq(bytes@);
                            assert forall|k: int| 0 <= k < 2 implies bytes@[k] < 0x80 by {
                                assert(bytes@[k] == s.source[span.pos + k]);
                            }
                            lemma_ascii_run_boundary(bytes@, 0, 2);
                        }
                        let (base, _) = src.split_at(2);
                        proof {
                            encode_utf8_decode_utf8(base@);
                            assert(base.spec_bytes() =~= s.bytes(
                                Span { file: span.file, pos: span.pos, len: 2 },
                            ));
                        }
                        self.ds.add(Code::InvalidIntegerBase, span, base);
                        Spanned::from_span_value(span, Integer::Error)
                    },
                }
            },
            _ => {
                self.ds.add(Code::Unexpected, span, TokenKind::Number.as_str());
                Spanned::from_span_value(span, Integer::Error)
            },
        }
    }
}

} // verus!
