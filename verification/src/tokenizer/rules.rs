//! Specific rules for tokenizing subsets of tokens.

use crate::token::lemma_keyword_bytes;
use crate::token::lemma_width_one_punct_bytes;
use crate::token::lemma_width_two_punct_bytes;
use crate::token::TokenKind;
use crate::tokenizer::text::lemma_ascii_run_boundary;
use crate::tokenizer::text::lemma_next_boundary;
use regex::Regex;
use vstd::prelude::*;
use vstd::string::StringSliceAdditionalSpecFns;
use vstd::utf8::*;

verus! {

/// Whether `src` begins with the bytes of `prefix`.
pub open spec fn starts_with(src: Seq<u8>, prefix: Seq<u8>) -> bool {
    prefix.len() <= src.len() && src.subrange(0, prefix.len() as int) == prefix
}

/// The first of `kinds` whose spelling `src` begins with, and the length of
/// that spelling.
pub open spec fn first_spelled(kinds: Seq<TokenKind>, src: Seq<u8>) -> Option<(TokenKind, usize)>
    decreases kinds.len(),
{
    if kinds.len() == 0 {
        None
    } else if starts_with(src, kinds[0].bytes()) {
        Some((kinds[0], kinds[0].bytes().len() as usize))
    } else {
        first_spelled(kinds.drop_first(), src)
    }
}

pub open spec fn is_digit(b: u8) -> bool {
    0x30 <= b <= 0x39
}

pub open spec fn is_hex_digit(b: u8) -> bool {
    is_digit(b) || 0x41 <= b <= 0x46 || 0x61 <= b <= 0x66
}

pub open spec fn is_ident_start(b: u8) -> bool {
    0x41 <= b <= 0x5a || 0x61 <= b <= 0x7a || b == 0x5f
}

pub open spec fn is_ident_continue(b: u8) -> bool {
    is_ident_start(b) || is_digit(b)
}

/// The letter that names the base of a prefixed integer: one of `xcbXCB`.
pub open spec fn is_base_letter(b: u8) -> bool {
    b == 0x78 || b == 0x63 || b == 0x62 || b == 0x58 || b == 0x43 || b == 0x42
}

/// The classes of bytes that the lexer's patterns repeat.
pub enum ByteClass {
    Digit,
    HexDigit,
    IdentContinue,
}

impl ByteClass {
    pub open spec fn holds(self, b: u8) -> bool {
        match self {
            ByteClass::Digit => is_digit(b),
            ByteClass::HexDigit => is_hex_digit(b),
            ByteClass::IdentContinue => is_ident_continue(b),
        }
    }
}

/// How many bytes of `class` stand in `src` from index `from` on, without a
/// gap.
pub open spec fn run(src: Seq<u8>, from: int, class: ByteClass) -> int
    decreases src.len() - from,
{
    if 0 <= from < src.len() && class.holds(src[from]) {
        1 + run(src, from + 1, class)
    } else {
        0
    }
}

/// Where an identifier at the start of `src` ends: a letter or underscore,
/// then letters, digits and underscores as far as they go.
pub open spec fn ident_end(src: Seq<u8>) -> Option<usize> {
    if src.len() >= 1 && is_ident_start(src[0]) {
        Some((1 + run(src, 1, ByteClass::IdentContinue)) as usize)
    } else {
        None
    }
}

/// Where an integer with a base prefix at the start of `src` ends: `0`, a
/// base letter, then hexadecimal digits as far as they go, at least one.
pub open spec fn base_prefix_end(src: Seq<u8>) -> Option<usize> {
    if src.len() >= 3 && src[0] == 0x30 && is_base_letter(src[1]) && is_hex_digit(src[2]) {
        Some((2 + run(src, 2, ByteClass::HexDigit)) as usize)
    } else {
        None
    }
}

/// Where a decimal integer at the start of `src` ends: a digit other than
/// `0`, then digits as far as they go.
pub open spec fn decimal_end(src: Seq<u8>) -> Option<usize> {
    if src.len() >= 1 && 0x31 <= src[0] <= 0x39 {
        Some((1 + run(src, 1, ByteClass::Digit)) as usize)
    } else {
        None
    }
}

/// The length of the character that `src` begins with, read off its first
/// byte; 0 where `src` is empty.
pub open spec fn first_char_len(src: Seq<u8>) -> usize {
    if src.len() == 0 {
        0
    } else if src[0] < 0x80 {
        1
    } else if src[0] < 0xe0 {
        2
    } else if src[0] < 0xf0 {
        3
    } else {
        4
    }
}

pub open spec fn width_two_punct_match(src: Seq<u8>) -> Option<(TokenKind, usize)> {
    first_spelled(TokenKind::width_two_punct_kinds(), src)
}

pub open spec fn width_one_punct_match(src: Seq<u8>) -> Option<(TokenKind, usize)> {
    first_spelled(TokenKind::width_one_punct_kinds(), src)
}

pub open spec fn keyword_match(src: Seq<u8>) -> Option<(TokenKind, usize)> {
    first_spelled(TokenKind::keyword_kinds(), src)
}

pub open spec fn ident_match(src: Seq<u8>) -> Option<(TokenKind, usize)> {
    match ident_end(src) {
        Some(end) => Some((TokenKind::Ident, end)),
        None => None,
    }
}

pub open spec fn base_prefix_number_match(src: Seq<u8>) -> Option<(TokenKind, usize)> {
    match base_prefix_end(src) {
        Some(end) => Some((TokenKind::BasePrefixNumber, end)),
        None => None,
    }
}

pub open spec fn unprefixed_number_match(src: Seq<u8>) -> Option<(TokenKind, usize)> {
    match decimal_end(src) {
        Some(end) => Some((TokenKind::Number, end)),
        None => if src.len() >= 1 && src[0] == 0x30 {
            Some((TokenKind::Number, 1usize))
        } else {
            None
        },
    }
}

pub open spec fn eof_match(src: Seq<u8>) -> Option<(TokenKind, usize)> {
    if src.len() == 0 {
        Some((TokenKind::Eof, 0usize))
    } else {
        None
    }
}

/// The token that `src` begins with and its length: what the earliest rule
/// that applies gives, and one unrecognized character where none does.
pub open spec fn scan(src: Seq<u8>) -> (TokenKind, usize) {
    if eof_match(src) is Some {
        eof_match(src)->0
    } else if width_two_punct_match(src) is Some {
        width_two_punct_match(src)->0
    } else if width_one_punct_match(src) is Some {
        width_one_punct_match(src)->0
    } else if base_prefix_number_match(src) is Some {
        base_prefix_number_match(src)->0
    } else if unprefixed_number_match(src) is Some {
        unprefixed_number_match(src)->0
    } else if keyword_match(src) is Some {
        keyword_match(src)->0
    } else if ident_match(src) is Some {
        ident_match(src)->0
    } else {
        (TokenKind::Unrecognized, first_char_len(src))
    }
}

/// What `first_spelled` finds is one of `kinds`, and `src` begins with its
/// spelling.
pub proof fn lemma_first_spelled(kinds: Seq<TokenKind>, src: Seq<u8>)
    ensures
        match first_spelled(kinds, src) {
            Some((kind, len)) => kinds.contains(kind) && starts_with(src, kind.bytes()) && len
                == kind.bytes().len() as usize,
            None => forall|i: int| 0 <= i < kinds.len() ==> !starts_with(src, #[trigger] kinds[i].bytes()),
        },
    decreases kinds.len(),
{
    if kinds.len() > 0 {
        lemma_first_spelled(kinds.drop_first(), src);
        if starts_with(src, kinds[0].bytes()) {
            assert(kinds.contains(kinds[0]));
        } else {
            match first_spelled(kinds, src) {
                Some((kind, len)) => {
                    let i = choose|i: int|
                        0 <= i < kinds.drop_first().len() && kinds.drop_first()[i] == kind;
                    assert(kinds[i + 1] == kind);
                    assert(kinds.contains(kind));
                },
                None => {
                    assert forall|i: int| 0 <= i < kinds.len() implies !starts_with(
                        src,
                        #[trigger] kinds[i].bytes(),
                    ) by {
                        if i > 0 {
                            assert(kinds[i] == kinds.drop_first()[i - 1]);
                        }
                    }
                },
            }
        }
    }
}

/// A run stays inside the text, and every byte of it is of its class.
pub proof fn lemma_run(src: Seq<u8>, from: int, class: ByteClass)
    requires
        0 <= from <= src.len(),
    ensures
        0 <= run(src, from, class) <= src.len() - from,
        forall|k: int| from <= k < from + run(src, from, class) ==> class.holds(#[trigger] src[k]),
        from + run(src, from, class) < src.len() ==> !class.holds(
            src[from + run(src, from, class)],
        ),
    decreases src.len() - from,
{
    if from < src.len() && class.holds(src[from]) {
        lemma_run(src, from + 1, class);
    }
}

/// What holds of the token that valid UTF-8 text begins with: it lies inside
/// the text and ends at a character boundary, it is the end-of-input token
/// exactly where the text is empty, any other token has at least one byte,
/// and a token that is not an unrecognized character is made of ASCII bytes.
pub proof fn lemma_scan(src: Seq<u8>)
    requires
        valid_utf8(src),
        src.len() <= usize::MAX,
    ensures
        scan(src).1 <= src.len(),
        is_char_boundary(src, scan(src).1 as int),
        (scan(src).0 == TokenKind::Eof) == (src.len() == 0),
        src.len() > 0 ==> scan(src).1 >= 1,
        scan(src).0 != TokenKind::Unrecognized ==> forall|k: int|
            0 <= k < scan(src).1 ==> #[trigger] src[k] < 0x80,
{
    is_char_boundary_start_end_of_seq(src);
    if src.len() == 0 {
    } else if width_two_punct_match(src) is Some {
        let kind = width_two_punct_match(src).unwrap().0;
        lemma_first_spelled(TokenKind::width_two_punct_kinds(), src);
        lemma_width_two_punct_bytes(kind);
        lemma_spelled_ascii(src, kind);
    } else if width_one_punct_match(src) is Some {
        let kind = width_one_punct_match(src).unwrap().0;
        lemma_first_spelled(TokenKind::width_one_punct_kinds(), src);
        lemma_width_one_punct_bytes(kind);
        lemma_spelled_ascii(src, kind);
    } else if base_prefix_number_match(src) is Some {
        lemma_run(src, 2, ByteClass::HexDigit);
        let n = 2 + run(src, 2, ByteClass::HexDigit);
        assert forall|k: int| 0 <= k < n implies #[trigger] src[k] < 0x80 by {
            if k >= 2 {
                assert(ByteClass::HexDigit.holds(src[k]));
            }
        }
        lemma_ascii_run_boundary(src, 0, n);
    } else if unprefixed_number_match(src) is Some {
        if decimal_end(src) is Some {
            lemma_run(src, 1, ByteClass::Digit);
            let n = 1 + run(src, 1, ByteClass::Digit);
            assert forall|k: int| 0 <= k < n implies #[trigger] src[k] < 0x80 by {
                if k >= 1 {
                    assert(ByteClass::Digit.holds(src[k]));
                }
            }
            lemma_ascii_run_boundary(src, 0, n);
        } else {
            lemma_ascii_run_boundary(src, 0, 1);
        }
    } else if keyword_match(src) is Some {
        let kind = keyword_match(src).unwrap().0;
        lemma_first_spelled(TokenKind::keyword_kinds(), src);
        lemma_keyword_bytes(kind);
        lemma_spelled_ascii(src, kind);
    } else if ident_match(src) is Some {
        lemma_run(src, 1, ByteClass::IdentContinue);
        let n = 1 + run(src, 1, ByteClass::IdentContinue);
        assert forall|k: int| 0 <= k < n implies #[trigger] src[k] < 0x80 by {
            if k >= 1 {
                assert(ByteClass::IdentContinue.holds(src[k]));
            }
        }
        lemma_ascii_run_boundary(src, 0, n);
    } else {
        lemma_next_boundary(src, 0);
        assert(src.skip(0) =~= src);
    }
}

/// A token of a data-carrying kind was found by the rule for that kind.
pub proof fn lemma_scan_data(src: Seq<u8>)
    ensures
        scan(src).0 == TokenKind::BasePrefixNumber ==> base_prefix_end(src) == Some(scan(src).1),
        scan(src).0 == TokenKind::Number ==> unprefixed_number_match(src) == Some(scan(src)),
        scan(src).0 == TokenKind::Ident ==> ident_end(src) == Some(scan(src).1),
{
    lemma_first_spelled(TokenKind::width_two_punct_kinds(), src);
    lemma_first_spelled(TokenKind::width_one_punct_kinds(), src);
    lemma_first_spelled(TokenKind::keyword_kinds(), src);
}

/// Text whose first token is `::` begins with the two bytes of that
/// spelling.
pub proof fn lemma_scan_scope(src: Seq<u8>)
    requires
        scan(src).0 == TokenKind::Scope,
    ensures
        starts_with(src, TokenKind::Scope.bytes()),
        TokenKind::Scope.bytes().len() == 2,
        scan(src).1 == 2,
{
    lemma_first_spelled(TokenKind::width_two_punct_kinds(), src);
    lemma_first_spelled(TokenKind::width_one_punct_kinds(), src);
    lemma_first_spelled(TokenKind::keyword_kinds(), src);
    assert(TokenKind::width_two_punct_kinds().contains(TokenKind::Scope)) by {
        assert(TokenKind::width_two_punct_kinds()[5] == TokenKind::Scope);
    }
    lemma_width_two_punct_bytes(TokenKind::Scope);
}

/// Text that begins with an ASCII spelling has a character boundary behind it.
proof fn lemma_spelled_ascii(src: Seq<u8>, kind: TokenKind)
    requires
        valid_utf8(src),
        starts_with(src, kind.bytes()),
        forall|i: int| 0 <= i < kind.bytes().len() ==> kind.bytes()[i] < 0x80,
    ensures
        is_char_boundary(src, kind.bytes().len() as int),
        forall|k: int| 0 <= k < kind.bytes().len() ==> #[trigger] src[k] < 0x80,
{
    let n = kind.bytes().len() as int;
    assert forall|k: int| 0 <= k < n implies #[trigger] src[k] < 0x80 by {
        assert(src.subrange(0, n)[k] == kind.bytes()[k]);
    }
    is_char_boundary_start_end_of_seq(src);
    lemma_ascii_run_boundary(src, 0, n);
}

/// Compiles `pattern` with `regex::Regex::new` and asks `Regex::find` for its
/// first match in `haystack`; returns the byte offset at which that match
/// ends (`Match::end`), or `None` where there is no match or the pattern does
/// not compile. The contract speaks of the lexer's three patterns only. Each
/// is anchored at the start of the haystack, is built from classes of ASCII
/// characters alone, and repeats its last class greedily, so the match, where
/// there is one, is the longest prefix of that shape.
#[verifier::external_body]
fn find_end(pattern: &str, haystack: &str) -> (end: Option<usize>)
    ensures
        pattern@ == "^[a-zA-Z_][a-zA-Z_0-9]*"@ ==> end == ident_end(haystack.spec_bytes()),
        pattern@ == "^0[xcbXCB][0-9a-fA-F]+"@ ==> end == base_prefix_end(haystack.spec_bytes()),
        pattern@ == "^[1-9][0-9]*"@ ==> end == decimal_end(haystack.spec_bytes()),
{
    Regex::new(pattern).ok()?.find(haystack).map(|m| m.end())
}

fn bytes_start_with(src: &[u8], prefix: &[u8]) -> (b: bool)
    ensures
        b == starts_with(src@, prefix@),
{
    if prefix.len() > src.len() {
        return false;
    }
    let mut i: usize = 0;
    while i < prefix.len()
        invariant
            i <= prefix@.len() <= src@.len(),
            forall|j: int| 0 <= j < i ==> src@[j] == prefix@[j],
        decreases prefix@.len() - i,
    {
        if src[i] != prefix[i] {
            assert(src@.subrange(0, prefix@.len() as int)[i as int] != prefix@[i as int]);
            return false;
        }
        i += 1;
    }
    assert(src@.subrange(0, prefix@.len() as int) =~= prefix@);
    true
}

fn first_spelled_in(kinds: &[TokenKind], src: &str) -> (r: Option<(TokenKind, usize)>)
    ensures
        r == first_spelled(kinds@, src.spec_bytes()),
{
    let mut i: usize = 0;
    assert(kinds@.skip(0) =~= kinds@);
    while i < kinds.len()
        invariant
            i <= kinds@.len(),
            first_spelled(kinds@, src.spec_bytes()) == first_spelled(
                kinds@.skip(i as int),
                src.spec_bytes(),
            ),
        decreases kinds@.len() - i,
    {
        let spelling = kinds[i].as_str();
        assert(kinds@.skip(i as int)[0] == kinds@[i as int]);
        assert(kinds@.skip(i as int).drop_first() =~= kinds@.skip(i + 1));
        if bytes_start_with(src.as_bytes(), spelling.as_bytes()) {
            return Some((kinds[i], spelling.len()));
        }
        i += 1;
    }
    None
}

pub fn width_two_punct(src: &str) -> (r: Option<(TokenKind, usize)>)
    ensures
        r == width_two_punct_match(src.spec_bytes()),
{
    let kinds = TokenKind::width_two_punct();
    first_spelled_in(&kinds, src)
}

pub fn width_one_punct(src: &str) -> (r: Option<(TokenKind, usize)>)
    ensures
        r == width_one_punct_match(src.spec_bytes()),
{
    let kinds = TokenKind::width_one_punct();
    first_spelled_in(&kinds, src)
}

pub fn keyword(src: &str) -> (r: Option<(TokenKind, usize)>)
    ensures
        r == keyword_match(src.spec_bytes()),
{
    let kinds = TokenKind::keywords();
    first_spelled_in(&kinds, src)
}

pub fn ident(src: &str) -> (r: Option<(TokenKind, usize)>)
    ensures
        r == ident_match(src.spec_bytes()),
{
    match find_end("^[a-zA-Z_][a-zA-Z_0-9]*", src) {
        Some(end) => Some((TokenKind::Ident, end)),
        None => None,
    }
}

pub fn base_prefix_number(src: &str) -> (r: Option<(TokenKind, usize)>)
    ensures
        r == base_prefix_number_match(src.spec_bytes()),
{
    match find_end("^0[xcbXCB][0-9a-fA-F]+", src) {
        Some(end) => Some((TokenKind::BasePrefixNumber, end)),
        None => None,
    }
}

pub fn unprefixed_number(src: &str) -> (r: Option<(TokenKind, usize)>)
    ensures
        r == unprefixed_number_match(src.spec_bytes()),
{
    match find_end("^[1-9][0-9]*", src) {
        Some(end) => Some((TokenKind::Number, end)),
        None => {
            let bytes = src.as_bytes();
            if bytes.len() >= 1 && bytes[0] == 0x30 {
                Some((TokenKind::Number, 1))
            } else {
                None
            }
        },
    }
}

pub fn eof(src: &str) -> (r: Option<(TokenKind, usize)>)
    ensures
        r == eof_match(src.spec_bytes()),
{
    if src.as_bytes().len() == 0 {
        Some((TokenKind::Eof, 0))
    } else {
        None
    }
}

pub fn unrecognized_char(src: &str) -> (r: (TokenKind, usize))
    ensures
        r == (TokenKind::Unrecognized, first_char_len(src.spec_bytes())),
{
    let bytes = src.as_bytes();
    let end: usize = if bytes.len() == 0 {
        0
    } else if bytes[0] < 0x80 {
        1
    } else if bytes[0] < 0xe0 {
        2
    } else if bytes[0] < 0xf0 {
        3
    } else {
        4
    };
    (TokenKind::Unrecognized, end)
}

/// Scans the token that `src` begins with: the earliest rule that applies
/// decides, and one unrecognized character is the fallback.
pub fn scan_token(src: &str) -> (r: (TokenKind, usize))
    ensures
        r == scan(src.spec_bytes()),
{
    if let Some(t) = eof(src) {
        return t;
    }
    if let Some(t) = width_two_punct(src) {
        return t;
    }
    if let Some(t) = width_one_punct(src) {
        return t;
    }
    if let Some(t) = base_prefix_number(src) {
        return t;
    }
    if let Some(t) = unprefixed_number(src) {
        return t;
    }
    if let Some(t) = keyword(src) {
        return t;
    }
    if let Some(t) = ident(src) {
        return t;
    }
    unrecognized_char(src)
}

} // verus!
