use ku_syntax::cache::StringCache;
use ku_syntax::cache::StringKey;
use ku_syntax::span::Span;
use ku_syntax::token::Token;
use ku_syntax::token::TokenKind;
use ku_syntax::tokenizer::rules;
use ku_syntax::tokenizer::Tokenizer;

fn token(file: StringKey, pos: usize, len: usize, kind: TokenKind) -> Token {
    Token::from_span_value(Span { file, pos, len }, kind)
}

#[test]
fn tokenizes() {
    let mut cache = StringCache::new();
    let file_name = cache.intern("mysource.ku");
    let mut tokenizer = Tokenizer::from_parts(file_name, "do foo 3 0xc3 0b01,0c9, 0");

    let expected = token(file_name, 0, 2, TokenKind::Do);
    assert_eq!(expected, tokenizer.next());

    let expected = token(file_name, 3, 3, TokenKind::Ident);
    assert_eq!(expected, tokenizer.next());

    let expected = token(file_name, 7, 1, TokenKind::Number);
    assert_eq!(expected, tokenizer.next());

    let expected = token(file_name, 9, 4, TokenKind::BasePrefixNumber);
    assert_eq!(expected, tokenizer.next());

    let expected = token(file_name, 14, 4, TokenKind::BasePrefixNumber);
    assert_eq!(expected, tokenizer.next());

    let expected = token(file_name, 18, 1, TokenKind::Comma);
    assert_eq!(expected, tokenizer.next());

    let expected = token(file_name, 19, 3, TokenKind::BasePrefixNumber);
    assert_eq!(expected, tokenizer.next());

    let expected = token(file_name, 22, 1, TokenKind::Comma);
    assert_eq!(expected, tokenizer.next());

    let expected = token(file_name, 24, 1, TokenKind::Number);
    assert_eq!(expected, tokenizer.next());

    let expected = token(file_name, 25, 0, TokenKind::Eof);
    assert_eq!(expected, tokenizer.next());
}

#[test]
fn nuanced_tokenizes() {
    let mut cache = StringCache::new();
    let file_name = cache.intern("mysource.ku");
    let mut tokenizer = Tokenizer::from_parts(file_name, "  >= -> -\\>  ");

    let expected = token(file_name, 2, 2, TokenKind::GtEquals);
    assert_eq!(expected, tokenizer.next());

    let expected = token(file_name, 5, 2, TokenKind::Arrow);
    assert_eq!(expected, tokenizer.next());

    let expected = token(file_name, 8, 1, TokenKind::Minus);
    assert_eq!(expected, tokenizer.next());

    let expected = token(file_name, 9, 1, TokenKind::Unrecognized);
    assert_eq!(expected, tokenizer.next());

    let expected = token(file_name, 10, 1, TokenKind::Gt);
    assert_eq!(expected, tokenizer.next());

    let expected = token(file_name, 13, 0, TokenKind::Eof);
    assert_eq!(expected, tokenizer.next());
}

#[test]
fn advances() {
    let mut cache = StringCache::new();
    let file_name = cache.intern("mysource.ku");
    let mut tokenizer = Tokenizer::from_parts(file_name, "foo bar");

    let expected = token(file_name, 0, 3, TokenKind::Ident);
    assert_eq!(expected, tokenizer.next());

    let expected = token(file_name, 4, 3, TokenKind::Ident);
    assert_eq!(expected, tokenizer.peek());
    assert_eq!(expected, tokenizer.peek());
    assert_eq!(expected, tokenizer.next());

    let expected = token(file_name, 7, 0, TokenKind::Eof);
    assert_eq!(expected, tokenizer.peek());
    assert_eq!(expected, tokenizer.next());
    assert_eq!(expected, tokenizer.next());
}

#[test]
fn advances2() {
    let mut cache = StringCache::new();
    let file_name = cache.intern("mysource.ku");
    let mut tokenizer = Tokenizer::from_parts(file_name, "foo bar");

    let expected1 = token(file_name, 0, 3, TokenKind::Ident);
    let expected2 = token(file_name, 4, 3, TokenKind::Ident);
    let expected3 = token(file_name, 7, 0, TokenKind::Eof);

    assert_eq!(expected1, tokenizer.peek());
    assert_eq!(expected1, tokenizer.next());
    assert_eq!(expected3, tokenizer.peek2());
    assert_eq!(expected2, tokenizer.peek());
    assert_eq!(expected3, tokenizer.peek2());
    assert_eq!(expected3, tokenizer.peek2());
    assert_eq!(expected2, tokenizer.next());
    assert_eq!(expected3, tokenizer.peek());
    assert_eq!(expected3, tokenizer.next());
}

#[test]
fn rules_match_prefixes_only() {
    assert_eq!(Some((TokenKind::Arrow, 2)), rules::width_two_punct("->x"));
    assert_eq!(None, rules::width_two_punct("-x"));
    assert_eq!(Some((TokenKind::Minus, 1)), rules::width_one_punct("->"));
    assert_eq!(None, rules::width_one_punct("a+"));
    assert_eq!(Some((TokenKind::Do, 2)), rules::keyword("done"));
    assert_eq!(Some((TokenKind::CC, 1)), rules::keyword("key"));
    assert_eq!(None, rules::keyword("x do"));
    assert_eq!(Some((TokenKind::Ident, 5)), rules::ident("a_b9Z+c"));
    assert_eq!(Some((TokenKind::Ident, 1)), rules::ident("_"));
    assert_eq!(None, rules::ident("9a"));
    assert_eq!(None, rules::ident(""));
    assert_eq!(None, rules::ident(" a"));
}

#[test]
fn number_rules() {
    assert_eq!(Some((TokenKind::BasePrefixNumber, 4)), rules::base_prefix_number("0xfFg"));
    assert_eq!(Some((TokenKind::BasePrefixNumber, 4)), rules::base_prefix_number("0B19 "));
    assert_eq!(Some((TokenKind::BasePrefixNumber, 3)), rules::base_prefix_number("0C7"));
    assert_eq!(None, rules::base_prefix_number("0x"));
    assert_eq!(None, rules::base_prefix_number("0xg"));
    assert_eq!(None, rules::base_prefix_number("0d1"));
    assert_eq!(None, rules::base_prefix_number("1x1"));
    assert_eq!(Some((TokenKind::Number, 3)), rules::unprefixed_number("120a"));
    assert_eq!(Some((TokenKind::Number, 1)), rules::unprefixed_number("0"));
    assert_eq!(Some((TokenKind::Number, 1)), rules::unprefixed_number("012"));
    assert_eq!(None, rules::unprefixed_number("a1"));
    assert_eq!(None, rules::unprefixed_number(""));
}

#[test]
fn end_and_fallback_rules() {
    assert_eq!(Some((TokenKind::Eof, 0)), rules::eof(""));
    assert_eq!(None, rules::eof(" "));
    assert_eq!((TokenKind::Unrecognized, 1), rules::unrecognized_char("\\>"));
    assert_eq!((TokenKind::Unrecognized, 2), rules::unrecognized_char("\u{e9}t\u{e9}"));
    assert_eq!((TokenKind::Unrecognized, 3), rules::unrecognized_char("\u{20ac}"));
    assert_eq!((TokenKind::Unrecognized, 4), rules::unrecognized_char("\u{1f600}!"));
    assert_eq!((TokenKind::Unrecognized, 0), rules::unrecognized_char(""));
    assert_eq!((TokenKind::Ident, 3), rules::scan_token("foo bar"));
    assert_eq!((TokenKind::If, 2), rules::scan_token("iffy"));
    assert_eq!((TokenKind::Scope, 2), rules::scan_token(":::"));
}

#[test]
fn unicode_white_space_is_skipped() {
    let file = StringKey::empty();
    let src = "\u{a0}\u{2003}a\u{3000}\t\u{85}\u{e9}\u{1680}\u{205f}\u{2028}b";
    let mut tokenizer = Tokenizer::from_parts(file, src);
    assert_eq!(token(file, 5, 1, TokenKind::Ident), tokenizer.next());
    assert_eq!(token(file, 12, 2, TokenKind::Unrecognized), tokenizer.next());
    assert_eq!(token(file, 23, 1, TokenKind::Ident), tokenizer.next());
    assert_eq!(token(file, 24, 0, TokenKind::Eof), tokenizer.next());
    assert_eq!("\u{e9}", tokenizer.src_for(Span { file, pos: 12, len: 2 }));
}

#[test]
fn expect_one_of_consumes_either_way() {
    let file = StringKey::empty();
    let mut tokenizer = Tokenizer::from_parts(file, "a , b");
    let kinds = [TokenKind::Ident, TokenKind::Number];
    assert_eq!(Ok(token(file, 0, 1, TokenKind::Ident)), tokenizer.expect_one_of(&kinds));
    assert_eq!(Err(token(file, 2, 1, TokenKind::Comma)), tokenizer.expect_one_of(&kinds));
    assert_eq!(Ok(token(file, 4, 1, TokenKind::Ident)), tokenizer.expect_one_of(&kinds));
    assert_eq!(Err(token(file, 5, 0, TokenKind::Eof)), tokenizer.expect_one_of(&kinds));
    assert_eq!("b", tokenizer.src_for(Span { file, pos: 4, len: 1 }));
}

#[test]
fn white_space_is_what_the_standard_library_trims() {
    let file = StringKey::empty();
    let mut code: u32 = 0;
    while code < 0x3100 {
        if let Some(c) = char::from_u32(code) {
            let src = format!("{}x", c);
            let trimmed = src.len() - src.trim_start().len();
            let mut tokenizer = Tokenizer::from_parts(file, &src);
            let first = tokenizer.peek();
            assert_eq!(trimmed, Token::span(&first).pos, "U+{:04X}", code);
        }
        code += 1;
    }
}
