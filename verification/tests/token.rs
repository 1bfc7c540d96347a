use ku_syntax::ast::expr::Operator;
use ku_syntax::ast::expr::UnexpectedError;
use ku_syntax::ast::ident::Ident;
use ku_syntax::ast::ident::QualifiedIdent;
use ku_syntax::cache::StringKey;
use ku_syntax::token::TokenKind;
use ku_syntax::tokenizer::rules;
use ku_syntax::tokens;
use ku_syntax::tokens::IntRadix;

#[test]
fn spellings() {
    assert_eq!("->", TokenKind::Arrow.as_str());
    assert_eq!("::", TokenKind::Scope.as_str());
    assert_eq!("k", TokenKind::CC.as_str());
    assert_eq!("finally", TokenKind::Finally.as_str());
    assert_eq!("<ident>", TokenKind::Ident.as_str());
    assert_eq!("<number>", TokenKind::Number.as_str());
    assert_eq!("0Z<number>", TokenKind::BasePrefixNumber.as_str());
    assert_eq!("<EOF>", TokenKind::Eof.as_str());
    assert_eq!("<?>", TokenKind::Unrecognized.as_str());
    assert_eq!("handle".to_string(), TokenKind::Handle.to_string());
}

#[test]
fn every_listed_kind_is_found_by_its_rule() {
    for kind in TokenKind::width_two_punct() {
        assert_eq!(Some((kind, 2)), rules::width_two_punct(kind.as_str()));
        assert_eq!((kind, 2), rules::scan_token(kind.as_str()));
    }
    for kind in TokenKind::width_one_punct() {
        assert_eq!(Some((kind, 1)), rules::width_one_punct(kind.as_str()));
        assert_eq!((kind, 1), rules::scan_token(kind.as_str()));
    }
    for kind in TokenKind::keywords() {
        assert_eq!(Some((kind, kind.as_str().len())), rules::keyword(kind.as_str()));
        assert_eq!((kind, kind.as_str().len()), rules::scan_token(kind.as_str()));
    }
    assert_eq!(14, TokenKind::keywords().len());
}

#[test]
fn kinds_in_a_list() {
    let kinds = [TokenKind::Plus, TokenKind::Minus];
    assert!(TokenKind::Minus.is_one_of(&kinds));
    assert!(!TokenKind::Star.is_one_of(&kinds));
    assert!(!TokenKind::Star.is_one_of(&[]));
}

#[test]
fn operators_of_tokens() {
    assert_eq!(Ok(Operator::Add), Operator::try_from(TokenKind::Plus));
    assert_eq!(Ok(Operator::Sub), Operator::try_from(TokenKind::Minus));
    assert_eq!(Ok(Operator::Mul), Operator::try_from(TokenKind::Star));
    assert_eq!(Ok(Operator::Div), Operator::try_from(TokenKind::Slash));
    assert_eq!(Ok(Operator::Rem), Operator::try_from(TokenKind::Percent));
    assert_eq!(Ok(Operator::Eq), Operator::try_from(TokenKind::DoubleEquals));
    assert_eq!(Ok(Operator::NotEq), Operator::try_from(TokenKind::ExclaimEquals));
    assert_eq!(Ok(Operator::Gt), Operator::try_from(TokenKind::Gt));
    assert_eq!(Ok(Operator::Ge), Operator::try_from(TokenKind::GtEquals));
    assert_eq!(Ok(Operator::Lt), Operator::try_from(TokenKind::Lt));
    assert_eq!(Ok(Operator::Le), Operator::try_from(TokenKind::LtEquals));
    assert_eq!(Err(UnexpectedError), Operator::try_from(TokenKind::Equals));
    assert_eq!(Err(UnexpectedError), Operator::try_from(TokenKind::Ident));
}

#[test]
fn chaining_operators_of_tokens() {
    assert_eq!(Ok(tokens::Operator::Add), tokens::Operator::try_from(TokenKind::Plus));
    assert_eq!(Ok(tokens::Operator::Sub), tokens::Operator::try_from(TokenKind::Minus));
    assert_eq!(Ok(tokens::Operator::Mul), tokens::Operator::try_from(TokenKind::Star));
    assert_eq!(Ok(tokens::Operator::Div), tokens::Operator::try_from(TokenKind::Slash));
    assert_eq!(Err(tokens::UnexpectedError), tokens::Operator::try_from(TokenKind::Percent));
    assert_eq!(Err(tokens::UnexpectedError), tokens::Operator::try_from(TokenKind::Gt));
    assert_eq!(Operator::Div, tokens::Operator::Div.into_tree());
    assert_eq!(Operator::Rem, tokens::Operator::Rem.into_tree());
}

#[test]
fn radixes() {
    assert_eq!(Some(IntRadix::Hex), IntRadix::from_letter(b'x'));
    assert_eq!(Some(IntRadix::Hex), IntRadix::from_letter(b'X'));
    assert_eq!(Some(IntRadix::Octal), IntRadix::from_letter(b'c'));
    assert_eq!(Some(IntRadix::Binary), IntRadix::from_letter(b'B'));
    assert_eq!(None, IntRadix::from_letter(b'o'));
    assert_eq!(16, IntRadix::Hex.value());
    assert_eq!(8, IntRadix::Octal.value());
    assert_eq!(2, IntRadix::Binary.value());
    assert_eq!(10, IntRadix::Decimal.value());
}

#[test]
fn qualified_names_of_one_segment() {
    let key = StringKey(4);
    assert_eq!(QualifiedIdent(vec![Ident::Ident(key)]), QualifiedIdent::from_key(key));
    assert_eq!(QualifiedIdent(vec![Ident::Error]), QualifiedIdent::from_ident(Ident::Error));
}
