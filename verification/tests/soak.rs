use ku_syntax::cache::StringCache;
use ku_syntax::cache::StringKey;
use ku_syntax::diagnostic::Diagnostics;
use ku_syntax::parse::Parser;
use ku_syntax::token::TokenKind;
use ku_syntax::tokenizer::Tokenizer;

const PIECES: [&str; 48] = [
    "a", "foo", "k", "key", "do", "done", "if", "else", "let", "fn", "effect", "handle", "finally",
    "with", "return", "import", "resume", "recur", "0", "7", "42", "0x1f", "0c17", "0c9", "0b10",
    "0z1", "99999999999999999999", "(", ")", "{", "}", "[", "]", ",", ";", ":", "::", "->", "=",
    "==", "+", "-", "*", "/", "|", ".", "\u{e9}", "\u{3000}",
];

struct Dice(u64);

impl Dice {
    fn roll(&mut self, sides: usize) -> usize {
        self.0 = self.0.wrapping_mul(6364136223846793005).wrapping_add(1442695040888963407);
        ((self.0 >> 33) as usize) % sides
    }

    fn text(&mut self, pieces: usize) -> String {
        let mut text = String::new();
        for _ in 0..pieces {
            text.push_str(PIECES[self.roll(PIECES.len())]);
            match self.roll(4) {
                0 => text.push(' '),
                1 => text.push('\n'),
                _ => {}
            }
        }
        text
    }
}

#[test]
fn tokens_tile_any_text() {
    let mut dice = Dice(7);
    for _ in 0..400 {
        let text = dice.text(30);
        let mut tokenizer = Tokenizer::from_parts(StringKey::empty(), &text);
        let mut end = 0;
        loop {
            let ahead = tokenizer.peek();
            let second = tokenizer.peek2();
            let token = tokenizer.next();
            assert_eq!(ahead, token);
            assert!(token.span.pos >= end, "{:?} in {:?}", token, text);
            assert!(text[end..token.span.pos].chars().all(char::is_whitespace));
            end = token.span.pos + token.span.len;
            assert!(text.is_char_boundary(end));
            assert_eq!(&text[token.span.pos..end], tokenizer.src_for(token.span));
            if token.value == TokenKind::Eof {
                assert_eq!(text.len(), token.span.pos);
                assert_eq!(0, token.span.len);
                assert_eq!(token, second);
                break;
            }
            assert!(token.span.len > 0);
            assert_eq!(second, tokenizer.peek());
        }
    }
}

#[test]
fn every_text_parses_to_its_end() {
    let mut dice = Dice(11);
    for round in 0..300 {
        let text = dice.text(40);
        let tz = Tokenizer::from_parts(StringKey::empty(), &text);
        let mut parser = Parser { tz, cache: StringCache::new(), ds: Diagnostics::new() };
        match round % 3 {
            0 => {
                let _ = parser.file();
                assert_eq!(TokenKind::Eof, parser.tz.peek().value, "{:?}", text);
            }
            1 => {
                let _ = parser.stmt();
            }
            _ => {
                let _ = parser.block_expr();
            }
        }
        let reports = parser.ds.into_vec();
        for report in reports {
            assert!(report.span.pos + report.span.len <= text.len());
        }
    }
}

#[test]
fn deep_nesting_parses() {
    let depth = 200;
    let mut text = String::new();
    for _ in 0..depth {
        text.push_str("f(");
    }
    text.push('1');
    for _ in 0..depth {
        text.push(')');
    }
    let tz = Tokenizer::from_parts(StringKey::empty(), &text);
    let mut parser = Parser { tz, cache: StringCache::new(), ds: Diagnostics::new() };
    let _ = parser.block_expr();
    assert_eq!(TokenKind::Eof, parser.tz.peek().value);
    assert!(!parser.ds.has_errors());
}

#[test]
fn a_parse_without_diagnostics_has_no_placeholder() {
    let mut dice = Dice(23);
    let mut silent = 0;
    for round in 0..3000 {
        let text = dice.text(1 + round % 7);
        let tz = Tokenizer::from_parts(StringKey::empty(), &text);
        let mut parser = Parser { tz, cache: StringCache::new(), ds: Diagnostics::new() };
        let shown = match round % 3 {
            0 => format!("{:?}", parser.file()),
            1 => format!("{:?}", parser.stmt()),
            _ => format!("{:?}", parser.block_expr()),
        };
        if !parser.ds.has_errors() {
            silent += 1;
            assert!(!shown.contains("Error"), "{:?} gave {}", text, shown);
        }
    }
    assert!(silent > 100, "only {} parses without a diagnostic", silent);
}
