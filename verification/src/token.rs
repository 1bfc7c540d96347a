//! Token kinds and their spellings.

use crate::span::Spanned;
use vstd::prelude::*;
use vstd::utf8::*;

verus! {

/// Type of tokens.
pub type Token = Spanned<TokenKind>;

#[derive(Copy, Clone, Debug, Hash, PartialEq, Eq, Structural)]
pub enum TokenKind {
    // Meta
    Eof,
    Unrecognized,
    // Punctuation
    Arrow,
    Colon,
    Comma,
    CurlyL,
    CurlyR,
    Dot,
    DoubleEquals,
    Equals,
    ExclaimEquals,
    Gt,
    GtEquals,
    Lt,
    LtEquals,
    Minus,
    Percent,
    Pipe,
    Plus,
    RoundL,
    RoundR,
    Scope,
    Semi,
    Slash,
    SquareL,
    SquareR,
    Star,
    // Keywords
    Do,
    Effect,
    Else,
    Finally,
    Fn,
    Handle,
    If,
    Import,
    CC,
    Let,
    Recur,
    Resume,
    Return,
    With,
    // Data-carrying
    Number,
    BasePrefixNumber,
    Ident,
}

impl TokenKind {
    /// How a kind is written: the spelling of a punctuation mark or keyword,
    /// a placeholder in angle brackets for the other kinds.
    pub open spec fn text(self) -> Seq<char> {
        match self {
            TokenKind::Arrow => "->"@,
            TokenKind::Colon => ":"@,
            TokenKind::Comma => ","@,
            TokenKind::CurlyL => "{"@,
            TokenKind::CurlyR => "}"@,
            TokenKind::DoubleEquals => "=="@,
            TokenKind::Equals => "="@,
            TokenKind::ExclaimEquals => "!="@,
            TokenKind::Gt => ">"@,
            TokenKind::GtEquals => ">="@,
            TokenKind::Lt => "<"@,
            TokenKind::LtEquals => "<="@,
            TokenKind::Dot => "."@,
            TokenKind::Minus => "-"@,
            TokenKind::Percent => "%"@,
            TokenKind::Pipe => "|"@,
            TokenKind::Plus => "+"@,
            TokenKind::RoundL => "("@,
            TokenKind::RoundR => ")"@,
            TokenKind::Scope => "::"@,
            TokenKind::Semi => ";"@,
            TokenKind::Slash => "/"@,
            TokenKind::SquareL => "["@,
            TokenKind::SquareR => "]"@,
            TokenKind::Star => "*"@,
            TokenKind::Do => "do"@,
            TokenKind::Effect => "effect"@,
            TokenKind::Else => "else"@,
            TokenKind::Finally => "finally"@,
            TokenKind::Fn => "fn"@,
            TokenKind::Handle => "handle"@,
            TokenKind::If => "if"@,
            TokenKind::Import => "import"@,
            TokenKind::CC => "k"@,
            TokenKind::Let => "let"@,
            TokenKind::Recur => "recur"@,
            TokenKind::Resume => "resume"@,
            TokenKind::Return => "return"@,
            TokenKind::With => "with"@,
            TokenKind::Ident => "<ident>"@,
            TokenKind::Number => "<number>"@,
            TokenKind::BasePrefixNumber => "0Z<number>"@,
            TokenKind::Eof => "<EOF>"@,
            TokenKind::Unrecognized => "<?>"@,
        }
    }

    /// The spelling of a kind as the bytes of its UTF-8 encoding.
    pub open spec fn bytes(self) -> Seq<u8> {
        encode_utf8(self.text())
    }

    /// The keywords, in the order in which the lexer tries them.
    pub open spec fn keyword_kinds() -> Seq<TokenKind> {
        seq![
            TokenKind::Do,
            TokenKind::Effect,
            TokenKind::Else,
            TokenKind::Finally,
            TokenKind::Fn,
            TokenKind::Handle,
            TokenKind::If,
            TokenKind::Import,
            TokenKind::CC,
            TokenKind::Let,
            TokenKind::Recur,
            TokenKind::Resume,
            TokenKind::Return,
            TokenKind::With,
        ]
    }

    /// The punctuation marks of two characters, in the order in which the
    /// lexer tries them.
    pub open spec fn width_two_punct_kinds() -> Seq<TokenKind> {
        seq![
            TokenKind::Arrow,
            TokenKind::DoubleEquals,
            TokenKind::ExclaimEquals,
            TokenKind::GtEquals,
            TokenKind::LtEquals,
            TokenKind::Scope,
        ]
    }

    /// The punctuation marks of one character, in the order in which the
    /// lexer tries them.
    pub open spec fn width_one_punct_kinds() -> Seq<TokenKind> {
        seq![
            TokenKind::Colon,
            TokenKind::Comma,
            TokenKind::CurlyL,
            TokenKind::CurlyR,
            TokenKind::Equals,
            TokenKind::Gt,
            TokenKind::Lt,
            TokenKind::Dot,
            TokenKind::Minus,
            TokenKind::Percent,
            TokenKind::Pipe,
            TokenKind::Plus,
            TokenKind::RoundL,
            TokenKind::RoundR,
            TokenKind::Semi,
            TokenKind::Slash,
            TokenKind::SquareL,
            TokenKind::SquareR,
            TokenKind::Star,
        ]
    }

    pub fn keywords() -> (kinds: [TokenKind; 14])
        ensures
            kinds@ == TokenKind::keyword_kinds(),
    {
        let kinds = [
            TokenKind::Do,
            TokenKind::Effect,
            TokenKind::Else,
            TokenKind::Finally,
            TokenKind::Fn,
            TokenKind::Handle,
            TokenKind::If,
            TokenKind::Import,
            TokenKind::CC,
            TokenKind::Let,
            TokenKind::Recur,
            TokenKind::Resume,
            TokenKind::Return,
            TokenKind::With,
        ];
        assert(kinds@ =~= TokenKind::keyword_kinds());
        kinds
    }

    pub fn width_two_punct() -> (kinds: [TokenKind; 6])
        ensures
            kinds@ == TokenKind::width_two_punct_kinds(),
    {
        let kinds = [
            TokenKind::Arrow,
            TokenKind::DoubleEquals,
            TokenKind::ExclaimEquals,
            TokenKind::GtEquals,
            TokenKind::LtEquals,
            TokenKind::Scope,
        ];
        assert(kinds@ =~= TokenKind::width_two_punct_kinds());
        kinds
    }

    pub fn width_one_punct() -> (kinds: [TokenKind; 19])
        ensures
            kinds@ == TokenKind::width_one_punct_kinds(),
    {
        let kinds = [
            TokenKind::Colon,
            TokenKind::Comma,
            TokenKind::CurlyL,
            TokenKind::CurlyR,
            TokenKind::Equals,
            TokenKind::Gt,
            TokenKind::Lt,
            TokenKind::Dot,
            TokenKind::Minus,
            TokenKind::Percent,
            TokenKind::Pipe,
            TokenKind::Plus,
            TokenKind::RoundL,
            TokenKind::RoundR,
            TokenKind::Semi,
            TokenKind::Slash,
            TokenKind::SquareL,
            TokenKind::SquareR,
            TokenKind::Star,
        ];
        assert(kinds@ =~= TokenKind::width_one_punct_kinds());
        kinds
    }

    pub fn as_str(&self) -> (s: &'static str)
        ensures
            s@ == self.text(),
    {
        match *self {
            TokenKind::Arrow => "->",
            TokenKind::Colon => ":",
            TokenKind::Comma => ",",
            TokenKind::CurlyL => "{",
            TokenKind::CurlyR => "}",
            TokenKind::DoubleEquals => "==",
            TokenKind::Equals => "=",
            TokenKind::ExclaimEquals => "!=",
            TokenKind::Gt => ">",
            TokenKind::GtEquals => ">=",
            TokenKind::Lt => "<",
            TokenKind::LtEquals => "<=",
            TokenKind::Dot => ".",
            TokenKind::Minus => "-",
            TokenKind::Percent => "%",
            TokenKind::Pipe => "|",
            TokenKind::Plus => "+",
            TokenKind::RoundL => "(",
            TokenKind::RoundR => ")",
            TokenKind::Scope => "::",
            TokenKind::Semi => ";",
            TokenKind::Slash => "/",
            TokenKind::SquareL => "[",
            TokenKind::SquareR => "]",
            TokenKind::Star => "*",
            TokenKind::Do => "do",
            TokenKind::Effect => "effect",
            TokenKind::Else => "else",
            TokenKind::Finally => "finally",
            TokenKind::Fn => "fn",
            TokenKind::Handle => "handle",
            TokenKind::If => "if",
            TokenKind::Import => "import",
            TokenKind::CC => "k",
            TokenKind::Let => "let",
            TokenKind::Recur => "recur",
            TokenKind::Resume => "resume",
            TokenKind::Return => "return",
            TokenKind::With => "with",
            TokenKind::Ident => "<ident>",
            TokenKind::Number => "<number>",
            TokenKind::BasePrefixNumber => "0Z<number>",
            TokenKind::Eof => "<EOF>",
            TokenKind::Unrecognized => "<?>",
        }
    }

    /// The text of a kind as an owned string.
    pub fn to_string(&self) -> (s: String)
        ensures
            s@ == self.text(),
    {
        self.as_str().to_owned()
    }

    /// Whether the kind is one of `kinds`.
    pub fn is_one_of(&self, kinds: &[TokenKind]) -> (b: bool)
        ensures
            b == kinds@.contains(*self),
    {
        let mut i: usize = 0;
        while i < kinds.len()
            invariant
                i <= kinds@.len(),
                forall|j: int| 0 <= j < i ==> kinds@[j] != *self,
            decreases kinds@.len() - i,
        {
            if kinds[i] == *self {
                return true;
            }
            i += 1;
        }
        false
    }
}

/// A punctuation mark of two characters is spelt with two bytes.
pub proof fn lemma_width_two_punct_bytes(kind: TokenKind)
    requires
        TokenKind::width_two_punct_kinds().contains(kind),
    ensures
        kind.bytes().len() == 2,
        forall|i: int| 0 <= i < kind.bytes().len() ==> kind.bytes()[i] < 0x80,
{
    reveal_strlit("->");
    reveal_strlit("==");
    reveal_strlit("!=");
    reveal_strlit(">=");
    reveal_strlit("<=");
    reveal_strlit("::");
    assert(is_ascii_chars(kind.text()));
    is_ascii_chars_encode_utf8(kind.text());
}

/// A punctuation mark of one character is spelt with one byte.
pub proof fn lemma_width_one_punct_bytes(kind: TokenKind)
    requires
        TokenKind::width_one_punct_kinds().contains(kind),
    ensures
        kind.bytes().len() == 1,
        forall|i: int| 0 <= i < kind.bytes().len() ==> kind.bytes()[i] < 0x80,
{
    reveal_strlit(":");
    reveal_strlit(",");
    reveal_strlit("{");
    reveal_strlit("}");
    reveal_strlit("=");
    reveal_strlit(">");
    reveal_strlit("<");
    reveal_strlit(".");
    reveal_strlit("-");
    reveal_strlit("%");
    reveal_strlit("|");
    reveal_strlit("+");
    reveal_strlit("(");
    reveal_strlit(")");
    reveal_strlit(";");
    reveal_strlit("/");
    reveal_strlit("[");
    reveal_strlit("]");
    reveal_strlit("*");
    assert(is_ascii_chars(kind.text()));
    is_ascii_chars_encode_utf8(kind.text());
}

/// A keyword is spelt with at least one byte.
pub proof fn lemma_keyword_bytes(kind: TokenKind)
    requires
        TokenKind::keyword_kinds().contains(kind),
    ensures
        kind.bytes().len() >= 1,
        forall|i: int| 0 <= i < kind.bytes().len() ==> kind.bytes()[i] < 0x80,
{
    reveal_strlit("do");
    reveal_strlit("effect");
    reveal_strlit("else");
    reveal_strlit("finally");
    reveal_strlit("fn");
    reveal_strlit("handle");
    reveal_strlit("if");
    reveal_strlit("import");
    reveal_strlit("k");
    reveal_strlit("let");
    reveal_strlit("recur");
    reveal_strlit("resume");
    reveal_strlit("return");
    reveal_strlit("with");
    assert(is_ascii_chars(kind.text()));
    is_ascii_chars_encode_utf8(kind.text());
}

} // verus!
