//! Values that single tokens carry.

use crate::token::TokenKind;
use vstd::prelude::*;

pub use crate::ast::ident::Ident;
pub use crate::ast::ident::QualifiedIdent;

verus! {

/// The integer literal, which may be written in different radixes.
#[derive(Clone, Debug, PartialEq, Eq)]
pub struct IntLiteral {
    pub value: String,
    pub radix: IntRadix,
}

/// Integer radix.
#[derive(Copy, Clone, Debug, PartialEq, Eq, Structural)]
pub enum IntRadix {
    Decimal,
    Octal,
    Hex,
    Binary,
}

impl IntRadix {
    /// The number that the radix counts in.
    pub open spec fn base(self) -> int {
        match self {
            IntRadix::Decimal => 10,
            IntRadix::Octal => 8,
            IntRadix::Hex => 16,
            IntRadix::Binary => 2,
        }
    }

    /// The radix that a base letter names: `x` hexadecimal, `c` octal, `b`
    /// binary, in either case.
    pub open spec fn of_letter(letter: u8) -> Option<IntRadix> {
        if letter == 0x78 || letter == 0x58 {
            Some(IntRadix::Hex)
        } else if letter == 0x63 || letter == 0x43 {
            Some(IntRadix::Octal)
        } else if letter == 0x62 || letter == 0x42 {
            Some(IntRadix::Binary)
        } else {
            None
        }
    }

    pub fn value(&self) -> (base: u32)
        ensures
            base == self.base(),
    {
        match self {
            IntRadix::Decimal => 10,
            IntRadix::Octal => 8,
            IntRadix::Hex => 16,
            IntRadix::Binary => 2,
        }
    }

    pub fn from_letter(letter: u8) -> (radix: Option<IntRadix>)
        ensures
            radix == IntRadix::of_letter(letter),
    {
        if letter == 0x78 || letter == 0x58 {
            Some(IntRadix::Hex)
        } else if letter == 0x63 || letter == 0x43 {
            Some(IntRadix::Octal)
        } else if letter == 0x62 || letter == 0x42 {
            Some(IntRadix::Binary)
        } else {
            None
        }
    }
}

/// Binary operator of arithmetic: the operators that an expression chains.
#[derive(Copy, Clone, Debug, PartialEq, Eq, Structural)]
pub enum Operator {
    Add,
    Sub,
    Mul,
    Div,
    Rem,
}

#[derive(Clone, Copy, Debug, PartialEq, Eq, Structural)]
pub struct UnexpectedError;

impl Operator {
    /// The operator that a token kind spells where it can chain operands:
    /// one of `+`, `-`, `*` and `/`.
    pub open spec fn of_token(kind: TokenKind) -> Option<Operator> {
        match kind {
            TokenKind::Plus => Some(Operator::Add),
            TokenKind::Minus => Some(Operator::Sub),
            TokenKind::Star => Some(Operator::Mul),
            TokenKind::Slash => Some(Operator::Div),
            _ => None,
        }
    }

    pub fn try_from(value: TokenKind) -> (r: Result<Operator, UnexpectedError>)
        ensures
            r == match Operator::of_token(value) {
                Some(op) => Ok::<Operator, UnexpectedError>(op),
                None => Err::<Operator, UnexpectedError>(UnexpectedError),
            },
    {
        match value {
            TokenKind::Plus => Ok(Operator::Add),
            TokenKind::Minus => Ok(Operator::Sub),
            TokenKind::Star => Ok(Operator::Mul),
            TokenKind::Slash => Ok(Operator::Div),
            _ => Err(UnexpectedError),
        }
    }

    /// The same operator among those of the syntax tree.
    pub open spec fn in_tree(self) -> crate::ast::expr::Operator {
        match self {
            Operator::Add => crate::ast::expr::Operator::Add,
            Operator::Sub => crate::ast::expr::Operator::Sub,
            Operator::Mul => crate::ast::expr::Operator::Mul,
            Operator::Div => crate::ast::expr::Operator::Div,
            Operator::Rem => crate::ast::expr::Operator::Rem,
        }
    }

    pub fn into_tree(self) -> (op: crate::ast::expr::Operator)
        ensures
            op == self.in_tree(),
    {
        match self {
            Operator::Add => crate::ast::expr::Operator::Add,
            Operator::Sub => crate::ast::expr::Operator::Sub,
            Operator::Mul => crate::ast::expr::Operator::Mul,
            Operator::Div => crate::ast::expr::Operator::Div,
            Operator::Rem => crate::ast::expr::Operator::Rem,
        }
    }
}

} // verus!
