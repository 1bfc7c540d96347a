//! Numbers.

use vstd::prelude::*;

verus! {

/// Parsed integer literal.
#[derive(Copy, Clone, Debug, PartialEq, Eq, Structural)]
pub enum Integer {
    Integer(i64),
    Error,
}

} // verus!
