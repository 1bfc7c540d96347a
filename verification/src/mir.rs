//! The data of the "bytecode with metadata" format that parsed and resolved
//! code is to be lowered to: bodies of functions and closures are lists of
//! typed operations in which every symbol is resolved.

use crate::symbol::SymbolKey;
use vstd::prelude::*;

verus! {

pub enum Opcode {
    // -> Any
    LoadValue(Value),
    // -> Any
    LoadLocal(usize),
    // Int, Int -> Int
    Add,
    // Int, Int -> Int
    Sub,
    // Int, Int -> Int
    Mul,
    // Record -> Record.x
    /// Member access.
    Access(usize),
    /// If-else branch with relative jumps
    Branch(i32, i32),
    // Args..., Cont ->
    Continue,
}

pub enum Value {
    /// Integer.
    Int(i64),
    /// Continuation/function/closure (they're all the same at this point).
    Cont(SymbolKey),
    /// Effect handler.
    Handler(),
}

// |x, y| {
//   let z = x + y;
//   let w = foo(z);
//   w + 1
// }
// desugared syntax
// |x, y| {
//   let z = x + y;   -- simple ops, no continuation desugaring
//   foo(z, |w| { w + 1 -> k; });
// }
pub struct Closure {
    // includes parameters and simple `let`-bindings
    pub locals: Vec<()>,
    pub code: Vec<Opcode>,
}

pub struct BoundClosure {
    /// The closure's bound effect handler.
    pub handler: Handler,
    pub closure: Closure,
}

// - Stores the effect handlers
// - Stores the CC (return)
// - Needs to store the finally
// Closure lifetimes ensure that nothing important is reachable outside of its home stack frame.
pub struct Handler {
    // Takes the next finally and continues with it
    pub finally: Box<Closure>,
    /// The return continuation, which processes the return value before the handler drops.
    pub cc: Box<Closure>,
    /// Handles declared effect operations.
    pub actions: Vec<Closure>,
}

} // verus!
