//! Effect handlers.

use crate::ast::ident::QualifiedIdent;
use crate::ast::item::Function;
use crate::ast::statement::Statement;
use crate::ast::types::Effect;
use crate::ast::types::Type;
use vstd::prelude::*;

verus! {

// effect foo {
//   fn bar(a: A) -> B;
// }
// handler[A/e1] {
//   bar(a: A) { ..; resume(b); .. } -- type: (A, B -> R2/e) -> R2/e
//   (r: R) -> R2/e { .. }
//   finally { .. }
// }
// must be polymorphic over e if stored in a variable..
#[derive(Debug, PartialEq, Eq)]
pub struct EffectHandler {
    pub effect_name: QualifiedIdent,
    pub type_args: Vec<Type>,
    pub effect_args: Vec<Effect>,
    pub handlers: Vec<Function>,
    pub ret: Option<Function>,
    pub finally: Vec<Statement>,
}

} // verus!
