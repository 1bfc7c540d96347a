//! The abstract syntax tree.

pub mod complete;
pub mod effect;
pub mod expr;
pub mod func;
pub mod generic;
pub mod handler;
pub mod ident;
pub mod item;
pub mod number;
pub mod shape;
pub mod statement;
pub mod types;

pub use expr::Conditional;
pub use expr::Expr;
pub use expr::Operator;
pub use func::Func;
pub use func::FuncHeader;
pub use generic::TypeParam;
pub use generic::TypedIdent;
pub use handler::EffectHandler;
pub use ident::Ident;
pub use ident::QualifiedIdent;
pub use item::Function;
pub use item::FunctionHeader;
pub use item::Item;
pub use number::Integer;
pub use statement::Statement;
pub use types::Effect;
pub use types::Type;
