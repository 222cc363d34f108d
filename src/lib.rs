//! The value model and object protocol of a small expression engine.
//!
//! Host data becomes [`Value`]s; host types take part through the [`Object`]
//! trait; [`compile_expression`] turns source text into a
//! [`CompiledExpression`] that is evaluated against a [`Context`].
pub mod compiled;
pub mod context;
pub mod error;
pub mod expr;
pub mod lexer;
pub mod object;
pub mod parser;
pub mod state;
pub mod value;

pub use compiled::{compile_expression, CompiledExpression};
pub use context::Context;
pub use error::{Error, ErrorKind};
pub use object::Object;
pub use state::State;
pub use value::Value;
