//! Front end of the Rib expression language: source text to syntax tree.
//!
//! Rib scripts call functions on workers. This crate holds the syntax tree,
//! the grammar as a mathematical function on characters, the parser that is
//! proved to compute that function, and the printer that the parser inverts.

pub mod auth;
pub mod chars;
pub mod span;
pub mod error;
pub mod tree;
pub mod text;
pub mod expr;
pub mod grammar;
pub mod parser;
pub mod printer;
pub mod laws;
pub mod roundtrip;

pub use crate::auth::{DefaultNamespace, EmptyAuthCtx};
pub use crate::error::{ParseFailure, RibParseError};
pub use crate::expr::{CallType, DynamicParsedFunctionName, Expr, GenericTypeParameter, TypeName};
pub use crate::parser::worker_function_invoke;
pub use crate::span::SourceSpan;
pub use crate::tree::VariableScope;
