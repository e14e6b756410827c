//! A typed integer IR for binary translators: a basic-block builder, labelled
//! translation units, a register overlay on host state, a pluggable backend
//! contract with weakly cached compilation, and a reference interpreter.
pub mod backend;
pub mod block;
mod cache;
pub mod context;
pub mod interpret;
pub mod ops;
pub mod reg;
pub mod types;
pub mod unit;

pub use types::{IntImmed, LValue};
