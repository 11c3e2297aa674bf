//! A compile-time translator for a small method-description language.
//!
//! The language describes methods that a host object exposes to an
//! embedded scripting runtime.  The library parses a token sequence into
//! a block of method descriptions, lets template closures be rebound to
//! new type bindings, and generates the registration calls that bind
//! each method into the runtime's object model.

pub mod ast;
pub mod codegen;
pub mod emit;
pub mod error;
pub mod laws;
pub mod parse;
pub mod rebind;
pub mod token;
