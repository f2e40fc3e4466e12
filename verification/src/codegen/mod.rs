//! A small macro-assembler for a subset of x86-64.

pub mod assembler;
pub mod call;
pub mod emitter;
pub mod encoding;
pub mod parser;
pub mod register;
pub mod syntax;
pub mod words;
