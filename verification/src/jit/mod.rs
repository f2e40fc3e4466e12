//! The translator from guest blocks to host code, and what it keeps between
//! blocks.

pub mod assembler;
pub mod bridge;
pub mod cache;
pub mod code;
pub mod codegen;
pub mod compiler;
pub mod engine;
pub mod interruption;
pub mod jump_table;
pub mod register;
pub mod state;
pub mod tables;
pub mod wasm;
