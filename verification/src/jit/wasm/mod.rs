//! Pieces of the WebAssembly binary format.

pub mod leb128;
pub mod sections;
