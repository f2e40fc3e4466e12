//! A dynamic binary translator for a MIPS III-class guest on an x86-64 host:
//! the instruction encoder with its written instruction language, the
//! register allocator, the per-block translator, the translation cache and
//! the jump table, together with the guest-side models they read and an
//! arena for values that live in one block of memory.

pub mod arena;
pub mod codegen;
pub mod cpu;
pub mod endian;
pub mod hardware;
pub mod jit;
pub mod mmu;
pub mod n64;
pub mod utils;
