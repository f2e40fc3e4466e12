//! Emission of host instructions straight into a byte buffer.

pub mod callable;
pub mod emitter;
pub mod register;
