//! The hardware around the guest processor.

pub mod cartridge;
