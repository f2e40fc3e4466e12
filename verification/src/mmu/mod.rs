//! The guest's memory: the map of its address space and the units behind it.

pub mod map;
pub mod memory;
