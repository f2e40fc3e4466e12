//! Compiled blocks: the host code of one basic block of the guest.

use vstd::prelude::*;

verus! {

/// The host code of one basic block. Nothing in it changes once it is made.
#[derive(Debug)]
pub struct CompiledBlock {
    /// The emitted bytes.
    code: Vec<u8>,
    /// The host address at which the bytes can be run.
    ptr: usize,
    /// The guest address of the first instruction of the block.
    start_pc: u64,
    /// How many guest bytes the block covers.
    len: usize,
}

/// What a compiled block holds.
pub struct CompiledBlockView {
    pub code: Seq<u8>,
    pub ptr: usize,
    pub start_pc: u64,
    pub len: usize,
}

impl CompiledBlockView {
    /// Whether the host address `addr` lies inside the block's code.
    pub open spec fn holds(self, addr: usize) -> bool {
        self.ptr <= addr < self.ptr + self.code.len()
    }
}

impl View for CompiledBlock {
    type V = CompiledBlockView;

    closed spec fn view(&self) -> CompiledBlockView {
        CompiledBlockView {
            code: self.code@,
            ptr: self.ptr,
            start_pc: self.start_pc,
            len: self.len,
        }
    }
}

impl CompiledBlock {
    pub fn new(code: Vec<u8>, ptr: usize, start_pc: u64, len: usize) -> (block: Self)
        ensures
            block@ == (CompiledBlockView { code: code@, ptr, start_pc, len }),
    {
        Self { code, ptr, start_pc, len }
    }

    /// The host address of the block's entry.
    pub fn ptr(&self) -> (p: usize)
        ensures
            p == self@.ptr,
    {
        self.ptr
    }

    /// How many guest bytes the block covers.
    pub fn len(&self) -> (n: usize)
        ensures
            n == self@.len,
    {
        self.len
    }

    /// The guest address of the block's first instruction.
    pub fn start_pc(&self) -> (pc: u64)
        ensures
            pc == self@.start_pc,
    {
        self.start_pc
    }

    /// The emitted bytes.
    pub fn as_slice(&self) -> (s: &[u8])
        ensures
            s@ == self@.code,
    {
        self.code.as_slice()
    }

    /// Tells whether the host address `addr` lies inside the block's code.
    pub fn contains_host_address(&self, addr: usize) -> (b: bool)
        ensures
            b == self@.holds(addr),
    {
        addr >= self.ptr && addr - self.ptr < self.code.len()
    }
}

} // verus!
