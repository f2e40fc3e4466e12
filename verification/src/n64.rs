//! The state of the emulated console that host code and emitted code share.

use crate::cpu::Cpu;
use crate::jit::interruption::Interruption;
use crate::mmu::map::physical;
use crate::mmu::memory::MemoryManager;
use vstd::prelude::*;

verus! {

/// The guest: its memory, its processor, and the three slots through which
/// emitted code and the engine talk to each other.
pub struct State {
    pub mmu: MemoryManager,
    pub cpu: Cpu,
    /// The physical addresses that a store of the guest has written to since
    /// the engine last looked, first and last.
    pub cache_invalidation: Option<(usize, usize)>,
    /// Why the block that ran last handed control back.
    pub interruption: Interruption,
    /// The host address at which the suspended block goes on.
    pub resume_addr: u64,
}

impl State {
    pub fn new(mmu: MemoryManager, cpu: Cpu) -> (s: State)
        ensures
            s.mmu == mmu,
            s.cpu == cpu,
            s.cache_invalidation is None,
            s.interruption == Interruption::Empty,
            s.resume_addr == 0,
    {
        Self {
            mmu,
            cpu,
            cache_invalidation: None,
            interruption: Interruption::Empty,
            resume_addr: 0,
        }
    }

    /// The physical address behind the program counter.
    pub fn translate_cpu_pc(&self) -> (r: Option<u64>)
        ensures
            r == physical(self.cpu.pc),
    {
        self.cpu.translate_virtual(self.cpu.pc)
    }
}

} // verus!
