//! What the host functions that emitted code calls do with the guest's
//! state.

use crate::endian::{be16_value, be32, be32_value};
use crate::jit::jump_table::{queried, JumpTable};
use crate::jit::tables::JumpEntry;
use crate::mmu::map::physical;
use crate::mmu::memory::{loaded, stored};
use crate::n64::State;
use vstd::prelude::*;

verus! {

/// The bytes at a virtual address, where the address is mapped and one unit
/// of memory holds them.
pub open spec fn guest_bytes(state: State, virt_addr: u64, width: nat) -> Option<Seq<u8>> {
    match physical(virt_addr) {
        Some(phys) => loaded(state.mmu.view(), phys as usize, width),
        None => None,
    }
}

/// Reads the byte of guest memory at `virt_addr`, or zero where there is
/// none.
pub fn mmu_read_byte(state: &State, virt_addr: u64) -> (v: u8)
    requires
        state.mmu.wf(),
    ensures
        v == match guest_bytes(*state, virt_addr, 1) {
            Some(b) => b[0],
            None => 0u8,
        },
{
    match state.cpu.translate_virtual(virt_addr) {
        Some(phys_addr) => state.mmu.read_u8(phys_addr as usize),
        None => 0,
    }
}

/// Reads the big-endian half word of guest memory at `virt_addr`, or zero
/// where there is none.
pub fn mmu_read_word(state: &State, virt_addr: u64) -> (v: u16)
    requires
        state.mmu.wf(),
    ensures
        v == match guest_bytes(*state, virt_addr, 2) {
            Some(b) => be16_value(b),
            None => 0u16,
        },
{
    match state.cpu.translate_virtual(virt_addr) {
        Some(phys_addr) => state.mmu.read_u16(phys_addr as usize),
        None => 0,
    }
}

/// Reads the big-endian word of guest memory at `virt_addr`, or zero where
/// there is none.
pub fn mmu_read_dword(state: &State, virt_addr: u64) -> (v: u32)
    requires
        state.mmu.wf(),
    ensures
        v == match guest_bytes(*state, virt_addr, 4) {
            Some(b) => be32_value(b),
            None => 0u32,
        },
{
    match state.cpu.translate_virtual(virt_addr) {
        Some(phys_addr) => state.mmu.read_u32(phys_addr as usize),
        None => 0,
    }
}

/// Stores the big-endian word `value` into guest memory at `virt_addr` and
/// notes the four bytes written for the cache. A store to an address that
/// is not mapped is dropped.
pub fn mmu_store_dword(state: &mut State, virt_addr: u64, value: u32)
    requires
        old(state).mmu.wf(),
    ensures
        final(state).mmu.wf(),
        final(state).cpu == old(state).cpu,
        final(state).interruption == old(state).interruption,
        final(state).resume_addr == old(state).resume_addr,
        match physical(virt_addr) {
            Some(phys) => {
                &&& final(state).cache_invalidation == Some((phys as usize, (phys + 4) as usize))
                &&& stored(
                    old(state).mmu.view(),
                    final(state).mmu.view(),
                    phys as usize,
                    be32(value),
                )
            },
            None => {
                &&& final(state).cache_invalidation == old(state).cache_invalidation
                &&& final(state).mmu.view() == old(state).mmu.view()
            },
        },
{
    match state.cpu.translate_virtual(virt_addr) {
        Some(phys_addr) => {
            let phys_addr = phys_addr as usize;
            state.cache_invalidation = Some((phys_addr, phys_addr + 4));
            state.mmu.store_u32(phys_addr, value);
        },
        None => {},
    }
}

/// Looks the jump to the guest address `n64_addr` up in the jump table. A
/// target that the table has not seen is entered as unresolved. A target
/// that is not mapped is not looked up.
pub fn get_host_jump_addr(state: &State, jump_table: &mut JumpTable, n64_addr: u64) -> (r: Option<
    JumpEntry,
>)
    ensures
        match physical(n64_addr) {
            Some(phys) => {
                &&& final(jump_table)@ == queried(old(jump_table)@, phys)
                &&& r == final(jump_table)@[phys]
            },
            None => final(jump_table)@ == old(jump_table)@ && r is None,
        },
{
    match state.cpu.translate_virtual(n64_addr) {
        Some(phys_addr) => jump_table.get(phys_addr),
        None => None,
    }
}

} // verus!
