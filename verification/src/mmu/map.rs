//! The segments of the guest's virtual address space.

use vstd::prelude::*;

verus! {

/// A segment of the virtual address space.
///
/// | Address Range               | Name  | Description                                |
/// | --------------------------- | ----- | ------------------------------------------ |
/// | `0x0000_0000..=0x7FFF_FFFF` | KUSEG | User segment. TLB mapped                   |
/// | `0x8000_0000..=0x9FFF_FFFF` | KSEG0 | Kernel segment 0. Direct mapped, cached.   |
/// | `0xA000_0000..=0xBFFF_FFFF` | KSEG1 | Kernel segment 1. Direct mapped, no cache. |
/// | `0xC000_0000..=0xDFFF_FFFF` | KSSEG | Kernel supervisor segment. TLB mapped.     |
/// | `0xE000_0000..=0xFFFF_FFFF` | KSEG3 | Kernel segment 3. TLB mapped.              |
#[derive(Debug, Clone, Copy, PartialEq, Eq, Structural)]
pub enum VirtualMemoryMap {
    KUSEG,
    KSEG0,
    KSEG1,
    KSSEG,
    KSEG3,
}

pub const KSEG0_START: u64 = 0x8000_0000;

pub const KSEG1_START: u64 = 0xA000_0000;

pub const KSSEG_START: u64 = 0xC000_0000;

pub const KSEG3_START: u64 = 0xE000_0000;

pub const VIRTUAL_END: u64 = 0x1_0000_0000;

pub const RDRAM_START: usize = 0x0000_0000;

pub const RDRAM_END: usize = 0x0080_0000;

pub const SP_DMEM_START: usize = 0x0400_0000;

pub const SP_DMEM_END: usize = 0x0400_1000;

pub const PIF_RAM_START: usize = 0x1FC0_07C0;

pub const PIF_RAM_END: usize = 0x1FC0_0800;

pub const CART_D1A2_START: usize = 0x1000_0000;

pub const CART_D1A2_END: usize = 0x1FC0_0000;

/// The segment that a virtual address lies in, if it is a 32-bit address.
pub open spec fn segment_of(addr: u64) -> Option<VirtualMemoryMap> {
    if addr < KSEG0_START {
        Some(VirtualMemoryMap::KUSEG)
    } else if addr < KSEG1_START {
        Some(VirtualMemoryMap::KSEG0)
    } else if addr < KSSEG_START {
        Some(VirtualMemoryMap::KSEG1)
    } else if addr < KSEG3_START {
        Some(VirtualMemoryMap::KSSEG)
    } else if addr < VIRTUAL_END {
        Some(VirtualMemoryMap::KSEG3)
    } else {
        None
    }
}

/// The physical address behind a virtual address of a directly mapped
/// segment.
pub open spec fn physical(addr: u64) -> Option<u64> {
    match segment_of(addr) {
        Some(VirtualMemoryMap::KSEG0) => Some((addr - KSEG0_START) as u64),
        Some(VirtualMemoryMap::KSEG1) => Some((addr - KSEG1_START) as u64),
        _ => None,
    }
}

impl VirtualMemoryMap {
    /// The segment that `addr` lies in, if it is a 32-bit address.
    pub fn from_u64(addr: u64) -> (r: Option<VirtualMemoryMap>)
        ensures
            r == segment_of(addr),
    {
        if addr < KSEG0_START {
            Some(VirtualMemoryMap::KUSEG)
        } else if addr < KSEG1_START {
            Some(VirtualMemoryMap::KSEG0)
        } else if addr < KSSEG_START {
            Some(VirtualMemoryMap::KSEG1)
        } else if addr < KSEG3_START {
            Some(VirtualMemoryMap::KSSEG)
        } else if addr < VIRTUAL_END {
            Some(VirtualMemoryMap::KSEG3)
        } else {
            None
        }
    }

    /// The segment that `addr` lies in.
    pub fn from_u32(addr: u32) -> (r: VirtualMemoryMap)
        ensures
            segment_of(addr as u64) == Some(r),
    {
        match Self::from_u64(addr as u64) {
            Some(segment) => segment,
            None => VirtualMemoryMap::KSEG3,
        }
    }
}

/// Translates a virtual address of a directly mapped segment into the
/// physical address behind it.
pub fn translate_virtual(addr: u64) -> (r: Option<u64>)
    ensures
        r == physical(addr),
{
    match VirtualMemoryMap::from_u64(addr) {
        Some(VirtualMemoryMap::KSEG0) => Some(addr - KSEG0_START),
        Some(VirtualMemoryMap::KSEG1) => Some(addr - KSEG1_START),
        _ => None,
    }
}

} // verus!
