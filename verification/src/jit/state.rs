//! Where the translator finds the guest's state and the host's helpers:
//! plain addresses and offsets, fixed when a block is compiled.

use crate::jit::register::GuestRegister;
use vstd::prelude::*;

verus! {

/// The place of the guest's state in host memory: the address of the state
/// and, relative to it, the places of the fields that emitted code touches.
#[derive(Debug, Clone, Copy)]
pub struct JitState {
    state_ptr: u64,
    gpr_offset: i32,
    pc_offset: i32,
    interruption_addr: u64,
    resume_addr: u64,
}

/// The largest offset that a field of the state may have.
pub const MAX_OFFSET: usize = 0x7fff_fe00;

/// The addresses of the host functions that emitted code calls.
#[derive(Debug, Clone, Copy)]
pub struct Bridge {
    pub mmu_read_byte: u64,
    pub mmu_read_word: u64,
    pub mmu_read_dword: u64,
    pub mmu_store_dword: u64,
    pub get_host_jump_addr: u64,
    pub get_rip_value: u64,
}

/// Whether the guest register exists: a general purpose register below 32,
/// or the program counter.
pub open spec fn guest_exists(guest: GuestRegister) -> bool {
    match guest {
        GuestRegister::Cpu(i) => i < 32,
        GuestRegister::Pc => true,
    }
}

impl JitState {
    /// Every displacement that emitted code uses fits in 32 signed bits.
    #[verifier::type_invariant]
    pub closed spec fn inv(self) -> bool {
        &&& 0 <= self.gpr_offset <= MAX_OFFSET
        &&& 0 <= self.pc_offset <= MAX_OFFSET
    }

    /// The address of the state.
    pub closed spec fn address(self) -> u64 {
        self.state_ptr
    }

    /// The offset of the first general purpose register.
    pub closed spec fn gpr(self) -> i32 {
        self.gpr_offset
    }

    /// The offset of the program counter.
    pub closed spec fn pc(self) -> i32 {
        self.pc_offset
    }

    /// The address of the interruption slot.
    pub closed spec fn interruption(self) -> u64 {
        self.interruption_addr
    }

    /// The address of the resume address.
    pub closed spec fn resume(self) -> u64 {
        self.resume_addr
    }

    /// The offset of a guest register that exists.
    pub open spec fn offset(self, guest: GuestRegister) -> i32 {
        match guest {
            GuestRegister::Cpu(i) => (self.gpr() + 8 * i) as i32,
            GuestRegister::Pc => self.pc(),
        }
    }

    /// The place of a state at `state_ptr` whose general purpose registers
    /// start at `gpr_offset`, whose program counter is at `pc_offset`, whose
    /// interruption slot is at `interruption_offset` and whose resume
    /// address is at `resume_offset`. There is none where an offset does not
    /// fit in a 32-bit displacement or an address does not fit in 64 bits.
    pub fn new(
        state_ptr: u64,
        gpr_offset: usize,
        pc_offset: usize,
        interruption_offset: usize,
        resume_offset: usize,
    ) -> (r: Option<JitState>)
        ensures
            r is Some <==> gpr_offset <= MAX_OFFSET && pc_offset <= MAX_OFFSET && state_ptr
                + interruption_offset <= u64::MAX && state_ptr + resume_offset <= u64::MAX,
            r matches Some(s) ==> {
                &&& s.address() == state_ptr
                &&& s.gpr() == gpr_offset
                &&& s.pc() == pc_offset
                &&& s.interruption() == state_ptr + interruption_offset
                &&& s.resume() == state_ptr + resume_offset
            },
    {
        if gpr_offset > MAX_OFFSET || pc_offset > MAX_OFFSET {
            return None;
        }
        if interruption_offset as u64 > u64::MAX - state_ptr || resume_offset as u64 > u64::MAX
            - state_ptr {
            return None;
        }
        Some(
            JitState {
                state_ptr,
                gpr_offset: gpr_offset as i32,
                pc_offset: pc_offset as i32,
                interruption_addr: state_ptr + interruption_offset as u64,
                resume_addr: state_ptr + resume_offset as u64,
            },
        )
    }

    /// The offset of `guest` inside the state.
    pub fn offset_of(&self, guest: GuestRegister) -> (r: i32)
        requires
            guest_exists(guest),
        ensures
            r == self.offset(guest),
            0 <= r,
    {
        proof {
            use_type_invariant(self);
        }
        match guest {
            GuestRegister::Cpu(i) => self.gpr_offset + 8 * (i as i32),
            GuestRegister::Pc => self.pc_offset,
        }
    }

    pub fn state_ptr(&self) -> (p: u64)
        ensures
            p == self.address(),
    {
        self.state_ptr
    }

    pub fn interruption_addr(&self) -> (p: u64)
        ensures
            p == self.interruption(),
    {
        self.interruption_addr
    }

    pub fn resume_addr(&self) -> (p: u64)
        ensures
            p == self.resume(),
    {
        self.resume_addr
    }
}

} // verus!
