//! The status register of coprocessor 0.

use crate::cpu::bits::{bit_lsb0, field_lsb0, load_lsb0};
use vstd::prelude::*;

verus! {

/// The status register: interrupt enable, exception and error level,
/// execution mode, addressing widths, interrupt mask, diagnostic status and
/// the coprocessor enable bits.
#[derive(Debug, Default, Clone)]
pub struct StatusRegister {
    pub bits: u32,
}

pub const BIT_IE_OFFSET: usize = 0;

pub const BIT_EXL_OFFSET: usize = 1;

pub const BIT_ERL_OFFSET: usize = 2;

pub const BIT_KSU_FIRST: usize = 3;

pub const BIT_KSU_LAST: usize = 4;

pub const BIT_UX_OFFSET: usize = 5;

pub const BIT_SX_OFFSET: usize = 6;

pub const BIT_KX_OFFSET: usize = 7;

pub const BIT_IM_FIRST: usize = 8;

pub const BIT_IM_LAST: usize = 15;

pub const BIT_DS_FIRST: usize = 16;

pub const BIT_DS_LAST: usize = 24;

pub const BIT_DE_OFFSET: usize = 16;

pub const BIT_CE_OFFSET: usize = 17;

pub const BIT_CH_OFFSET: usize = 18;

pub const BIT_ZERO_OFFSET: usize = 19;

pub const BIT_SR_OFFSET: usize = 20;

pub const BIT_TS_OFFSET: usize = 21;

pub const BIT_BEV_OFFSET: usize = 22;

pub const BIT_RSVD_OFFSET: usize = 23;

pub const BIT_ITS_OFFSET: usize = 24;

pub const BIT_RE_OFFSET: usize = 25;

pub const BIT_FR_OFFSET: usize = 26;

pub const BIT_RP_OFFSET: usize = 27;

pub const BIT_CU_FIRST: usize = 28;

pub const BIT_CU_LAST: usize = 31;

pub const BIT_CU0_OFFSET: usize = 28;

pub const BIT_CU1_OFFSET: usize = 29;

pub const BIT_CU2_OFFSET: usize = 30;

pub const BIT_CU3_OFFSET: usize = 31;

/// The mode the processor runs in.
#[derive(Debug, Clone, Copy, PartialEq, Eq, Structural)]
pub enum OperationMode {
    Kernel,
    Supervisor,
    User,
}

impl Default for OperationMode {
    fn default() -> (m: Self)
        ensures
            m == OperationMode::Kernel,
    {
        Self::Kernel
    }
}

impl OperationMode {
    /// The two bits of the status register that stand for the mode.
    pub open spec fn bits(self) -> u8 {
        match self {
            OperationMode::Kernel => 0,
            OperationMode::Supervisor => 1,
            OperationMode::User => 2,
        }
    }

    /// The mode that the two bits `ksu` stand for.
    pub open spec fn of_bits(ksu: u8) -> Option<OperationMode> {
        if ksu == 0 {
            Some(OperationMode::Kernel)
        } else if ksu == 1 {
            Some(OperationMode::Supervisor)
        } else if ksu == 2 {
            Some(OperationMode::User)
        } else {
            None
        }
    }

    pub fn into_u8(self) -> (n: u8)
        ensures
            n == self.bits(),
    {
        match self {
            OperationMode::Kernel => 0,
            OperationMode::Supervisor => 1,
            OperationMode::User => 2,
        }
    }
}

/// Where the TLB refill and general exception vectors are.
#[derive(Debug, Clone, Copy, PartialEq, Eq, Structural)]
pub enum TlbVecLocation {
    Normal,
    Bootstrap,
}

impl StatusRegister {
    /// A status register with coprocessor 0 enabled and every other bit
    /// clear.
    pub fn new() -> (s: StatusRegister)
        ensures
            s.bits == 0x1000_0000,
    {
        let bits: u32 = 0x1000_0000;
        Self { bits }
    }

    /// The execution mode, if the mode bits stand for one.
    pub fn get_execution_mode(&self) -> (m: Option<OperationMode>)
        ensures
            m == OperationMode::of_bits(
                field_lsb0(self.bits as u64, BIT_KSU_FIRST, BIT_KSU_LAST) as u8,
            ),
    {
        let ksu = self.get_execution_mode_raw();
        if ksu == 0 {
            Some(OperationMode::Kernel)
        } else if ksu == 1 {
            Some(OperationMode::Supervisor)
        } else if ksu == 2 {
            Some(OperationMode::User)
        } else {
            None
        }
    }

    /// The two mode bits as a number.
    #[inline]
    pub fn get_execution_mode_raw(&self) -> (ksu: u8)
        ensures
            ksu == field_lsb0(self.bits as u64, BIT_KSU_FIRST, BIT_KSU_LAST) as u8,
    {
        self.get_bits(BIT_KSU_FIRST, BIT_KSU_LAST) as u8
    }

    /// The bit at `bit`, counted from the least significant.
    #[inline]
    pub fn get_bit(&self, bit: usize) -> (b: bool)
        requires
            bit < 32,
        ensures
            b == (((self.bits as u64) >> (bit as u64)) & 1 == 1),
    {
        bit_lsb0(self.bits as u64, bit)
    }

    /// The bits `first..=last`, counted from the least significant, as a
    /// number.
    #[inline]
    pub fn get_bits(&self, first: usize, last: usize) -> (v: u64)
        requires
            first <= last < 32,
        ensures
            v == field_lsb0(self.bits as u64, first, last),
    {
        load_lsb0(self.bits as u64, first, last)
    }
}

} // verus!
