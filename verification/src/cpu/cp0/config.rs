//! The configuration register of coprocessor 0.

use crate::cpu::bits::{bit_lsb0, field_lsb0, load_lsb0};
use vstd::prelude::*;

verus! {

/// The configuration register: cache coherency of kernel segment 0, byte
/// order, write-back pattern and the system clock ratio.
#[derive(Debug, Default, Clone)]
pub struct ConfigRegister {
    pub bits: u64,
}

pub const BIT_K0_FIRST: usize = 0;

pub const BIT_K0_LAST: usize = 2;

pub const BIT_CU_OFFSET: usize = 3;

pub const BIT_BE_OFFSET: usize = 15;

pub const BIT_EP_FIRST: usize = 24;

pub const BIT_EP_LAST: usize = 27;

pub const BIT_EC_FIRST: usize = 28;

pub const BIT_EC_LAST: usize = 30;

/// The system clock ratio as halves of the ratio to one: `1:1` is 2, `1.5:1`
/// is 3, `2:1` is 4 and `3:1` is 6.
pub open spec fn clock_ratio_halves(ec: u64) -> Option<u8> {
    if ec == 0b110 {
        Some(2u8)
    } else if ec == 0b111 {
        Some(3u8)
    } else if ec == 0b000 {
        Some(4u8)
    } else if ec == 0b001 {
        Some(6u8)
    } else {
        None
    }
}

impl ConfigRegister {
    /// The clock ratio that the `EC` bits select, in halves, if they select
    /// one.
    pub fn get_clock_ratio_halves(&self) -> (r: Option<u8>)
        ensures
            r == clock_ratio_halves(field_lsb0(self.bits, BIT_EC_FIRST, BIT_EC_LAST)),
    {
        let ec = self.get_bits(BIT_EC_FIRST, BIT_EC_LAST);
        if ec == 0b110 {
            Some(2)
        } else if ec == 0b111 {
            Some(3)
        } else if ec == 0b000 {
            Some(4)
        } else if ec == 0b001 {
            Some(6)
        } else {
            None
        }
    }

    /// The bit at `bit`, counted from the least significant.
    #[inline]
    pub fn get_bit(&self, bit: usize) -> (b: bool)
        requires
            bit < 64,
        ensures
            b == ((self.bits >> (bit as u64)) & 1 == 1),
    {
        bit_lsb0(self.bits, bit)
    }

    /// The bits `first..=last`, counted from the least significant, as a
    /// number.
    #[inline]
    pub fn get_bits(&self, first: usize, last: usize) -> (v: u64)
        requires
            first <= last < 64,
        ensures
            v == field_lsb0(self.bits, first, last),
    {
        load_lsb0(self.bits, first, last)
    }
}

} // verus!
