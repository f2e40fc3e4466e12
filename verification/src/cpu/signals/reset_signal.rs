//! The bits of the reset signal register.

use crate::cpu::signals::disable_signal;
use vstd::prelude::*;

verus! {

pub const NONE: u8 = 0;

pub const POWER_ON_RESET: u8 = 0b0_0001;

pub const COLD_RESET: u8 = 0b0_0010;

pub const RESET: u8 = 0b0_0100;

pub const COLD_RESET_ACTIVE: u8 = 0b0_1000;

pub const RESET_ACTIVE: u8 = 0b1_0000;

/// Clears the bit that says a cold reset is under way.
#[inline]
pub fn disable_cold_reset(signals: u8) -> (r: u8)
    ensures
        r == signals & !COLD_RESET_ACTIVE,
{
    disable_signal(signals, COLD_RESET_ACTIVE)
}

/// Clears the bit that says a soft reset is under way.
#[inline]
pub fn disable_soft_reset(signals: u8) -> (r: u8)
    ensures
        r == signals & !RESET_ACTIVE,
{
    disable_signal(signals, RESET_ACTIVE)
}

} // verus!
