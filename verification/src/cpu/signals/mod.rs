//! The reset signals of the guest processor.

pub mod reset_signal;

use vstd::prelude::*;

verus! {

/// Clears the bits of `signal` in `signals`.
#[inline]
pub fn disable_signal(signals: u8, signal: u8) -> (r: u8)
    ensures
        r == signals & !signal,
{
    signals & !signal
}

} // verus!
