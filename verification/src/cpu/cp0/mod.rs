//! Coprocessor 0, the system control coprocessor.

pub mod config;
pub mod status;

use crate::cpu::cp0::config::ConfigRegister;
use crate::cpu::cp0::status::StatusRegister;
use vstd::prelude::*;

verus! {

/// The registers of coprocessor 0.
#[derive(Debug, Default, Clone)]
pub struct Cp0 {
    pub index: u64,
    /// Holds a random number between `wired` and 0x1F.
    pub random: u64,
    pub entry_lo0: u64,
    pub entry_lo1: u64,
    pub context: u64,
    pub page_mask: u64,
    /// The lower bound of the random number held in `random`.
    pub wired: u64,
    /// The address of the translation that failed last.
    pub bad_vaddr: u64,
    /// Incremented every other cycle and compared to `compare`.
    pub count: u64,
    pub entry_hi: u64,
    /// An interrupt fires when `count` reaches this value.
    pub compare: u64,
    pub status: StatusRegister,
    /// Details on the exception or interrupt that occurred.
    pub cause: u64,
    pub epc: u64,
    pub prid: u64,
    pub config: ConfigRegister,
    pub ll_addr: u64,
    pub watch_lo: u64,
    pub watch_hi: u64,
    pub xcontext: u64,
    pub parity_error: u64,
    pub cache_error: u64,
    pub tag_lo: u64,
    pub tag_hi: u64,
    pub error_epc: u64,
}

impl Cp0 {
    /// Whether coprocessor 0 has a register with the number `n`.
    pub open spec fn has_register(n: usize) -> bool {
        n <= 30 && n != 7 && !(21 <= n <= 25)
    }

    /// The value of register `n`.
    pub open spec fn register(&self, n: usize) -> u64 {
        if n == 0 {
            self.index
        } else if n == 1 {
            self.random
        } else if n == 2 {
            self.entry_lo0
        } else if n == 3 {
            self.entry_lo1
        } else if n == 4 {
            self.context
        } else if n == 5 {
            self.page_mask
        } else if n == 6 {
            self.wired
        } else if n == 8 {
            self.bad_vaddr
        } else if n == 9 {
            self.count
        } else if n == 10 {
            self.entry_hi
        } else if n == 11 {
            self.compare
        } else if n == 12 {
            self.status.bits as u64
        } else if n == 13 {
            self.cause
        } else if n == 14 {
            self.epc
        } else if n == 15 {
            self.prid
        } else if n == 16 {
            self.config.bits
        } else if n == 17 {
            self.ll_addr
        } else if n == 18 {
            self.watch_lo
        } else if n == 19 {
            self.watch_hi
        } else if n == 20 {
            self.xcontext
        } else if n == 26 {
            self.parity_error
        } else if n == 27 {
            self.cache_error
        } else if n == 28 {
            self.tag_lo
        } else if n == 29 {
            self.tag_hi
        } else if n == 30 {
            self.error_epc
        } else {
            0
        }
    }

    pub fn get_register(&self, n: usize) -> (v: u64)
        requires
            Cp0::has_register(n),
        ensures
            v == self.register(n),
    {
        match n {
            0 => self.index,
            1 => self.random,
            2 => self.entry_lo0,
            3 => self.entry_lo1,
            4 => self.context,
            5 => self.page_mask,
            6 => self.wired,
            8 => self.bad_vaddr,
            9 => self.count,
            10 => self.entry_hi,
            11 => self.compare,
            12 => self.status.bits as u64,
            13 => self.cause,
            14 => self.epc,
            15 => self.prid,
            16 => self.config.bits,
            17 => self.ll_addr,
            18 => self.watch_lo,
            19 => self.watch_hi,
            20 => self.xcontext,
            26 => self.parity_error,
            27 => self.cache_error,
            28 => self.tag_lo,
            29 => self.tag_hi,
            30 => self.error_epc,
            _ => 0,
        }
    }
}

} // verus!
