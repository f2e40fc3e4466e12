//! The guest processor, as far as the translator reads it.

pub mod bits;
pub mod cp0;
pub mod instruction;
pub mod signals;

use crate::cpu::bits::{
    set_msb0_32, set_msb0_64, store_msb0_64, with_bit_msb0_32, with_bit_msb0_64,
    with_field_msb0_64,
};
use crate::cpu::cp0::config::{ConfigRegister, BIT_BE_OFFSET, BIT_EP_FIRST, BIT_EP_LAST};
use crate::cpu::cp0::status::{
    StatusRegister, BIT_BEV_OFFSET, BIT_ERL_OFFSET, BIT_RP_OFFSET, BIT_SR_OFFSET, BIT_TS_OFFSET,
};
use crate::cpu::cp0::Cp0;
use crate::cpu::instruction::{decoding, DecodeError, Instruction};
use crate::cpu::signals::disable_signal;
use crate::cpu::signals::reset_signal::{
    disable_cold_reset, disable_soft_reset, COLD_RESET, COLD_RESET_ACTIVE, NONE, POWER_ON_RESET,
    RESET, RESET_ACTIVE,
};
use crate::endian::be32_value;
use crate::mmu::map::{physical, translate_virtual};
use crate::mmu::memory::{loaded, stored, MemoryManager};
use vstd::prelude::*;

verus! {

/// The frequency of the processor, in Hz.
pub const CPU_FREQUENCY: u32 = 93_750_000;

/// The guest processor: 32 general purpose registers, 32 floating-point
/// registers, the program counter, the multiply and divide registers, the
/// load-link bit, the floating-point control registers and coprocessor 0.
///
/// Register 0 always reads as zero; register 31 is the link register of the
/// jump-and-link instructions.
#[derive(Debug, Clone)]
pub struct Cpu {
    /// General purpose registers.
    pub gpr: [u64; 32],
    /// Floating-point general purpose registers.
    pub fgr: [u64; 32],
    /// Program counter. Always a virtual address.
    pub pc: u64,
    /// High-order result of a multiplication or division.
    pub multi_hi: u64,
    /// Low-order result of a multiplication or division.
    pub multi_lo: u64,
    /// Load-link bit.
    pub ll: u8,
    /// Floating-point implementation and revision register.
    pub fcr0: u32,
    /// Floating-point control and status register.
    pub fcr32: u32,
    /// Coprocessor 0.
    pub cp0: Cp0,
    pub reset_signal: u8,
    pub cold_reset_clocks: u64,
    pub soft_reset_clocks: u64,
    /// The clocks that have passed.
    pub clocks: u64,
}

/// Why an instruction could not be fetched.
#[derive(Debug, Clone, Copy, PartialEq, Eq, Structural)]
pub enum FetchError {
    /// The address lies in a segment that is not directly mapped.
    Unmapped(u64),
    /// The word at the address stands for no instruction.
    Decode(DecodeError),
}

/// Why a reset signal was not handled.
#[derive(Debug, Clone, Copy, PartialEq, Eq, Structural)]
pub enum ResetError {
    /// A soft reset is asked for.
    SoftReset,
    /// More than one signal is raised, or none that exists.
    InvalidSignal,
}

/// The status register after a cold reset: `TS`, `SR` and `RP` cleared,
/// `ERL` and `BEV` set.
pub open spec fn cold_reset_status(bits: u32) -> u32 {
    with_bit_msb0_32(
        with_bit_msb0_32(
            with_bit_msb0_32(
                with_bit_msb0_32(
                    with_bit_msb0_32(bits, BIT_TS_OFFSET, false),
                    BIT_SR_OFFSET,
                    false,
                ),
                BIT_RP_OFFSET,
                false,
            ),
            BIT_ERL_OFFSET,
            true,
        ),
        BIT_BEV_OFFSET,
        true,
    )
}

/// The configuration register after a cold reset: `EP` cleared, `BE` set.
pub open spec fn cold_reset_config(bits: u64) -> u64 {
    with_bit_msb0_64(
        with_field_msb0_64(bits, BIT_EP_FIRST, BIT_EP_LAST, 0),
        BIT_BE_OFFSET,
        true,
    )
}

/// The processor after a cold reset.
pub open spec fn cold_reset(cpu: Cpu) -> Cpu {
    Cpu {
        cp0: Cp0 {
            status: StatusRegister { bits: cold_reset_status(cpu.cp0.status.bits) },
            config: ConfigRegister { bits: cold_reset_config(cpu.cp0.config.bits) },
            random: 0x1f,
            ..cpu.cp0
        },
        reset_signal: (cpu.reset_signal & !(COLD_RESET | POWER_ON_RESET)) | COLD_RESET_ACTIVE,
        cold_reset_clocks: 64000,
        clocks: 0,
        ..cpu
    }
}

/// The clocks left of a reset after `clocks` more have passed.
pub open spec fn clocks_left(remaining: u64, clocks: u64) -> u64 {
    if remaining >= clocks {
        (remaining - clocks) as u64
    } else {
        0
    }
}

/// The processor after `clocks` clocks of its reset signals: an active cold
/// reset counts down first and ends when its clocks are used up, after which
/// an active soft reset lasts 16 clocks more; an active soft reset alone
/// counts down and ends likewise.
pub open spec fn reset_signal_updated(cpu: Cpu, clocks: u64) -> Cpu {
    let cold = cpu.reset_signal & COLD_RESET_ACTIVE != 0;
    let soft = cpu.reset_signal & RESET_ACTIVE != 0;
    if cold {
        let rem = clocks_left(cpu.cold_reset_clocks, clocks);
        if soft {
            Cpu {
                cold_reset_clocks: rem,
                soft_reset_clocks: if rem == 0 {
                    16
                } else {
                    cpu.soft_reset_clocks
                },
                ..cpu
            }
        } else {
            Cpu {
                cold_reset_clocks: rem,
                reset_signal: if rem == 0 {
                    cpu.reset_signal & !COLD_RESET_ACTIVE
                } else {
                    cpu.reset_signal
                },
                ..cpu
            }
        }
    } else if soft {
        let rem = clocks_left(cpu.soft_reset_clocks, clocks);
        Cpu {
            soft_reset_clocks: rem,
            reset_signal: if rem == 0 {
                cpu.reset_signal & !RESET_ACTIVE
            } else {
                cpu.reset_signal
            },
            ..cpu
        }
    } else {
        cpu
    }
}

/// The general purpose registers as the boot program leaves them.
pub open spec fn boot_gpr(i: int) -> u64 {
    if i == 11 {
        0xffff_ffff_a400_0040
    } else if i == 20 {
        0x0000_0000_0000_0001
    } else if i == 22 {
        0x0000_0000_0000_003f
    } else if i == 29 {
        0xffff_ffff_a400_1ff0
    } else {
        0
    }
}

impl Cpu {
    /// A processor with every register zero.
    pub fn zeroed() -> (cpu: Cpu)
        ensures
            cpu.pc == 0,
            cpu.reset_signal == 0,
            cpu.cp0.status.bits == 0,
            cpu.cp0.config.bits == 0,
            forall|i: int| 0 <= i < 32 ==> cpu.gpr[i] == 0,
    {
        Cpu {
            gpr: [0u64; 32],
            fgr: [0u64; 32],
            pc: 0,
            multi_hi: 0,
            multi_lo: 0,
            ll: 0,
            fcr0: 0,
            fcr32: 0,
            cp0: Cp0 {
                index: 0,
                random: 0,
                entry_lo0: 0,
                entry_lo1: 0,
                context: 0,
                page_mask: 0,
                wired: 0,
                bad_vaddr: 0,
                count: 0,
                entry_hi: 0,
                compare: 0,
                status: StatusRegister { bits: 0 },
                cause: 0,
                epc: 0,
                prid: 0,
                config: ConfigRegister { bits: 0 },
                ll_addr: 0,
                watch_lo: 0,
                watch_hi: 0,
                xcontext: 0,
                parity_error: 0,
                cache_error: 0,
                tag_lo: 0,
                tag_hi: 0,
                error_epc: 0,
            },
            reset_signal: 0,
            cold_reset_clocks: 0,
            soft_reset_clocks: 0,
            clocks: 0,
        }
    }

    /// A processor that was just powered on and, if `simulate_pif` says so,
    /// has been through the boot program.
    pub fn new(simulate_pif: bool, mmu: &mut MemoryManager) -> (cpu: Cpu)
        requires
            old(mmu).wf(),
        ensures
            final(mmu).wf(),
            !simulate_pif ==> final(mmu).view() == old(mmu).view() && cpu.pc == 0xBFC0_0000,
            simulate_pif ==> cpu.pc == 0xa400_0040 && cpu.reset_signal == NONE && (forall|i: int|
                0 <= i < 32 ==> cpu.gpr[i] == boot_gpr(i)),
    {
        let mut cpu = Self::zeroed().power_on();
        if simulate_pif {
            cpu.simulate_pif(mmu);
        }
        cpu
    }

    /// Fetches the instruction at the virtual address `addr`.
    pub fn fetch_instruction(&self, mmu: &MemoryManager, addr: u64) -> (r: Result<
        Instruction,
        FetchError,
    >)
        requires
            mmu.wf(),
        ensures
            r == match physical(addr) {
                None => Err::<Instruction, FetchError>(FetchError::Unmapped(addr)),
                Some(phys) => match decoding(
                    match loaded(mmu.view(), phys as usize, 4) {
                        Some(b) => be32_value(b),
                        None => 0u32,
                    },
                ) {
                    Ok(instruction) => Ok(instruction),
                    Err(e) => Err(FetchError::Decode(e)),
                },
            },
    {
        match self.translate_virtual(addr) {
            None => Err(FetchError::Unmapped(addr)),
            Some(phys_pc) => match Instruction::decode(mmu.read_u32(phys_pc as usize)) {
                Ok(instruction) => Ok(instruction),
                Err(e) => Err(FetchError::Decode(e)),
            },
        }
    }

    /// Translates a virtual address of a directly mapped segment into a
    /// physical address.
    pub fn translate_virtual(&self, addr: u64) -> (r: Option<u64>)
        ensures
            r == physical(addr),
            r matches Some(p) ==> p < 0x2000_0000,
    {
        translate_virtual(addr)
    }

    /// Goes through the power-on reset and starts at the reset vector.
    pub fn power_on(self) -> (cpu: Cpu)
        ensures
            cpu == (Cpu {
                pc: 0xBFC0_0000,
                ..cold_reset(Cpu { reset_signal: POWER_ON_RESET, ..self })
            }),
    {
        let mut cpu = self;
        cpu.reset_signal = POWER_ON_RESET;
        let handled = cpu.handle_reset_signal();
        cpu.pc = 0xBFC0_0000;
        cpu
    }

    /// Leaves the processor and the memory as the boot program does: the
    /// registers hold their boot values, the first 0x1000 bytes of the
    /// cartridge stand in the data memory of the signal processor, and
    /// execution starts behind the cartridge header.
    pub fn simulate_pif(&mut self, mmu: &mut MemoryManager)
        requires
            old(mmu).wf(),
        ensures
            final(mmu).wf(),
            final(self).pc == 0xa400_0040,
            final(self).reset_signal == NONE,
            forall|i: int| 0 <= i < 32 ==> final(self).gpr[i] == boot_gpr(i),
            final(self).cp0.random == 0x1f,
            final(self).cp0.status.bits == 0x7040_0004,
            final(self).cp0.prid == 0x0000_0B00,
            final(self).cp0.config.bits == 0x0006_e463,
            match loaded(old(mmu).view(), 0x1000_0000, 0x1000) {
                Some(data) => stored(old(mmu).view(), final(mmu).view(), 0x0400_0000, data),
                None => final(mmu).view() == old(mmu).view(),
            },
    {
        let mut gpr = [0u64; 32];
        gpr[11] = 0xffff_ffff_a400_0040;
        gpr[20] = 0x0000_0000_0000_0001;
        gpr[22] = 0x0000_0000_0000_003f;
        gpr[29] = 0xffff_ffff_a400_1ff0;
        self.gpr = gpr;
        self.cp0.random = 0x1f;
        self.cp0.status = StatusRegister { bits: 0x7040_0004 };
        self.cp0.prid = 0x0000_0B00;
        self.cp0.config = ConfigRegister { bits: 0x0006_e463 };
        let copied = mmu.copy_from(0x0400_0000, 0x1000_0000, 0x1000);
        self.pc = 0xa400_0040;
        self.reset_signal = NONE;
    }

    /// Acts on the reset signal that is raised.
    pub fn handle_reset_signal(&mut self) -> (r: Result<(), ResetError>)
        ensures
            old(self).reset_signal == POWER_ON_RESET || old(self).reset_signal == COLD_RESET ==> r
                is Ok && *final(self) == cold_reset(*old(self)),
            old(self).reset_signal == COLD_RESET_ACTIVE || old(self).reset_signal == RESET_ACTIVE
                || old(self).reset_signal == NONE ==> r is Ok && *final(self) == *old(self),
            old(self).reset_signal == RESET ==> r == Err::<(), ResetError>(ResetError::SoftReset)
                && *final(self) == *old(self),
            r == Err::<(), ResetError>(ResetError::InvalidSignal) ==> *final(self) == *old(self),
            r is Ok <==> old(self).reset_signal == POWER_ON_RESET || old(self).reset_signal
                == COLD_RESET || old(self).reset_signal == COLD_RESET_ACTIVE || old(
                self,
            ).reset_signal == RESET_ACTIVE || old(self).reset_signal == NONE,
    {
        let signal = self.reset_signal;
        if signal == POWER_ON_RESET {
            self.perform_power_on_reset();
            Ok(())
        } else if signal == COLD_RESET {
            self.perform_cold_reset();
            Ok(())
        } else if signal == RESET {
            Err(ResetError::SoftReset)
        } else if signal == COLD_RESET_ACTIVE || signal == RESET_ACTIVE || signal == NONE {
            Ok(())
        } else {
            Err(ResetError::InvalidSignal)
        }
    }

    /// The reset after power was applied: what a cold reset does.
    pub fn perform_power_on_reset(&mut self)
        ensures
            *final(self) == cold_reset(*old(self)),
    {
        self.perform_cold_reset();
    }

    /// The cold reset: the clocks start over and the state of the processor
    /// is set up anew. `TS`, `SR` and `RP` of the status register are
    /// cleared, `ERL` and `BEV` are set; `EP` of the configuration register
    /// is cleared and `BE` is set; the random register holds its upper
    /// limit.
    pub fn perform_cold_reset(&mut self)
        ensures
            *final(self) == cold_reset(*old(self)),
    {
        let mut status = self.cp0.status.bits;
        status = set_msb0_32(status, BIT_TS_OFFSET, false);
        status = set_msb0_32(status, BIT_SR_OFFSET, false);
        status = set_msb0_32(status, BIT_RP_OFFSET, false);
        status = set_msb0_32(status, BIT_ERL_OFFSET, true);
        status = set_msb0_32(status, BIT_BEV_OFFSET, true);
        self.cp0.status.bits = status;
        let mut config = self.cp0.config.bits;
        config = store_msb0_64(config, BIT_EP_FIRST, BIT_EP_LAST, 0);
        config = set_msb0_64(config, BIT_BE_OFFSET, true);
        self.cp0.config.bits = config;
        self.cp0.random = 0x1f;
        self.reset_signal = disable_signal(self.reset_signal, COLD_RESET | POWER_ON_RESET)
            | COLD_RESET_ACTIVE;
        self.cold_reset_clocks = 64000;
        self.clocks = 0;
    }

    /// Lets `clocks` clocks pass for the reset that is under way.
    pub fn update_reset_signal(&mut self, clocks: u64)
        ensures
            *final(self) == reset_signal_updated(*old(self), clocks),
    {
        let cold = self.reset_signal & COLD_RESET_ACTIVE != 0;
        let soft = self.reset_signal & RESET_ACTIVE != 0;
        if cold {
            self.cold_reset_clocks = self.cold_reset_clocks.saturating_sub(clocks);
            let rem = self.cold_reset_clocks;
            if soft {
                if rem == 0 {
                    self.soft_reset_clocks = 16;
                }
            } else if rem == 0 {
                self.reset_signal = disable_cold_reset(self.reset_signal);
            }
        } else if soft {
            self.soft_reset_clocks = self.soft_reset_clocks.saturating_sub(clocks);
            let rem = self.soft_reset_clocks;
            if rem == 0 {
                self.reset_signal = disable_soft_reset(self.reset_signal);
            }
        }
    }
}

} // verus!
