use bitvec::order::Msb0;
use bitvec::view::BitView;
use wicked64::cpu::cp0::config::{ConfigRegister, BIT_BE_OFFSET, BIT_EP_FIRST, BIT_EP_LAST};
use wicked64::cpu::cp0::status::{
    OperationMode, StatusRegister, BIT_BEV_OFFSET, BIT_CU_FIRST, BIT_CU_LAST, BIT_ERL_OFFSET,
    BIT_RP_OFFSET, BIT_SR_OFFSET, BIT_TS_OFFSET,
};
use wicked64::cpu::cp0::Cp0;
use wicked64::cpu::signals::disable_signal;
use wicked64::cpu::signals::reset_signal;
use wicked64::cpu::{Cpu, FetchError, ResetError};
use wicked64::hardware::cartridge::{Cartridge, CartridgeEndianness, CARTRIDGE_SIZE_IN_BYTES};
use wicked64::jit::bridge::{
    get_host_jump_addr, mmu_read_byte, mmu_read_dword, mmu_read_word, mmu_store_dword,
};
use wicked64::jit::interruption::Interruption;
use wicked64::jit::jump_table::JumpTable;
use wicked64::mmu::map::{translate_virtual, VirtualMemoryMap};
use wicked64::mmu::memory::MemoryManager;
use wicked64::n64::State;

fn rom() -> Vec<u8> {
    let mut data = vec![0u8; 0x2000];
    data[..4].copy_from_slice(&[0x80, 0x37, 0x12, 0x40]);
    data[8..12].copy_from_slice(&0x8000_1000_u32.to_be_bytes());
    data[0x20..0x34].copy_from_slice(b"Dillon's N64 Tests\x20\x20");
    for (i, byte) in data.iter_mut().enumerate().skip(0x40) {
        *byte = (i % 251) as u8;
    }
    data
}

fn memory() -> MemoryManager {
    MemoryManager::new(Cartridge::from_bytes(rom()).unwrap())
}

#[test]
fn it_should_get_the_cartridge_endianness() {
    let cartridge = Cartridge::from_bytes(rom()).unwrap();
    assert_eq!(cartridge.endianness(), Ok(CartridgeEndianness::Big));
    assert_eq!(
        Cartridge::from_bytes(vec![0x40]).unwrap().endianness(),
        Ok(CartridgeEndianness::Little)
    );
    assert_eq!(
        Cartridge::from_bytes(vec![0x37, 0x80]).unwrap().endianness(),
        Ok(CartridgeEndianness::ByteSwapped)
    );
    assert_eq!(Cartridge::from_bytes(vec![0x81]).unwrap().endianness(), Err(()));
    assert_eq!(Cartridge::from_bytes(vec![]).unwrap().endianness(), Err(()));
}

#[test]
fn a_cartridge_that_is_too_large_is_refused() {
    assert!(Cartridge::from_bytes(vec![0; CARTRIDGE_SIZE_IN_BYTES]).is_some());
    assert!(Cartridge::from_bytes(vec![0; CARTRIDGE_SIZE_IN_BYTES + 1]).is_none());
}

#[test]
fn it_should_perform_the_power_on_procedure() {
    let mut mmu = memory();
    // create the CPU preventing PIF side effects
    let cpu = Cpu::new(false, &mut mmu);

    let cp0 = &cpu.cp0;
    // cp0.random = 0x1f (upper-limit value)
    assert!(cp0.random == 0x1f);

    // cp0.status.{TS, SR, RP} = 0
    // cp0.status.{ERL, BEV} = 1
    let status_bits = cp0.status.bits.view_bits::<Msb0>();
    assert_eq!(status_bits.get(BIT_TS_OFFSET).as_deref(), Some(&false));
    assert_eq!(status_bits.get(BIT_SR_OFFSET).as_deref(), Some(&false));
    assert_eq!(status_bits.get(BIT_RP_OFFSET).as_deref(), Some(&false));
    assert_eq!(status_bits.get(BIT_ERL_OFFSET).as_deref(), Some(&true));
    assert_eq!(status_bits.get(BIT_BEV_OFFSET).as_deref(), Some(&true));

    // cp0.config.EP[3:0] = 0
    // cp0.config.{BE} = 1
    let config_bits = cp0.config.bits.view_bits::<Msb0>();
    for bit in BIT_EP_FIRST..=BIT_EP_LAST {
        assert_eq!(config_bits.get(bit).as_deref(), Some(&false));
    }
    assert_eq!(config_bits.get(BIT_BE_OFFSET).as_deref(), Some(&true));

    assert!(
        (cpu.reset_signal | reset_signal::COLD_RESET_ACTIVE) == reset_signal::COLD_RESET_ACTIVE
    );
    assert_eq!(cpu.pc, 0xBFC0_0000);
    assert_eq!(cpu.cold_reset_clocks, 64000);
    assert_eq!(cpu.cp0.status.bits, 0x2000_0200);
    assert_eq!(cpu.cp0.config.bits, 0x0001_0000_0000_0000);
}

#[test]
fn it_should_simulate_the_pif_rom_behavior() {
    let mut mmu = memory();
    let cpu = Cpu::new(true, &mut mmu);

    assert_eq!(cpu.pc, 0xA400_0040);
    assert_eq!(cpu.gpr[11], 0xffff_ffff_a400_0040);
    assert_eq!(cpu.gpr[20], 0x0000_0000_0000_0001);
    assert_eq!(cpu.gpr[22], 0x0000_0000_0000_003f);
    assert_eq!(cpu.gpr[29], 0xffff_ffff_a400_1ff0);
    assert_eq!(cpu.gpr[1], 0);
    assert_eq!(cpu.cp0.random, 0x1f);
    assert_eq!(cpu.cp0.prid, 0x0000_0B00);
    assert_eq!(cpu.reset_signal, reset_signal::NONE);

    let status = &cpu.cp0.status;
    assert!(status.get_bit(BIT_ERL_OFFSET));
    assert!(status.get_bit(BIT_BEV_OFFSET));
    assert!(status.get_bits(BIT_CU_FIRST, BIT_CU_LAST) == 0b0111);
    assert_eq!(status.get_execution_mode(), Some(OperationMode::Kernel));

    let config = &cpu.cp0.config;
    assert!(config.get_bits(4, 14) == 0b110_0100_0110);
    assert!(config.get_bits(16, 23) == 0b0000_0110);
    assert!(!config.get_bit(31));
    assert!(config.get_bits(0, 2) == 0b011);

    // the head of the cartridge stands in the data memory of the signal
    // processor
    let rom_title: Vec<u8> = (0x0400_0020..0x0400_0034).map(|i| mmu.read_u8(i)).collect();
    assert_eq!(b"Dillon's N64 Tests\x20\x20", rom_title.as_slice());
    assert_eq!(mmu.read_u32(0x0400_0008), 0x8000_1000);
    assert_eq!(mmu.read_u8(0x0400_0fff), (0xfff % 251) as u8);
}

#[test]
fn status_and_config_bits_are_counted_from_the_least_significant() {
    let status = StatusRegister::new();
    assert_eq!(status.bits, 1 << 28);
    assert!(status.get_bit(28));
    assert!(!status.get_bit(27));
    assert_eq!(status.get_bits(28, 31), 1);
    assert_eq!(status.get_bits(0, 31), 1 << 28);
    assert_eq!(status.get_execution_mode_raw(), 0);
    for (bits, mode) in [
        (0b0_0000, Some(OperationMode::Kernel)),
        (0b0_1000, Some(OperationMode::Supervisor)),
        (0b1_0000, Some(OperationMode::User)),
        (0b1_1000, None),
    ] {
        let status = StatusRegister { bits: bits | 0b111 };
        assert_eq!(status.get_execution_mode_raw(), (bits >> 3) as u8);
        assert_eq!(status.get_execution_mode(), mode);
    }
    assert_eq!(OperationMode::User.into_u8(), 2);
    assert_eq!(OperationMode::default(), OperationMode::Kernel);

    let config = ConfigRegister { bits: 0x7000_0000_0000_8001 };
    assert!(config.get_bit(0));
    assert!(config.get_bit(15));
    assert!(!config.get_bit(16));
    assert!(config.get_bit(62));
    assert!(!config.get_bit(63));
    assert_eq!(config.get_bits(0, 63), 0x7000_0000_0000_8001);
    assert_eq!(config.get_bits(60, 63), 0b0111);
    for (ec, halves) in [(0b110, Some(2)), (0b111, Some(3)), (0b000, Some(4)), (0b001, Some(6)), (0b010, None)] {
        let config = ConfigRegister { bits: ec << 28 };
        assert_eq!(config.get_clock_ratio_halves(), halves);
    }
}

#[test]
fn coprocessor_registers_are_found_by_number() {
    let mut cp0 = Cp0::default();
    cp0.index = 10;
    cp0.random = 11;
    cp0.status = StatusRegister { bits: 0x1234_5678 };
    cp0.config = ConfigRegister { bits: 0x9abc };
    cp0.error_epc = 30;
    cp0.epc = 14;
    assert_eq!(cp0.get_register(0), 10);
    assert_eq!(cp0.get_register(1), 11);
    assert_eq!(cp0.get_register(12), 0x1234_5678);
    assert_eq!(cp0.get_register(14), 14);
    assert_eq!(cp0.get_register(16), 0x9abc);
    assert_eq!(cp0.get_register(30), 30);
    assert_eq!(cp0.get_register(2), 0);
}

#[test]
fn reset_signals_are_cleared_bit_by_bit() {
    assert_eq!(disable_signal(0b1_1111, 0b0_0110), 0b1_1001);
    assert_eq!(disable_signal(0, 0xff), 0);
    assert_eq!(reset_signal::disable_cold_reset(0b1_1000), 0b1_0000);
    assert_eq!(reset_signal::disable_soft_reset(0b1_1000), 0b0_1000);
    assert_eq!(
        [
            reset_signal::NONE,
            reset_signal::POWER_ON_RESET,
            reset_signal::COLD_RESET,
            reset_signal::RESET,
            reset_signal::COLD_RESET_ACTIVE,
            reset_signal::RESET_ACTIVE
        ],
        [0, 1, 2, 4, 8, 16]
    );
}

#[test]
fn resets_run_for_their_clocks() {
    let mut cpu = Cpu::zeroed();
    cpu.cp0.status.bits = 0xffff_ffff;
    cpu.cp0.config.bits = u64::MAX;
    cpu.clocks = 77;
    cpu.reset_signal = reset_signal::COLD_RESET;
    assert_eq!(cpu.handle_reset_signal(), Ok(()));
    assert_eq!(cpu.reset_signal, reset_signal::COLD_RESET_ACTIVE);
    assert_eq!(cpu.clocks, 0);
    assert_eq!(cpu.cp0.random, 0x1f);
    // the bits are counted from the most significant: 21, 20 and 27 are
    // cleared, 2 and 22 stay set
    assert_eq!(cpu.cp0.status.bits, 0xffff_f3ef);
    assert_eq!(cpu.cp0.config.bits, 0xffff_ff0f_ffff_ffff);

    // nothing happens while a reset is under way
    let before = cpu.clone();
    assert_eq!(cpu.handle_reset_signal(), Ok(()));
    assert_eq!(cpu.cold_reset_clocks, before.cold_reset_clocks);
    cpu.update_reset_signal(63_999);
    assert_eq!(cpu.cold_reset_clocks, 1);
    assert_eq!(cpu.reset_signal, reset_signal::COLD_RESET_ACTIVE);
    cpu.update_reset_signal(5);
    assert_eq!(cpu.cold_reset_clocks, 0);
    assert_eq!(cpu.reset_signal, reset_signal::NONE);

    // with both resets under way the soft one lasts 16 clocks more
    cpu.reset_signal = reset_signal::COLD_RESET_ACTIVE | reset_signal::RESET_ACTIVE;
    cpu.cold_reset_clocks = 10;
    cpu.update_reset_signal(4);
    assert_eq!((cpu.cold_reset_clocks, cpu.soft_reset_clocks), (6, 0));
    cpu.update_reset_signal(6);
    assert_eq!((cpu.cold_reset_clocks, cpu.soft_reset_clocks), (0, 16));
    assert_eq!(cpu.reset_signal, reset_signal::COLD_RESET_ACTIVE | reset_signal::RESET_ACTIVE);

    cpu.reset_signal = reset_signal::RESET_ACTIVE;
    cpu.update_reset_signal(15);
    assert_eq!(cpu.soft_reset_clocks, 1);
    cpu.update_reset_signal(1);
    assert_eq!(cpu.reset_signal, reset_signal::NONE);
    cpu.update_reset_signal(100);
    assert_eq!(cpu.reset_signal, reset_signal::NONE);

    cpu.reset_signal = reset_signal::RESET;
    assert_eq!(cpu.handle_reset_signal(), Err(ResetError::SoftReset));
    cpu.reset_signal = reset_signal::RESET | reset_signal::COLD_RESET;
    assert_eq!(cpu.handle_reset_signal(), Err(ResetError::InvalidSignal));
    cpu.reset_signal = 0x20;
    assert_eq!(cpu.handle_reset_signal(), Err(ResetError::InvalidSignal));
}

#[test]
fn virtual_addresses_lie_in_their_segments() {
    for (addr, segment) in [
        (0x0000_0000_u64, VirtualMemoryMap::KUSEG),
        (0x7fff_ffff, VirtualMemoryMap::KUSEG),
        (0x8000_0000, VirtualMemoryMap::KSEG0),
        (0x9fff_ffff, VirtualMemoryMap::KSEG0),
        (0xa000_0000, VirtualMemoryMap::KSEG1),
        (0xbfff_ffff, VirtualMemoryMap::KSEG1),
        (0xc000_0000, VirtualMemoryMap::KSSEG),
        (0xdfff_ffff, VirtualMemoryMap::KSSEG),
        (0xe000_0000, VirtualMemoryMap::KSEG3),
        (0xffff_ffff, VirtualMemoryMap::KSEG3),
    ] {
        assert_eq!(VirtualMemoryMap::from_u64(addr), Some(segment));
        assert_eq!(VirtualMemoryMap::from_u32(addr as u32), segment);
    }
    assert_eq!(VirtualMemoryMap::from_u64(0x1_0000_0000), None);
    assert_eq!(translate_virtual(0x8000_1000), Some(0x1000));
    assert_eq!(translate_virtual(0xa400_0040), Some(0x0400_0040));
    assert_eq!(translate_virtual(0xb000_0000), Some(0x1000_0000));
    assert_eq!(translate_virtual(0x0000_1000), None);
    assert_eq!(translate_virtual(0xc000_0000), None);
    assert_eq!(translate_virtual(0xffff_ffff_8000_0000), None);
    assert_eq!(Cpu::zeroed().translate_virtual(0x9fff_ffff), Some(0x1fff_ffff));
}

#[test]
fn memory_is_read_and_written_big_endian() {
    let mut mmu = memory();
    assert_eq!(mmu.read_u32(0x1000_0000), 0x8037_1240);
    assert_eq!(mmu.read_u16(0x1000_0002), 0x1240);
    assert_eq!(mmu.read_u8(0x1000_0003), 0x40);
    assert_eq!(mmu.read_u32(0x1000_0008), 0x8000_1000);
    assert_eq!(mmu.read_u32(0), 0);

    assert!(mmu.store_u32(0x2000, 0xdead_beef));
    assert_eq!(mmu.read_u32(0x2000), 0xdead_beef);
    assert_eq!(mmu.read_u16(0x2000), 0xdead);
    assert_eq!(mmu.read_u16(0x2002), 0xbeef);
    assert_eq!(
        (0x1fff..0x2005).map(|a| mmu.read_u8(a)).collect::<Vec<_>>(),
        vec![0, 0xde, 0xad, 0xbe, 0xef, 0]
    );
    assert!(mmu.store_bytes(0x0400_0ffe, &[1, 2]));
    assert_eq!(mmu.read_u16(0x0400_0ffe), 0x0102);
}

#[test]
fn memory_that_is_not_there_reads_as_zero_and_drops_stores() {
    let mut mmu = memory();
    // between the units
    assert_eq!(mmu.read_u32(0x0080_0000), 0);
    assert!(!mmu.store_u32(0x0080_0000, 1));
    assert_eq!(mmu.read_u32(0x0300_0000), 0);
    // behind the end of the cartridge's content
    assert_eq!(mmu.read_u8(0x1000_1fff), (0x1fff % 251) as u8);
    assert_eq!(mmu.read_u8(0x1000_2000), 0);
    assert_eq!(mmu.read_u32(0x1000_1ffd), 0);
    assert!(!mmu.store_u32(0x1000_1ffd, 1));
    assert_eq!(mmu.read_u8(0x1000_1ffd), (0x1ffd % 251) as u8);
    // a word that would straddle the end of a unit
    assert!(!mmu.store_u32(0x0400_0ffe, 1));
    assert_eq!(mmu.read_u16(0x0400_0fff), 0);
}

#[test]
fn copies_go_from_address_to_address() {
    let mut mmu = memory();
    assert!(mmu.copy_from(0x0000_1000, 0x1000_1000, 0x800));
    assert_eq!(mmu.read_u8(0x1000), (0x1000 % 251) as u8);
    assert_eq!(mmu.read_u8(0x17ff), (0x17ff % 251) as u8);
    assert_eq!(mmu.read_u8(0x1800), 0);
    assert_eq!(mmu.read_u8(0x0fff), 0);
    // a copy from or to what is not there does nothing
    assert!(!mmu.copy_from(0x0000_1000, 0x1000_1000, 0x2000));
    assert!(!mmu.copy_from(0x0400_0800, 0x1000_0000, 0x1000));
    assert_eq!(mmu.read_u8(0x0400_0800), 0);
    assert!(!mmu.copy_from(0x0000_1000, 0x0300_0000, 4));
}

#[test]
fn instructions_are_fetched_through_the_segments() {
    let mut mmu = memory();
    mmu.store_u32(0x1000, 0x3c01_1234);
    let cpu = Cpu::zeroed();
    assert!(matches!(
        cpu.fetch_instruction(&mmu, 0x8000_1000),
        Ok(wicked64::cpu::instruction::Instruction::LUI(_))
    ));
    assert!(matches!(
        cpu.fetch_instruction(&mmu, 0xa000_1000),
        Ok(wicked64::cpu::instruction::Instruction::LUI(_))
    ));
    assert_eq!(
        cpu.fetch_instruction(&mmu, 0x0000_1000),
        Err(FetchError::Unmapped(0x0000_1000))
    );
    // what is not there reads as zero, which is a nop
    assert_eq!(
        cpu.fetch_instruction(&mmu, 0x8080_0000),
        Ok(wicked64::cpu::instruction::Instruction::NOP)
    );
}

#[test]
fn stores_of_the_guest_are_noted_for_the_cache() {
    let mut state = State::new(memory(), Cpu::zeroed());
    assert_eq!(state.cache_invalidation, None);
    assert_eq!(state.interruption, Interruption::Empty);
    assert_eq!(state.resume_addr, 0);
    mmu_store_dword(&mut state, 0x8000_2000, 0xdead_beef);
    assert_eq!(state.cache_invalidation, Some((0x2000, 0x2004)));
    assert_eq!(mmu_read_dword(&state, 0x8000_2000), 0xdead_beef);
    assert_eq!(mmu_read_dword(&state, 0xa000_2000), 0xdead_beef);
    assert_eq!(mmu_read_word(&state, 0x8000_2002), 0xbeef);
    assert_eq!(mmu_read_byte(&state, 0x8000_2001), 0xad);
    assert_eq!(state.mmu.read_u32(0x2000), 0xdead_beef);
    // an address that is not mapped reads as zero, and a store there is
    // dropped
    state.cache_invalidation = None;
    mmu_store_dword(&mut state, 0x0000_2000, 1);
    assert_eq!(state.cache_invalidation, None);
    assert_eq!(mmu_read_dword(&state, 0x0000_2000), 0);
    assert_eq!(mmu_read_word(&state, 0xc000_2000), 0);
    assert_eq!(mmu_read_byte(&state, 0xe000_2000), 0);

    state.cpu.pc = 0x8000_1000;
    assert_eq!(state.translate_cpu_pc(), Some(0x1000));
    state.cpu.pc = 0x1000;
    assert_eq!(state.translate_cpu_pc(), None);
}

#[test]
fn jumps_are_looked_up_by_their_physical_address() {
    let state = State::new(memory(), Cpu::zeroed());
    let mut table = JumpTable::new();
    assert_eq!(get_host_jump_addr(&state, &mut table, 0x8000_4000), None);
    let block = wicked64::jit::code::CompiledBlock::new(vec![0xc3], 0x7000, 0x8000_4000, 4);
    // the same target through the other segment
    assert!(table.resolve_with_block(0x4000, &block).is_some());
    assert_eq!(
        get_host_jump_addr(&state, &mut table, 0xa000_4000).map(|e| e.target_block),
        Some(0x7000)
    );
    assert_eq!(get_host_jump_addr(&state, &mut table, 0x4000), None);
    assert_eq!(table.resolve_with_block(0x4000_0000, &block), None);
}
