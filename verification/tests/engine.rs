use std::cell::Cell;
use std::rc::Rc;
use wicked64::cpu::Cpu;
use wicked64::hardware::cartridge::Cartridge;
use wicked64::jit::bridge::{get_host_jump_addr, mmu_store_dword};
use wicked64::jit::compiler::{AssembleError, Compiler, Env};
use wicked64::jit::engine::{Action, JitEngine, JitError};
use wicked64::jit::interruption::Interruption;
use wicked64::jit::state::{Bridge, JitState};
use wicked64::jit::tables::JumpEntry;
use wicked64::mmu::memory::MemoryManager;
use wicked64::n64::State;

fn env() -> Env {
    Env {
        state: JitState::new(0x10_0000, 0x40, 0x240, 0x300, 0x310).unwrap(),
        bridge: Bridge {
            mmu_read_byte: 0x1001,
            mmu_read_word: 0x1002,
            mmu_read_dword: 0x1004,
            mmu_store_dword: 0x2004,
            get_host_jump_addr: 0x3000,
            get_rip_value: 0x4000,
        },
        jump_table: 0x20_0000,
    }
}

/// Block A at 0x8000_1000 jumps to block B at 0x8000_4000, which stores a
/// word and is followed by nops.
fn state() -> State {
    let mut mmu = MemoryManager::new(Cartridge::from_bytes(vec![0x80; 64]).unwrap());
    // lui $1, 0x1234; j 0x8000_4000
    mmu.store_u32(0x1000, 0x3c01_1234);
    mmu.store_u32(0x1004, 0x0800_1000);
    // ori $1, $1, 0x5678; sw $1, 0($3)
    mmu.store_u32(0x4000, 0x3421_5678);
    mmu.store_u32(0x4004, 0xac61_0000);
    let mut cpu = Cpu::zeroed();
    cpu.pc = 0x8000_1000;
    State::new(mmu, cpu)
}

fn executed(action: Result<Action, JitError>) -> Rc<wicked64::jit::code::CompiledBlock> {
    match action {
        Ok(Action::Execute(block)) => block,
        Ok(Action::Resume { .. }) => panic!("the block should be run from its entry"),
        Err(e) => panic!("{e:?}"),
    }
}

#[test]
fn a_block_is_compiled_once_and_found_again() {
    let mut state = state();
    let mut engine = JitEngine::new();
    let compiled = Cell::new(0);
    let make_exec = |code: &Vec<u8>| {
        compiled.set(compiled.get() + 1);
        Some(code.as_ptr() as usize)
    };
    let a = executed(engine.dispatch(&mut state, env(), &make_exec));
    assert_eq!(compiled.get(), 1);
    assert_eq!(a.start_pc(), 0x8000_1000);
    assert_eq!(a.len(), 8);
    assert_eq!(a.ptr(), a.as_slice().as_ptr() as usize);
    let (expected, len) =
        Compiler::new(env(), 0x8000_1000).compile(&state.cpu, &state.mmu, 1024).unwrap();
    assert_eq!(len, 8);
    assert_eq!(a.as_slice(), expected.as_slice());
    assert!(len > 0);

    let again = executed(engine.dispatch(&mut state, env(), &make_exec));
    assert!(Rc::ptr_eq(&a, &again));
    assert_eq!(compiled.get(), 1);
    assert!(Rc::ptr_eq(&engine.cached(0x1000).unwrap(), &a));
    assert!(engine.cached(0x1004).is_none());
    assert!(Rc::ptr_eq(
        &engine.compile(&state, env(), 0xa000_1000, &make_exec).unwrap(),
        &a
    ));
    assert!(Rc::ptr_eq(
        &engine.compile_current_pc(&state, env(), &make_exec).unwrap(),
        &a
    ));
}

#[test]
fn a_jump_is_resolved_and_resumed() {
    let mut state = state();
    let mut engine = JitEngine::new();
    let compiled = Cell::new(0);
    let make_exec = |code: &Vec<u8>| {
        compiled.set(compiled.get() + 1);
        Some(code.as_ptr() as usize)
    };
    let a = executed(engine.dispatch(&mut state, env(), &make_exec));
    // what block A does when it runs: it asks for the target of its jump,
    // notes where it goes on, and hands the jump over
    assert_eq!(get_host_jump_addr(&state, engine.jump_table(), 0x8000_4000), None);
    state.resume_addr = a.ptr() as u64 + 100;
    state.interruption = Interruption::PrepareJump(0x8000_4000);

    let action = engine.dispatch(&mut state, env(), &make_exec).unwrap();
    assert_eq!(compiled.get(), 2);
    assert_eq!(state.cpu.pc, 0x8000_4000);
    assert_eq!(state.interruption, Interruption::Empty);
    let b = engine.cached(0x4000).unwrap();
    assert_eq!(b.start_pc(), 0x8000_4000);
    assert_eq!(b.len(), 8);
    match action {
        Action::Resume { resume_addr, target } => {
            assert_eq!(resume_addr, a.ptr() as u64 + 100);
            assert_eq!(target, b.ptr());
        },
        Action::Execute(_) => panic!("the jump should be resumed"),
    }
    assert_eq!(
        get_host_jump_addr(&state, engine.jump_table(), 0x8000_4000),
        Some(JumpEntry { target_block: b.ptr() })
    );

    // the same jump again reuses both blocks
    state.interruption = Interruption::PrepareJump(0x8000_4000);
    let action = engine.dispatch(&mut state, env(), &make_exec).unwrap();
    assert_eq!(compiled.get(), 2);
    assert!(matches!(action, Action::Resume { target, .. } if target == b.ptr()));
    assert!(Rc::ptr_eq(&engine.cached(0x1000).unwrap(), &a));
}

#[test]
fn a_jump_that_nobody_asked_for_runs_the_target_from_its_entry() {
    let mut state = state();
    let mut engine = JitEngine::new();
    let make_exec = |code: &Vec<u8>| Some(code.as_ptr() as usize);
    state.interruption = Interruption::PrepareJump(0x8000_4000);
    let b = executed(engine.dispatch(&mut state, env(), &make_exec));
    assert_eq!(b.start_pc(), 0x8000_4000);
    assert_eq!(state.cpu.pc, 0x8000_4000);
    assert_eq!(
        engine.resolve_jump(&state, env(), 0x8000_4000, &make_exec),
        Ok(None)
    );
}

#[test]
fn a_store_into_a_block_drops_it_and_the_jumps_into_it() {
    let mut state = state();
    let mut engine = JitEngine::new();
    let compiled = Cell::new(0);
    let make_exec = |code: &Vec<u8>| {
        compiled.set(compiled.get() + 1);
        Some(code.as_ptr() as usize)
    };
    let a = executed(engine.dispatch(&mut state, env(), &make_exec));
    get_host_jump_addr(&state, engine.jump_table(), 0x8000_4000);
    get_host_jump_addr(&state, engine.jump_table(), 0x8000_1000);
    state.interruption = Interruption::PrepareJump(0x8000_4000);
    engine.dispatch(&mut state, env(), &make_exec).unwrap();
    let b = engine.cached(0x4000).unwrap();
    assert_eq!(
        engine.resolve_jump(&state, env(), 0x8000_1000, &make_exec),
        Ok(Some(JumpEntry { target_block: a.ptr() }))
    );
    assert_eq!(compiled.get(), 2);

    // the guest stores into block B
    mmu_store_dword(&mut state, 0x8000_4004, 0);
    assert_eq!(state.cache_invalidation, Some((0x4004, 0x4008)));
    let dropped = engine.invalidate_cache(&mut state);
    assert_eq!(state.cache_invalidation, None);
    assert_eq!(dropped.len(), 1);
    assert!(Rc::ptr_eq(&dropped[0].1, &b));
    assert_eq!(dropped[0].0, 0x4000);
    assert!(engine.cached(0x4000).is_none());
    assert!(Rc::ptr_eq(&engine.cached(0x1000).unwrap(), &a));
    // the jump into B is forgotten, the jump into A is not
    assert_eq!(get_host_jump_addr(&state, engine.jump_table(), 0x8000_4000), None);
    assert_eq!(
        get_host_jump_addr(&state, engine.jump_table(), 0x8000_1000),
        Some(JumpEntry { target_block: a.ptr() })
    );
    // without a store nothing is dropped
    assert!(engine.invalidate_cache(&mut state).is_empty());

    // the next turn compiles B anew, from what the guest has written
    state.interruption = Interruption::PrepareJump(0x8000_4000);
    let action = engine.dispatch(&mut state, env(), &make_exec).unwrap();
    assert_eq!(compiled.get(), 3);
    let b2 = engine.cached(0x4000).unwrap();
    assert!(!Rc::ptr_eq(&b, &b2));
    assert!(matches!(action, Action::Resume { target, .. } if target == b2.ptr()));
    assert_ne!(b2.as_slice(), b.as_slice());
}

#[test]
fn what_cannot_be_compiled_is_told() {
    let mut state = state();
    let mut engine = JitEngine::new();
    let make_exec = |code: &Vec<u8>| Some(code.as_ptr() as usize);
    state.cpu.pc = 0x1000;
    assert!(matches!(
        engine.dispatch(&mut state, env(), &make_exec),
        Err(JitError::Unmapped(0x1000))
    ));
    // sb is not lowered
    state.mmu.store_u32(0x2000, 0xa062_0000);
    assert_eq!(
        engine.compile(&state, env(), 0x8000_2000, &make_exec).err(),
        Some(JitError::Assemble(AssembleError::Cpu(wicked64::cpu::FetchError::Decode(
            wicked64::cpu::instruction::DecodeError::UnhandledOpcode(0xa062_0000)
        ))))
    );
    // memory that cannot be made executable
    let refuse = |_: &Vec<u8>| None;
    state.cpu.pc = 0x8000_1000;
    assert!(matches!(
        engine.dispatch(&mut state, env(), &refuse),
        Err(JitError::Memory)
    ));
    assert!(engine.cached(0x1000).is_none());
    // a jump to an address that is not mapped
    state.interruption = Interruption::PrepareJump(0xc000_0000);
    assert!(matches!(
        engine.dispatch(&mut state, env(), &make_exec),
        Err(JitError::Unmapped(0xc000_0000))
    ));
    assert_eq!(state.cpu.pc, 0xc000_0000);
    assert_eq!(state.interruption, Interruption::Empty);
}
