//! The translator: one basic block of guest instructions becomes a sequence
//! of host instructions that does to the guest's state what the block does.

pub mod instructions;

use crate::codegen::register::{callee_saved, Register};
use crate::cpu::instruction::Instruction;
use crate::cpu::{Cpu, FetchError};
use crate::jit::assembler::{
    assemble, encoded, encodes, fine_below, label_ok, lemma_fault_free, lemma_fine_push, takes,
    BinaryOp, EncodingError, HostInst, UnaryOp,
};
use crate::jit::register::{GuestRegister, InsertError, Registers, RegistersView};
use crate::jit::state::{guest_exists, Bridge, JitState};
use crate::mmu::memory::MemoryManager;
use vstd::prelude::*;

verus! {

/// How the translation of a block goes on after an instruction.
#[derive(Debug, Clone, Copy, PartialEq, Eq, Structural)]
pub enum AssembleStatus {
    /// The next instruction belongs to the block.
    Continue,
    /// The instruction may have written over compiled code: the block ends
    /// behind it.
    InvalidateCache,
    /// The instruction has left the block.
    Branch,
}

/// Why a block could not be translated.
#[derive(Debug, Clone, Copy, PartialEq, Eq, Structural)]
pub enum AssembleError {
    /// The host code could not be encoded.
    Asm(EncodingError),
    /// An instruction could not be fetched.
    Cpu(FetchError),
    /// No host register could be had.
    Registers(InsertError),
    /// An instruction names a guest register that does not exist.
    InvalidRegister(u8),
    /// The translator does not lower the instruction.
    Unimplemented,
    /// A host function is called with more arguments than registers carry.
    TooManyArguments,
}

/// What the translator is given: where the guest's state lies, the host
/// functions that emitted code calls, and the address of the jump table.
#[derive(Debug, Clone, Copy)]
pub struct Env {
    pub state: JitState,
    pub bridge: Bridge,
    pub jump_table: u64,
}

/// What the translator holds while it works on a block: the bindings of
/// guest to host registers, the host instructions emitted so far, the
/// callee-saved host registers it has pushed, and the guest address of the
/// instruction it is at.
pub struct CompilerView {
    pub regs: RegistersView,
    pub code: Seq<HostInst>,
    pub saved: Seq<Register>,
    pub pc: u64,
}

/// The host registers that a fresh translator may hand out: all but the
/// reserved ones, the return register `r13` and the scratch registers `r14`
/// and `r15`.
pub open spec fn allocatable_numbers() -> Set<u8> {
    Set::new(
        |n: u8|
            n < 13 && !crate::jit::register::reserved(
                crate::codegen::register::register_of(n as int),
            ),
    )
}

/// What a translator holds before it has emitted anything for the block
/// that starts at `addr`.
pub open spec fn initial_view(addr: u64) -> CompilerView {
    CompilerView {
        regs: RegistersView {
            regs: Map::empty(),
            free: allocatable_numbers(),
            borrow_index: 0,
        },
        code: Seq::empty(),
        saved: Seq::empty(),
        pc: addr,
    }
}

/// The state pointer register.
pub open spec fn state_register() -> Register {
    Register::Rsi
}

/// The pops that restore the pushed registers, last pushed first.
pub open spec fn pop_all(saved: Seq<Register>) -> Seq<HostInst>
    decreases saved.len(),
{
    if saved.len() == 0 {
        seq![]
    } else {
        seq![HostInst::Unary(UnaryOp::Pop, saved.last())] + pop_all(saved.drop_last())
    }
}

impl CompilerView {
    /// The same with `inst` emitted.
    pub open spec fn emit(self, inst: HostInst) -> CompilerView {
        CompilerView { code: self.code.push(inst), ..self }
    }

    /// The same with `insts` emitted.
    pub open spec fn emit_all(self, insts: Seq<HostInst>) -> CompilerView {
        CompilerView { code: self.code + insts, ..self }
    }

    /// The allocator is in order, every bound guest register exists, and
    /// the assembler takes every instruction emitted so far.
    pub open spec fn wf(self) -> bool {
        &&& self.regs.wf()
        &&& forall|k: u16| #[trigger] self.regs.regs.contains_key(k) ==> k < 32 || k == 256
        &&& fine_below(self.code, self.code.len())
    }

    /// After `reg` was handed out: a callee-saved register that was not
    /// pushed yet is pushed.
    pub open spec fn save(self, reg: Register) -> CompilerView {
        if callee_saved(reg) && !self.saved.contains(reg) {
            CompilerView {
                saved: self.saved.push(reg),
                code: self.code.push(HostInst::Unary(UnaryOp::Push, reg)),
                ..self
            }
        } else {
            self
        }
    }

    /// After the value of `guest`, held in `host`, was written back to the
    /// state and its binding dropped.
    pub open spec fn sync_guest_with(self, env: Env, guest: GuestRegister, host: Register) -> CompilerView {
        CompilerView {
            code: self.code.push(
                HostInst::Store(state_register(), env.state.offset(guest), host),
            ),
            regs: self.regs.freed(guest),
            ..self
        }
    }

    /// After the first `n` of `list` were written back.
    pub open spec fn sync_list(
        self,
        env: Env,
        list: Seq<(GuestRegister, Register)>,
        n: nat,
    ) -> CompilerView
        decreases n,
    {
        if n == 0 {
            self
        } else {
            self.sync_list(env, list, (n - 1) as nat).sync_guest_with(
                env,
                list[n - 1].0,
                list[n - 1].1,
            )
        }
    }

    /// After every bound guest register was written back, in the order of
    /// the guest registers.
    pub open spec fn sync_all(self, env: Env) -> CompilerView {
        self.sync_list(env, self.regs.bindings(), self.regs.bindings().len())
    }

    /// After the pushed registers were popped.
    pub open spec fn restore(self) -> CompilerView {
        CompilerView { code: self.code + pop_all(self.saved), saved: seq![], ..self }
    }

    /// After `guest` was given a host register: the one it has, or else a
    /// new one, which is saved if the callee owes it, freed of the guest
    /// register that was dropped for it, and loaded from the state.
    pub open spec fn host_register(self, env: Env, guest: GuestRegister) -> Result<
        (CompilerView, Register),
        AssembleError,
    > {
        match self.regs.get(guest) {
            (regs, Some(reg)) => Ok((CompilerView { regs, ..self }, reg)),
            (_, None) => match self.regs.insert(guest) {
                (regs, Ok((reg, dropped))) => {
                    let saved = (CompilerView { regs, ..self }).save(reg);
                    let synced = match dropped {
                        Some(d) => saved.sync_guest_with(env, d, reg),
                        None => saved,
                    };
                    Ok(
                        (
                            synced.emit(
                                HostInst::Load(reg, state_register(), env.state.offset(guest)),
                            ),
                            reg,
                        ),
                    )
                },
                (_, Err(e)) => Err(AssembleError::Registers(e)),
            },
        }
    }

    /// After general purpose register `register` of the guest was given a
    /// host register.
    pub open spec fn cpu_register(self, env: Env, register: u8) -> Result<
        (CompilerView, Register),
        AssembleError,
    > {
        if register < 32 {
            self.host_register(env, GuestRegister::Cpu(register))
        } else {
            Err(AssembleError::InvalidRegister(register))
        }
    }

    /// The end of a block that falls through: the program counter of the
    /// guest is set to the next instruction, everything is written back, the
    /// pushed registers are popped and control returns to the trampoline.
    #[verifier::opaque]
    pub open spec fn epilogue(self, env: Env) -> Result<CompilerView, AssembleError> {
        match self.host_register(env, GuestRegister::Pc) {
            Ok((s, cpu_pc)) => Ok(
                s.emit(HostInst::MovImm(cpu_pc, self.pc)).sync_all(env).restore().emit(
                    HostInst::Unary(UnaryOp::Jmp, Register::R13),
                ),
            ),
            Err(e) => Err(e),
        }
    }
}

/// What a step of the translator owes: where the model succeeds, the result
/// of the model and the state of the model; where it fails, its error.
pub open spec fn follows<T>(
    model: Result<(CompilerView, T), AssembleError>,
    after: CompilerView,
    r: Result<T, AssembleError>,
) -> bool {
    match model {
        Ok((view, v)) => r == Ok::<T, AssembleError>(v) && after == view && view.wf(),
        Err(e) => r == Err::<T, AssembleError>(e),
    }
}

/// What a step without a result owes.
pub open spec fn follows_unit(
    model: Result<CompilerView, AssembleError>,
    after: CompilerView,
    r: Result<(), AssembleError>,
) -> bool {
    match model {
        Ok(view) => r is Ok && after == view && view.wf(),
        Err(e) => r == Err::<(), AssembleError>(e),
    }
}

/// The translator of one block.
pub struct Compiler {
    env: Env,
    pc: u64,
    regs: Registers,
    code: Vec<HostInst>,
    saved_regs: Vec<Register>,
}

impl View for Compiler {
    type V = CompilerView;

    closed spec fn view(&self) -> CompilerView {
        CompilerView {
            regs: self.regs@,
            code: self.code@,
            saved: self.saved_regs@,
            pc: self.pc,
        }
    }
}

/// Tells whether `reg` stands in `list`.
pub fn contains_register(list: &Vec<Register>, reg: Register) -> (b: bool)
    ensures
        b == list@.contains(reg),
{
    let mut i: usize = 0;
    while i < list.len()
        invariant
            i <= list@.len(),
            forall|j: int| 0 <= j < i ==> list@[j] != reg,
        decreases list@.len() - i,
    {
        if list[i] == reg {
            return true;
        }
        i = i + 1;
    }
    false
}

/// One step of the translation: the instruction at `pc` is fetched and
/// lowered, and the translator moves on to the next instruction.
#[verifier::opaque]
pub open spec fn step(
    env: Env,
    memory: Map<usize, crate::utils::btree_range::RangeItem<crate::mmu::memory::MemoryUnits>>,
    s: CompilerView,
) -> Result<(CompilerView, AssembleStatus), AssembleError> {
    match fetched(memory, s.pc) {
        Err(e) => Err(AssembleError::Cpu(e)),
        Ok(instruction) => match instructions::lowered(env, s, instruction) {
            Err(e) => Err(e),
            Ok((lowered, status)) => Ok(
                (CompilerView { pc: (lowered.pc + 4) as u64, ..lowered }, status),
            ),
        },
    }
}

/// The clocks left of a budget after one instruction, which takes five.
pub open spec fn budget_left(remaining: nat) -> nat {
    if remaining >= 5 {
        (remaining - 5) as nat
    } else {
        0
    }
}

/// The translation of the block that starts at `pc`, within a budget: as
/// long as the budget lasts an instruction is fetched and lowered; each
/// instruction takes five clocks of the budget. A branch ends the block by
/// itself; an instruction that may have written over code ends it with the
/// epilogue, and so does the end of the budget.
pub open spec fn block(
    env: Env,
    memory: Map<usize, crate::utils::btree_range::RangeItem<crate::mmu::memory::MemoryUnits>>,
    s: CompilerView,
    remaining: nat,
) -> Result<CompilerView, AssembleError>
    decreases remaining,
{
    if remaining == 0 {
        s.epilogue(env)
    } else {
        match step(env, memory, s) {
            Err(e) => Err(e),
            Ok((next, status)) => match status {
                AssembleStatus::Continue => block(env, memory, next, budget_left(remaining)),
                AssembleStatus::InvalidateCache => next.epilogue(env),
                AssembleStatus::Branch => Ok(next),
            },
        }
    }
}

/// The instruction at the virtual address `pc`.
pub open spec fn fetched(
    memory: Map<usize, crate::utils::btree_range::RangeItem<crate::mmu::memory::MemoryUnits>>,
    pc: u64,
) -> Result<Instruction, FetchError> {
    match crate::mmu::map::physical(pc) {
        None => Err(FetchError::Unmapped(pc)),
        Some(phys) => match crate::cpu::instruction::decoding(
            match crate::mmu::memory::loaded(memory, phys as usize, 4) {
                Some(b) => crate::endian::be32_value(b),
                None => 0u32,
            },
        ) {
            Ok(instruction) => Ok(instruction),
            Err(e) => Err(FetchError::Decode(e)),
        },
    }
}

impl Compiler {
    /// What the translator was given.
    pub closed spec fn env(&self) -> Env {
        self.env
    }

    /// Whether the translator still works for the same surroundings and at
    /// the same guest address as `before`.
    pub closed spec fn kept(&self, before: &Compiler) -> bool {
        self.env == before.env && self.pc == before.pc
    }

    /// What the translator was given.
    pub fn environment(&self) -> (env: Env)
        ensures
            env == self.env(),
    {
        self.env
    }

    /// A translator for the block that starts at the guest address `addr`.
    /// The scratch registers `r14` and `r15` and the return register `r13`
    /// are never handed out.
    pub fn new(env: Env, addr: u64) -> (c: Compiler)
        ensures
            c.env() == env,
            c@.wf(),
            c@ == initial_view(addr),
    {
        let mut regs = Registers::new();
        let ghost fresh = regs@;
        regs.exclude_register(Register::R14);
        regs.exclude_register(Register::R15);
        regs.exclude_register(Register::R13);
        let c = Compiler { env, pc: addr, regs, code: Vec::new(), saved_regs: Vec::new() };
        proof {
            assert forall|n: u8| c@.regs.free.contains(n) <==> allocatable_numbers().contains(
                n,
            ) by {
                if n < 16 {
                    let reg = crate::codegen::register::register_of(n as int);
                    assert(fresh.is_free(reg) <==> !crate::jit::register::reserved(reg));
                    assert(reg.num() == n);
                }
            }
            assert(c@.regs.free =~= allocatable_numbers());
            assert(c@.regs.regs =~= fresh.regs);
            assert(c@.code =~= Seq::<HostInst>::empty());
            assert(c@.saved =~= Seq::<Register>::empty());
        }
        c
    }

    /// The host instructions emitted so far.
    pub fn instructions(&self) -> (code: &[HostInst])
        ensures
            code@ == self@.code,
    {
        self.code.as_slice()
    }

    /// The guest address of the instruction that the translator is at.
    pub fn pc(&self) -> (pc: u64)
        ensures
            pc == self@.pc,
    {
        self.pc
    }

    /// The host register that holds `guest`, if one does.
    pub fn host_of(&self, guest: GuestRegister) -> (r: Option<Register>)
        ensures
            r == match self@.regs.binding(guest) {
                Some(h) => Some(h.register),
                None => None,
            },
    {
        self.regs.peek(guest)
    }

    pub(crate) fn emit(&mut self, inst: HostInst)
        ensures
            final(self)@ == old(self)@.emit(inst),
            final(self).kept(old(self)),
            old(self)@.wf() && label_ok(inst) && takes(old(self)@.code, inst) ==> final(self)@.wf(),
    {
        proof {
            if self@.wf() && label_ok(inst) && takes(self@.code, inst) {
                lemma_fine_push(self.code@, inst);
            }
        }
        self.code.push(inst);
    }

    fn save_register(&mut self, reg: Register)
        ensures
            final(self)@ == old(self)@.save(reg),
            final(self).kept(old(self)),
            old(self)@.wf() ==> final(self)@.wf(),
    {
        if reg.is_callee_saved() && !contains_register(&self.saved_regs, reg) {
            self.saved_regs.push(reg);
            self.emit(HostInst::Unary(UnaryOp::Push, reg));
        }
    }

    pub(crate) fn sync_guest_with(&mut self, guest_reg: GuestRegister, host_reg: Register)
        requires
            old(self)@.wf(),
            guest_exists(guest_reg),
        ensures
            final(self)@ == old(self)@.sync_guest_with(old(self).env(), guest_reg, host_reg),
            final(self)@.wf(),
            final(self).kept(old(self)),
    {
        let guest_offset = self.env.state.offset_of(guest_reg);
        self.emit(HostInst::Store(Register::Rsi, guest_offset, host_reg));
        self.regs.free(guest_reg);
    }

    /// Writes every bound guest register back to the state and drops its
    /// binding.
    pub(crate) fn sync_all_registers(&mut self)
        requires
            old(self)@.wf(),
        ensures
            final(self)@ == old(self)@.sync_all(old(self).env()),
            final(self)@.wf(),
            final(self).kept(old(self)),
    {
        let list = self.regs.iter();
        let ghost start = self@;
        let ghost env = self.env;
        proof {
            lemma_bindings_exist(start.regs.regs, 257);
        }
        let mut i: usize = 0;
        while i < list.len()
            invariant
                i <= list@.len(),
                list@ == start.regs.bindings(),
                forall|j: int| 0 <= j < list@.len() ==> guest_exists((#[trigger] list@[j]).0),
                self@ == start.sync_list(env, list@, i as nat),
                self@.wf(),
                self.env == env,
                self.pc == start.pc,
            decreases list@.len() - i,
        {
            let (guest, host) = list[i];
            self.sync_guest_with(guest, host);
            i = i + 1;
        }
    }

    /// Pops the callee-saved registers that were pushed, last pushed first.
    pub(crate) fn restore_registers(&mut self)
        ensures
            final(self)@ == old(self)@.restore(),
            final(self).kept(old(self)),
            old(self)@.wf() ==> final(self)@.wf(),
    {
        while self.saved_regs.len() > 0
            invariant
                self.env == old(self).env,
                self.pc == old(self).pc,
                self.regs@ == old(self).regs@,
                old(self)@.wf() ==> self@.wf(),
                self.code@ + pop_all(self.saved_regs@) == old(self).code@ + pop_all(
                    old(self).saved_regs@,
                ),
            decreases self.saved_regs@.len(),
        {
            let ghost before_code = self.code@;
            let ghost before_saved = self.saved_regs@;
            match self.saved_regs.pop() {
                Some(reg) => {
                    self.emit(HostInst::Unary(UnaryOp::Pop, reg));
                    proof {
                        assert(self.saved_regs@ =~= before_saved.drop_last());
                        assert(self.code@ + pop_all(self.saved_regs@) =~= before_code + pop_all(
                            before_saved,
                        ));
                    }
                },
                None => {},
            }
        }
        proof {
            assert(self.code@ =~= self.code@ + pop_all(self.saved_regs@));
            assert(self.saved_regs@ =~= Seq::<Register>::empty());
        }
    }

    /// Gives `guest_reg` a host register.
    pub(crate) fn get_host_register(&mut self, guest_reg: GuestRegister) -> (r: Result<
        Register,
        AssembleError,
    >)
        requires
            old(self)@.wf(),
            guest_exists(guest_reg),
        ensures
            follows(old(self)@.host_register(old(self).env(), guest_reg), final(self)@, r),
            final(self).kept(old(self)),
    {
        if let Some(reg) = self.regs.get(guest_reg) {
            return Ok(reg);
        }
        let (reg, dropped) = match self.regs.insert(guest_reg) {
            Ok(pair) => pair,
            Err(e) => {
                return Err(AssembleError::Registers(e));
            },
        };
        self.save_register(reg);
        if let Some(dropped) = dropped {
            proof {
                assert(old(self)@.regs.regs.contains_key(dropped.code()));
            }
            self.sync_guest_with(dropped, reg);
        }
        let offset = self.env.state.offset_of(guest_reg);
        self.emit(HostInst::Load(reg, Register::Rsi, offset));
        Ok(reg)
    }

    /// Gives general purpose register `register` of the guest a host
    /// register.
    pub(crate) fn get_cpu_register(&mut self, register: u8) -> (r: Result<Register, AssembleError>)
        requires
            old(self)@.wf(),
        ensures
            follows(old(self)@.cpu_register(old(self).env(), register), final(self)@, r),
            final(self).kept(old(self)),
    {
        if register >= 32 {
            return Err(AssembleError::InvalidRegister(register));
        }
        self.get_host_register(GuestRegister::cpu(register))
    }

    /// Gives the program counter of the guest a host register.
    pub(crate) fn get_cpu_pc(&mut self) -> (r: Result<Register, AssembleError>)
        requires
            old(self)@.wf(),
        ensures
            follows(
                old(self)@.host_register(old(self).env(), GuestRegister::Pc),
                final(self)@,
                r,
            ),
            final(self).kept(old(self)),
    {
        self.get_host_register(GuestRegister::pc())
    }

    /// Emits the end of a block that falls through.
    fn emit_epilogue(&mut self) -> (r: Result<(), AssembleError>)
        requires
            old(self)@.wf(),
        ensures
            follows_unit(old(self)@.epilogue(old(self).env()), final(self)@, r),
            final(self).kept(old(self)),
    {
        proof {
            reveal(CompilerView::epilogue);
        }
        let pc = self.pc;
        let cpu_pc = match self.get_cpu_pc() {
            Ok(reg) => reg,
            Err(e) => {
                return Err(e);
            },
        };
        self.emit(HostInst::MovImm(cpu_pc, pc));
        self.sync_all_registers();
        self.restore_registers();
        self.emit(HostInst::Unary(UnaryOp::Jmp, Register::R13));
        Ok(())
    }

    /// Fetches and lowers the instruction that the translator is at, and
    /// moves on to the next.
    pub fn compile_step(&mut self, cpu: &Cpu, mmu: &MemoryManager) -> (r: Result<
        AssembleStatus,
        AssembleError,
    >)
        requires
            old(self)@.wf(),
            mmu.wf(),
        ensures
            follows(step(old(self).env(), mmu.view(), old(self)@), final(self)@, r),
            final(self).env() == old(self).env(),
            r is Ok ==> old(self)@.pc < 0xC000_0000 && final(self)@.pc == old(self)@.pc + 4,
    {
        proof {
            reveal(step);
        }
        let instruction = match cpu.fetch_instruction(mmu, self.pc) {
            Ok(instruction) => instruction,
            Err(e) => {
                return Err(AssembleError::Cpu(e));
            },
        };
        let status = match self.compile_instruction(instruction) {
            Ok(status) => status,
            Err(e) => {
                return Err(e);
            },
        };
        proof {
            assert(crate::mmu::map::physical(self.pc) is Some);
        }
        self.pc = self.pc + 4;
        Ok(status)
    }

    /// Translates the block within a budget of `cycles` clocks, reading the
    /// guest's instructions from `mmu`.
    pub fn compile_block(&mut self, cpu: &Cpu, mmu: &MemoryManager, cycles: usize) -> (r: Result<
        (),
        AssembleError,
    >)
        requires
            old(self)@.wf(),
            mmu.wf(),
        ensures
            final(self).env() == old(self).env(),
            match block(old(self).env(), mmu.view(), old(self)@, cycles as nat) {
                Ok(view) => r is Ok && final(self)@ == view && view.wf(),
                Err(e) => r == Err::<(), AssembleError>(e),
            },
            r is Ok ==> old(self)@.pc <= final(self)@.pc && final(self)@.pc - old(self)@.pc
                <= 0xffff_ffff,
            r is Ok ==> covered(final(self)@.pc - old(self)@.pc, cycles as nat),
    {
        let ghost env = self.env;
        let ghost goal = block(env, mmu.view(), old(self)@, cycles as nat);
        let mut remaining: usize = cycles;
        while remaining > 0
            invariant
                self@.wf(),
                mmu.wf(),
                self.env == env,
                old(self).pc <= self.pc,
                self.pc == old(self).pc || self.pc <= 0xC000_0003,
                block(env, mmu.view(), self@, remaining as nat) == goal,
                env == old(self).env,
                goal == block(env, mmu.view(), old(self)@, cycles as nat),
                remaining <= cycles,
                (self.pc - old(self).pc) % 4 == 0,
                (self.pc - old(self).pc) + 4 * instructions_within(remaining as nat) <= 4
                    * instructions_within(cycles as nat),
                remaining == cycles || self.pc - old(self).pc >= 4,
            decreases remaining,
        {
            let ghost before = self@;
            let status = match self.compile_step(cpu, mmu) {
                Ok(status) => status,
                Err(e) => {
                    return Err(e);
                },
            };
            proof {
                assert(step(env, mmu.view(), before) == Ok::<
                    (CompilerView, AssembleStatus),
                    AssembleError,
                >((self@, status)));
            }
            remaining = if remaining >= 5 {
                remaining - 5
            } else {
                0
            };
            match status {
                AssembleStatus::Continue => {},
                AssembleStatus::InvalidateCache => {
                    return self.emit_epilogue();
                },
                AssembleStatus::Branch => {
                    return Ok(());
                },
            }
        }
        self.emit_epilogue()
    }

    /// Translates the block and encodes the host code. Returns the machine
    /// code and the number of guest bytes that the block covers.
    pub fn compile(self, cpu: &Cpu, mmu: &MemoryManager, cycles: usize) -> (r: Result<
        (Vec<u8>, usize),
        AssembleError,
    >)
        requires
            self@.wf(),
            mmu.wf(),
        ensures
            match compilation(self.env(), mmu.view(), self@, cycles as nat) {
                Ok((bytes, len)) => r matches Ok((code, n)) && code@ == bytes && n == len
                    && covered(len, cycles as nat),
                Err(e) => r == Err::<(Vec<u8>, usize), AssembleError>(e),
            },
    {
        let mut compiler = self;
        let initial_pc = compiler.pc;
        match compiler.compile_block(cpu, mmu, cycles) {
            Ok(_) => {},
            Err(e) => {
                return Err(e);
            },
        }
        proof {
            lemma_fault_free(compiler@.code, compiler@.code.len());
        }
        let compiled = match assemble(compiler.code.as_slice()) {
            Ok(bytes) => bytes,
            Err(e) => {
                return Err(AssembleError::Asm(e));
            },
        };
        let len = (compiler.pc - initial_pc) as usize;
        Ok((compiled, len))
    }
}

/// How many instructions a budget of clocks allows: one for every five
/// clocks, and one for what is left.
pub open spec fn instructions_within(cycles: nat) -> int {
    (cycles as int + 4) / 5
}

/// What holds of the number of guest bytes that a block covers, translated
/// within a budget: four for each instruction, at least one instruction
/// where there is a budget at all, and no more than the budget allows.
pub open spec fn covered(len: int, cycles: nat) -> bool {
    &&& len % 4 == 0
    &&& 0 <= len <= 4 * instructions_within(cycles)
    &&& cycles > 0 ==> len >= 4
}

/// The machine code of a block and the number of guest bytes that it
/// covers, or why there is none: the block cannot be translated, or the
/// encoder has no machine code for its host code. The assembler takes every
/// instruction that the translator emits, so nothing else stands in the
/// way.
pub open spec fn compilation(
    env: Env,
    memory: Map<usize, crate::utils::btree_range::RangeItem<crate::mmu::memory::MemoryUnits>>,
    s: CompilerView,
    cycles: nat,
) -> Result<(Seq<u8>, int), AssembleError> {
    match block(env, memory, s, cycles) {
        Err(e) => Err(e),
        Ok(view) => if encodes(view.code, 0) {
            Ok((encoded(view.code, 0), view.pc - s.pc))
        } else {
            Err(AssembleError::Asm(EncodingError::Encoder))
        },
    }
}

/// Every guest register among the bindings exists, if every bound one does.
pub proof fn lemma_bindings_exist(regs: Map<u16, crate::jit::tables::HostRegister>, n: nat)
    requires
        forall|k: u16| #[trigger] regs.contains_key(k) ==> k < 32 || k == 256,
        n <= 257,
    ensures
        forall|j: int|
            0 <= j < crate::jit::register::bindings_below(regs, n).len() ==> guest_exists(
                (#[trigger] crate::jit::register::bindings_below(regs, n)[j]).0,
            ),
    decreases n,
{
    if n > 0 {
        lemma_bindings_exist(regs, (n - 1) as nat);
        let k = (n - 1) as u16;
        let below = crate::jit::register::bindings_below(regs, (n - 1) as nat);
        let all = crate::jit::register::bindings_below(regs, n);
        if regs.contains_key(k) {
            assert(k < 32 || k == 256);
            assert(guest_exists(GuestRegister::of_code(k)));
            assert forall|j: int| 0 <= j < all.len() implies guest_exists((#[trigger] all[j]).0) by {
                if j < below.len() {
                    assert(all[j] == below[j]);
                }
            }
        }
    }
}

} // verus!
