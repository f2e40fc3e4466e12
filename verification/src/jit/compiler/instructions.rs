//! The lowering of each guest instruction, the calls into the host and the
//! hand-over to the engine at the end of a block.

use crate::codegen::call::{
    after_spill, argument_reads, argument_register, argument_register_at,
    count_register_arguments, lemma_after_spill_wf, lemma_no_spills_wf, lemma_spills_after_wf,
    no_spills, spill_area, spill_needed, spills_after, spills_wf, CallArgument, SpillState,
};
use crate::codegen::register::Register;
use crate::cpu::instruction::{ImmediateType, Instruction, JumpType, RegisterType};
use crate::jit::assembler::{BinaryOp, Extension, HostInst, UnaryOp};
use crate::jit::compiler::{
    follows, follows_unit, AssembleError, AssembleStatus, Compiler, CompilerView, Env,
};
use crate::jit::interruption::Interruption;
use vstd::prelude::*;

verus! {

/// How many arguments a call into the host passes at most.
pub const MAX_HOST_ARGUMENTS: usize = 6;

/// The 16-bit immediate sign-extended to 64 bits.
pub open spec fn sign_extended(imm: u16) -> u64 {
    if imm >= 0x8000 {
        (0xffff_ffff_ffff_0000 + imm) as u64
    } else {
        imm as u64
    }
}

/// The 16-bit immediate sign-extended to 32 bits.
pub open spec fn sign_extended_32(imm: u16) -> u64 {
    if imm >= 0x8000 {
        (0xffff_0000 + imm) as u64
    } else {
        imm as u64
    }
}

/// The upper immediate: `imm << 16`.
pub open spec fn upper(imm: u16) -> u64 {
    (imm * 0x1_0000) as u64
}

/// The target of a branch at `pc` with the offset `off`: `pc` plus the
/// offset, sign-extended and counted in words.
pub open spec fn branch_target(pc: u64, off: u16) -> u64 {
    if off >= 0x8000 {
        pc.wrapping_add((off * 4) as u64).wrapping_sub(0x4_0000)
    } else {
        pc.wrapping_add((off * 4) as u64)
    }
}

/// The instructions that move argument `i` into its register, from the
/// spill state `st` that the earlier arguments left.
pub open spec fn argument_insts(args: Seq<CallArgument>, st: SpillState, i: int) -> Seq<HostInst> {
    let dst = argument_register(i);
    let st1 = after_spill(args, st, dst);
    (if spill_needed(args, st, dst) {
        seq![HostInst::Store(Register::Rsp, st1.stack_index as i32, dst)]
    } else {
        seq![]
    }) + (match args[i] {
        CallArgument::Register(src) => match st1.saved[src.num()] {
            Some(slot) => seq![HostInst::Load(dst, Register::Rsp, slot as i32)],
            None => seq![HostInst::Binary(BinaryOp::Mov, dst, src)],
        },
        CallArgument::Value(v) => seq![HostInst::MovImm(dst, v)],
    })
}

/// The instructions that move the first `n` arguments.
pub open spec fn arguments_insts(args: Seq<CallArgument>, n: nat) -> Seq<HostInst>
    decreases n,
{
    if n == 0 {
        seq![]
    } else {
        arguments_insts(args, (n - 1) as nat) + argument_insts(
            args,
            spills_after(args, (n - 1) as nat),
            n - 1,
        )
    }
}

/// The call itself: the address goes into `rax`, the stack is aligned to 16
/// bytes with its old low byte kept in `bl`, and the alignment is undone
/// after the call.
pub open spec fn aligned_call(function: u64) -> Seq<HostInst> {
    seq![
        HostInst::MovImm(Register::Rax, function),
        HostInst::Unary(UnaryOp::Push, Register::Rbx),
        HostInst::SaveStackLow,
        HostInst::AndImm(Register::Rsp, -16i32),
        HostInst::Unary(UnaryOp::Call, Register::Rax),
        HostInst::RestoreStackLow,
        HostInst::Unary(UnaryOp::Pop, Register::Rbx),
    ]
}

/// A call of the host function at `function`: the state pointer is pushed,
/// every bound guest register is written back, the arguments are moved into
/// the argument registers, the function is called on an aligned stack, and
/// the state pointer is popped.
pub open spec fn wrap_call(env: Env, s: CompilerView, args: Seq<CallArgument>, function: u64) -> Result<
    CompilerView,
    AssembleError,
> {
    if args.len() > MAX_HOST_ARGUMENTS {
        Err(AssembleError::TooManyArguments)
    } else {
        let synced = s.emit(HostInst::Unary(UnaryOp::Push, Register::Rsi)).sync_all(env);
        let reserved = if spill_area(args) > 0 {
            synced.emit(HostInst::SubImm(Register::Rsp, spill_area(args) as u32))
        } else {
            synced
        };
        let moved = reserved.emit_all(arguments_insts(args, args.len()));
        let released = if spill_area(args) > 0 {
            moved.emit(HostInst::AddImm(Register::Rsp, spill_area(args) as u32))
        } else {
            moved
        };
        Ok(
            released.emit_all(aligned_call(function)).emit(
                HostInst::Unary(UnaryOp::Pop, Register::Rsi),
            ),
        )
    }
}

/// The instructions that write an interruption and the resume address into
/// the state and give control back: the tag of the interruption, its
/// payload from `data` if it has one, and the address that follows the jump
/// to the trampoline, computed by the host function at `get_rip_value`.
pub open spec fn handover(env: Env, tag: u8, data: Option<Register>) -> Seq<HostInst> {
    seq![
        HostInst::Unary(UnaryOp::Push, Register::R14),
        HostInst::Unary(UnaryOp::Push, Register::R15),
        HostInst::MovImm(Register::R14, env.state.interruption()),
        HostInst::StoreByte(Register::R14, tag),
    ] + (match data {
        Some(reg) => seq![HostInst::Store(Register::R14, 8, reg)],
        None => seq![],
    }) + seq![
        HostInst::MovImm(Register::R14, env.state.resume()),
        HostInst::MovImm32(Register::Rdi, 0x0a),
        HostInst::MovImm(Register::Rax, env.bridge.get_rip_value),
        HostInst::Unary(UnaryOp::Call, Register::Rax),
        HostInst::Store(Register::R14, 0, Register::Rax),
        HostInst::Unary(UnaryOp::Pop, Register::R15),
        HostInst::Unary(UnaryOp::Pop, Register::R14),
        HostInst::Unary(UnaryOp::Jmp, Register::R13),
    ]
}

/// The suspension of a block: everything is written back, the pushed
/// registers are popped, and the interruption is handed over.
pub open spec fn interruption(env: Env, s: CompilerView, tag: u8, data: Option<Register>) -> CompilerView {
    s.sync_all(env).restore().emit_all(handover(env, tag, data))
}

/// The end of every jump: the target in `r15` is looked up in the jump
/// table, the block suspends with the jump as its interruption, and where
/// it is resumed it jumps to the host address that the engine left in
/// `r15`.
pub open spec fn jump_through_table(env: Env, s: CompilerView) -> Result<
    CompilerView,
    AssembleError,
> {
    match wrap_call(
        env,
        s,
        seq![
            CallArgument::Value(env.state.address()),
            CallArgument::Value(env.jump_table),
            CallArgument::Register(Register::R15),
        ],
        env.bridge.get_host_jump_addr,
    ) {
        Ok(called) => Ok(
            interruption(env, called, 1, Some(Register::R15)).emit(
                HostInst::Unary(UnaryOp::Jmp, Register::R15),
            ),
        ),
        Err(e) => Err(e),
    }
}

/// `LUI rt, imm`: `rt = imm << 16`.
pub open spec fn lui(env: Env, s: CompilerView, inst: ImmediateType) -> Result<
    CompilerView,
    AssembleError,
> {
    match s.cpu_register(env, inst.rt) {
        Ok((s1, rt)) => Ok(s1.emit(HostInst::MovImm(rt, upper(inst.imm)))),
        Err(e) => Err(e),
    }
}

/// `op rd, rs, rt` for a logical operation: `rd = rs op rt`, computed in
/// the scratch register, and negated afterwards if `negate` says so.
pub open spec fn logical(
    env: Env,
    s: CompilerView,
    op: BinaryOp,
    inst: RegisterType,
    negate: bool,
) -> Result<CompilerView, AssembleError> {
    match s.cpu_register(env, inst.rd) {
        Err(e) => Err(e),
        Ok((s1, rd)) => match s1.cpu_register(env, inst.rs) {
            Err(e) => Err(e),
            Ok((s2, rs)) => match s2.cpu_register(env, inst.rt) {
                Err(e) => Err(e),
                Ok((s3, rt)) => {
                    let done = s3.emit(HostInst::Binary(BinaryOp::Mov, Register::R14, rs)).emit(
                        HostInst::Binary(op, Register::R14, rt),
                    ).emit(HostInst::Binary(BinaryOp::Mov, rd, Register::R14));
                    Ok(
                        if negate {
                            done.emit(HostInst::Unary(UnaryOp::Not, rd))
                        } else {
                            done
                        },
                    )
                },
            },
        },
    }
}

/// `opI rt, rs, imm` for a logical operation: `rt = rs op imm`, the
/// immediate zero-extended.
pub open spec fn logical_immediate(
    env: Env,
    s: CompilerView,
    op: BinaryOp,
    inst: ImmediateType,
) -> Result<CompilerView, AssembleError> {
    match s.cpu_register(env, inst.rt) {
        Err(e) => Err(e),
        Ok((s1, rt)) => match s1.cpu_register(env, inst.rs) {
            Err(e) => Err(e),
            Ok((s2, rs)) => Ok(
                s2.emit(HostInst::MovImm(Register::R14, inst.imm as u64)).emit(
                    HostInst::Binary(op, Register::R14, rs),
                ).emit(HostInst::Binary(BinaryOp::Mov, rt, Register::R14)),
            ),
        },
    }
}

/// `ADDI rt, rs, imm` and `ADDIU rt, rs, imm`: the immediate is
/// sign-extended to 32 bits and added to the low 32 bits of `rs`, and the
/// sum is sign-extended to 64 bits.
pub open spec fn add_immediate(env: Env, s: CompilerView, inst: ImmediateType) -> Result<
    CompilerView,
    AssembleError,
> {
    match s.cpu_register(env, inst.rt) {
        Err(e) => Err(e),
        Ok((s1, rt)) => match s1.cpu_register(env, inst.rs) {
            Err(e) => Err(e),
            Ok((s2, rs)) => Ok(
                s2.emit(HostInst::MovImm(Register::R14, sign_extended_32(inst.imm))).emit(
                    HostInst::Add32(Register::R14, rs),
                ).emit(HostInst::Extend(Extension::SignDword, rt)),
            ),
        },
    }
}

/// The address of a load or store in `r14`: `rs + sign_extend(imm)`.
pub open spec fn effective_address(s: CompilerView, rs: Register, imm: u16) -> CompilerView {
    s.emit(HostInst::MovImm(Register::R14, sign_extended(imm))).emit(
        HostInst::Binary(BinaryOp::Add, Register::R14, rs),
    )
}

/// A load: the host function at `reader` reads guest memory at
/// `rs + sign_extend(imm)`, and what it returns is widened into `rt`.
pub open spec fn load(
    env: Env,
    s: CompilerView,
    inst: ImmediateType,
    reader: u64,
    widen: HostInst,
) -> Result<CompilerView, AssembleError> {
    match s.cpu_register(env, inst.rs) {
        Err(e) => Err(e),
        Ok((s1, rs)) => match wrap_call(
            env,
            effective_address(s1, rs, inst.imm),
            seq![
                CallArgument::Value(env.state.address()),
                CallArgument::Register(Register::R14),
            ],
            reader,
        ) {
            Err(e) => Err(e),
            Ok(called) => match called.emit(
                HostInst::Binary(BinaryOp::Mov, Register::R14, Register::Rax),
            ).cpu_register(env, inst.rt) {
                Err(e) => Err(e),
                Ok((s3, rt)) => Ok(s3.emit_all(widened(widen, rt))),
            },
        },
    }
}

/// The widening move into `rt`: `widen` with `rt` as its destination. What
/// is no extension stands for the low 32 bits of `r14` with zeros above
/// them: `rt` is cleared, and the low half of `r14` is added to its low
/// half, which leaves zeros in the upper half.
pub open spec fn widened(widen: HostInst, rt: Register) -> Seq<HostInst> {
    match widen {
        HostInst::Extend(how, _) => seq![HostInst::Extend(how, rt)],
        _ => seq![HostInst::MovImm32(rt, 0), HostInst::Add32(rt, Register::R14)],
    }
}

/// `SW rt, imm(rs)`: the host stores the low 32 bits of `rt` at
/// `rs + sign_extend(imm)`.
pub open spec fn sw(env: Env, s: CompilerView, inst: ImmediateType) -> Result<
    CompilerView,
    AssembleError,
> {
    match s.cpu_register(env, inst.rs) {
        Err(e) => Err(e),
        Ok((s1, rs)) => match s1.cpu_register(env, inst.rt) {
            Err(e) => Err(e),
            Ok((s2, rt)) => wrap_call(
                env,
                effective_address(s2, rs, inst.imm),
                seq![
                    CallArgument::Value(env.state.address()),
                    CallArgument::Register(Register::R14),
                    CallArgument::Register(rt),
                ],
                env.bridge.mmu_store_dword,
            ),
        },
    }
}

/// Where a jump goes: the upper bits of `pc`, and below them the target,
/// which counts words.
pub open spec fn jump_address(pc: u64, target: u32) -> u64 {
    (pc & 0xffff_ffff_f000_0000) | (((target & 0x03ff_ffff) << 2) as u64)
}

/// The target of a jump in `r15`.
pub open spec fn jump_target(s: CompilerView, inst: JumpType) -> CompilerView {
    s.emit(HostInst::MovImm(Register::R15, jump_address(s.pc, inst.target)))
}

/// `J target`.
pub open spec fn j(env: Env, s: CompilerView, inst: JumpType) -> Result<
    CompilerView,
    AssembleError,
> {
    jump_through_table(env, jump_target(s, inst))
}

/// `JAL target`: as `J`, and `r31 = pc + 8`.
pub open spec fn jal(env: Env, s: CompilerView, inst: JumpType) -> Result<
    CompilerView,
    AssembleError,
> {
    match s.cpu_register(env, 31) {
        Err(e) => Err(e),
        Ok((s1, r31)) => jump_through_table(
            env,
            jump_target(s1.emit(HostInst::MovImm(r31, s.pc.wrapping_add(8))), inst),
        ),
    }
}

/// `JR rs`: `pc = rs`.
pub open spec fn jr(env: Env, s: CompilerView, inst: RegisterType) -> Result<
    CompilerView,
    AssembleError,
> {
    match s.cpu_register(env, inst.rs) {
        Err(e) => Err(e),
        Ok((s1, rs)) => jump_through_table(
            env,
            s1.emit(HostInst::Binary(BinaryOp::Mov, Register::R15, rs)),
        ),
    }
}

/// `BNE rs, rt, off`: where the registers differ the block goes on at the
/// branch target, else at the next instruction; either way it suspends.
/// The registers are compared while they hold the guest's values, before
/// anything is written back and before the pushed registers are popped;
/// neither a store nor a pop changes the outcome of the comparison, which
/// the jump to the label reads.
pub open spec fn bne(env: Env, s: CompilerView, inst: ImmediateType) -> Result<
    CompilerView,
    AssembleError,
> {
    match s.cpu_register(env, inst.rs) {
        Err(e) => Err(e),
        Ok((s1, rs)) => match s1.cpu_register(env, inst.rt) {
            Err(e) => Err(e),
            Ok((s2, rt)) => {
                let compared = s2.emit(HostInst::Binary(BinaryOp::Cmp, rs, rt)).sync_all(
                    env,
                ).restore().emit(HostInst::Je(1));
                match jump_through_table(
                    env,
                    compared.emit(HostInst::MovImm(Register::R15, branch_target(s.pc, inst.imm))),
                ) {
                    Err(e) => Err(e),
                    Ok(taken) => jump_through_table(
                        env,
                        taken.emit(HostInst::Label(1)).emit(
                            HostInst::MovImm(Register::R15, s.pc.wrapping_add(4)),
                        ),
                    ),
                }
            },
        }
    }
}

/// With the status that the lowering of an instruction ends in.
pub open spec fn with_status(
    r: Result<CompilerView, AssembleError>,
    status: AssembleStatus,
) -> Result<(CompilerView, AssembleStatus), AssembleError> {
    match r {
        Ok(s) => Ok((s, status)),
        Err(e) => Err(e),
    }
}

/// The lowering of one guest instruction.
pub open spec fn lowered(env: Env, s: CompilerView, instruction: Instruction) -> Result<
    (CompilerView, AssembleStatus),
    AssembleError,
> {
    match instruction {
        Instruction::NOP => Ok((s, AssembleStatus::Continue)),
        Instruction::SpecialAND(inst) => with_status(
            logical(env, s, BinaryOp::And, inst, false),
            AssembleStatus::Continue,
        ),
        Instruction::ANDI(inst) => with_status(
            logical_immediate(env, s, BinaryOp::And, inst),
            AssembleStatus::Continue,
        ),
        Instruction::SpecialOR(inst) => with_status(
            logical(env, s, BinaryOp::Or, inst, false),
            AssembleStatus::Continue,
        ),
        Instruction::ORI(inst) => with_status(
            logical_immediate(env, s, BinaryOp::Or, inst),
            AssembleStatus::Continue,
        ),
        Instruction::SpecialXOR(inst) => with_status(
            logical(env, s, BinaryOp::Xor, inst, false),
            AssembleStatus::Continue,
        ),
        Instruction::XORI(inst) => with_status(
            logical_immediate(env, s, BinaryOp::Xor, inst),
            AssembleStatus::Continue,
        ),
        Instruction::SpecialNOR(inst) => with_status(
            logical(env, s, BinaryOp::Or, inst, true),
            AssembleStatus::Continue,
        ),
        Instruction::ADDI(inst) => with_status(
            add_immediate(env, s, inst),
            AssembleStatus::Continue,
        ),
        Instruction::ADDIU(inst) => with_status(
            add_immediate(env, s, inst),
            AssembleStatus::Continue,
        ),
        Instruction::BNE(inst) => with_status(bne(env, s, inst), AssembleStatus::Branch),
        Instruction::J(inst) => with_status(j(env, s, inst), AssembleStatus::Branch),
        Instruction::JAL(inst) => with_status(jal(env, s, inst), AssembleStatus::Branch),
        Instruction::SpecialJR(inst) => with_status(jr(env, s, inst), AssembleStatus::Branch),
        Instruction::SW(inst) => with_status(sw(env, s, inst), AssembleStatus::InvalidateCache),
        Instruction::LUI(inst) => with_status(lui(env, s, inst), AssembleStatus::Continue),
        Instruction::LB(inst) => with_status(
            load(
                env,
                s,
                inst,
                env.bridge.mmu_read_byte,
                HostInst::Extend(Extension::SignByte, Register::R14),
            ),
            AssembleStatus::Continue,
        ),
        Instruction::LBU(inst) => with_status(
            load(
                env,
                s,
                inst,
                env.bridge.mmu_read_byte,
                HostInst::Extend(Extension::ZeroByte, Register::R14),
            ),
            AssembleStatus::Continue,
        ),
        Instruction::LH(inst) => with_status(
            load(
                env,
                s,
                inst,
                env.bridge.mmu_read_word,
                HostInst::Extend(Extension::SignWord, Register::R14),
            ),
            AssembleStatus::Continue,
        ),
        Instruction::LHU(inst) => with_status(
            load(
                env,
                s,
                inst,
                env.bridge.mmu_read_word,
                HostInst::Extend(Extension::ZeroWord, Register::R14),
            ),
            AssembleStatus::Continue,
        ),
        Instruction::LW(inst) => with_status(
            load(
                env,
                s,
                inst,
                env.bridge.mmu_read_dword,
                HostInst::Extend(Extension::SignDword, Register::R14),
            ),
            AssembleStatus::Continue,
        ),
        Instruction::LWU(inst) => with_status(
            load(
                env,
                s,
                inst,
                env.bridge.mmu_read_dword,
                HostInst::Binary(BinaryOp::Mov, Register::R14, Register::R14),
            ),
            AssembleStatus::Continue,
        ),
        _ => Err(AssembleError::Unimplemented),
    }
}

/// The 16-bit immediate sign-extended to 64 bits.
pub fn sign_extend(imm: u16) -> (r: u64)
    ensures
        r == sign_extended(imm),
{
    if imm >= 0x8000 {
        0xffff_ffff_ffff_0000u64 + imm as u64
    } else {
        imm as u64
    }
}

/// The 16-bit immediate sign-extended to 32 bits.
pub fn sign_extend_32(imm: u16) -> (r: u64)
    ensures
        r == sign_extended_32(imm),
{
    if imm >= 0x8000 {
        0xffff_0000u64 + imm as u64
    } else {
        imm as u64
    }
}

/// The target of a branch at `pc` with the offset `off`.
pub fn branch_target_of(pc: u64, off: u16) -> (r: u64)
    ensures
        r == branch_target(pc, off),
{
    let delta: u64 = (off as u64) * 4;
    if off >= 0x8000 {
        pc.wrapping_add(delta).wrapping_sub(0x4_0000)
    } else {
        pc.wrapping_add(delta)
    }
}

/// Computes where a jump goes.
pub fn jump_address_of(pc: u64, target: u32) -> (r: u64)
    ensures
        r == jump_address(pc, target),
{
    (pc & 0xffff_ffff_f000_0000) | (((target & 0x03ff_ffff) << 2) as u64)
}

/// A jump goes to the boundary of an instruction: its address is a
/// multiple of four.
pub proof fn lemma_jump_address_is_aligned(pc: u64, target: u32)
    ensures
        jump_address(pc, target) % 4 == 0,
        jump_address(pc, target) & 0xffff_ffff_f000_0000 == pc & 0xffff_ffff_f000_0000,
        jump_address(pc, target) & 0x0fff_ffff == ((target & 0x03ff_ffff) as u64) * 4,
{
    let t = target & 0x03ff_ffff;
    let low = (t << 2) as u64;
    let high = pc & 0xffff_ffff_f000_0000;
    assert(low == (t as u64) * 4 && low < 0x1000_0000 && low % 4 == 0) by (bit_vector)
        requires
            t == target & 0x03ff_ffff,
            low == (t << 2) as u64,
    ;
    assert((high | low) % 4 == 0 && (high | low) & 0xffff_ffff_f000_0000 == high && (high | low)
        & 0x0fff_ffff == low) by (bit_vector)
        requires
            high == pc & 0xffff_ffff_f000_0000,
            low < 0x1000_0000,
            low % 4 == 0,
    ;
}

/// A branch from the boundary of an instruction goes to the boundary of an
/// instruction.
pub proof fn lemma_branch_target_is_aligned(pc: u64, off: u16)
    requires
        pc % 4 == 0,
    ensures
        branch_target(pc, off) % 4 == 0,
{
    let delta = (off * 4) as u64;
    assert(pc.wrapping_add(delta) % 4 == 0) by {
        if pc + delta > u64::MAX {
            assert(pc.wrapping_add(delta) == pc + delta - 0x1_0000_0000_0000_0000);
        }
    }
    let sum = pc.wrapping_add(delta);
    if sum < 0x4_0000 {
        assert(sum.wrapping_sub(0x4_0000) == sum - 0x4_0000 + 0x1_0000_0000_0000_0000);
    }
}

impl Compiler {
    /// Emits the moves of the arguments into the argument registers.
    fn emit_arguments(&mut self, args: &[CallArgument])
        requires
            args@.len() <= 6,
        ensures
            final(self)@ == old(self)@.emit_all(arguments_insts(args@, args@.len())),
            final(self).kept(old(self)),
            old(self)@.wf() ==> final(self)@.wf(),
    {
        let area: usize = 8 * count_register_arguments(args);
        let mut stack_index: usize = area;
        let mut saved: Vec<Option<usize>> = Vec::new();
        let mut k: usize = 0;
        while k < 16
            invariant
                k <= 16,
                saved@.len() == k,
                forall|n: int| 0 <= n < k ==> saved@[n] is None,
            decreases 16 - k,
        {
            saved.push(None);
            k = k + 1;
        }
        proof {
            assert(saved@ =~= no_spills(args@).saved);
            lemma_no_spills_wf(args@);
            assert(self@.code =~= old(self)@.code + arguments_insts(args@, 0));
        }
        let mut i: usize = 0;
        while i < args.len()
            invariant
                i <= args@.len() <= 6,
                area == spill_area(args@),
                spills_after(args@, i as nat) == (SpillState {
                    stack_index: stack_index as int,
                    saved: saved@,
                }),
                spills_wf(args@, spills_after(args@, i as nat)),
                self@ == old(self)@.emit_all(arguments_insts(args@, i as nat)),
                self.kept(old(self)),
                old(self)@.wf() ==> self@.wf(),
            decreases args@.len() - i,
        {
            let ghost st = spills_after(args@, i as nat);
            let ghost before = self@.code;
            let dst = argument_register_at(i);
            proof {
                lemma_after_spill_wf(args@, st, dst);
                lemma_spills_after_wf(args@, (i + 1) as nat);
            }
            let n = dst.number() as usize;
            if argument_reads(args, dst) && saved[n].is_none() {
                stack_index = stack_index - 8;
                saved[n] = Some(stack_index);
                self.emit(HostInst::Store(Register::Rsp, stack_index as i32, dst));
            }
            match args[i] {
                CallArgument::Register(src) => {
                    match saved[src.number() as usize] {
                        Some(slot) => {
                            self.emit(HostInst::Load(dst, Register::Rsp, slot as i32));
                        },
                        None => {
                            self.emit(HostInst::Binary(BinaryOp::Mov, dst, src));
                        },
                    }
                },
                CallArgument::Value(v) => {
                    self.emit(HostInst::MovImm(dst, v));
                },
            }
            proof {
                assert(self@.code =~= before + argument_insts(args@, st, i as int));
                assert(self@.code =~= old(self)@.code + arguments_insts(args@, (i + 1) as nat));
            }
            i = i + 1;
        }
    }

    /// Emits a call of the host function at `function` with the given
    /// arguments: everything that lives in host registers is written back
    /// first, and the call runs on an aligned stack.
    pub fn wrap_call(&mut self, args: &[CallArgument], function: u64) -> (r: Result<
        (),
        AssembleError,
    >)
        requires
            old(self)@.wf(),
        ensures
            follows_unit(wrap_call(old(self).env(), old(self)@, args@, function), final(self)@, r),
            final(self).kept(old(self)),
    {
        if args.len() > MAX_HOST_ARGUMENTS {
            return Err(AssembleError::TooManyArguments);
        }
        self.emit(HostInst::Unary(UnaryOp::Push, Register::Rsi));
        self.sync_all_registers();
        let area: usize = 8 * count_register_arguments(args);
        if area > 0 {
            self.emit(HostInst::SubImm(Register::Rsp, area as u32));
        }
        self.emit_arguments(args);
        if area > 0 {
            self.emit(HostInst::AddImm(Register::Rsp, area as u32));
        }
        let ghost released = self@;
        self.emit(HostInst::MovImm(Register::Rax, function));
        self.emit(HostInst::Unary(UnaryOp::Push, Register::Rbx));
        self.emit(HostInst::SaveStackLow);
        self.emit(HostInst::AndImm(Register::Rsp, -16i32));
        self.emit(HostInst::Unary(UnaryOp::Call, Register::Rax));
        self.emit(HostInst::RestoreStackLow);
        self.emit(HostInst::Unary(UnaryOp::Pop, Register::Rbx));
        proof {
            assert(self@.code =~= released.code + aligned_call(function));
        }
        self.emit(HostInst::Unary(UnaryOp::Pop, Register::Rsi));
        Ok(())
    }

    /// Emits the suspension of the block with the given interruption, whose
    /// payload, if it has one, is taken from `data_reg`.
    pub fn emit_interruption(&mut self, interruption: Interruption, data_reg: Option<Register>)
        requires
            old(self)@.wf(),
        ensures
            final(self)@ == self::interruption(
                old(self).env(),
                old(self)@,
                interruption.tag(),
                data_reg,
            ),
            final(self)@.wf(),
            final(self).kept(old(self)),
    {
        self.sync_all_registers();
        self.restore_registers();
        let ghost restored = self@;
        let tag = interruption.discriminant();
        let state = self.environment().state;
        let get_rip_value = self.environment().bridge.get_rip_value;
        self.emit(HostInst::Unary(UnaryOp::Push, Register::R14));
        self.emit(HostInst::Unary(UnaryOp::Push, Register::R15));
        self.emit(HostInst::MovImm(Register::R14, state.interruption_addr()));
        self.emit(HostInst::StoreByte(Register::R14, tag));
        if let Some(reg) = data_reg {
            self.emit(HostInst::Store(Register::R14, 8, reg));
        }
        self.emit(HostInst::MovImm(Register::R14, state.resume_addr()));
        self.emit(HostInst::MovImm32(Register::Rdi, 0x0a));
        self.emit(HostInst::MovImm(Register::Rax, get_rip_value));
        self.emit(HostInst::Unary(UnaryOp::Call, Register::Rax));
        self.emit(HostInst::Store(Register::R14, 0, Register::Rax));
        self.emit(HostInst::Unary(UnaryOp::Pop, Register::R15));
        self.emit(HostInst::Unary(UnaryOp::Pop, Register::R14));
        self.emit(HostInst::Unary(UnaryOp::Jmp, Register::R13));
        proof {
            assert(self@.code =~= restored.code + handover(
                old(self).env(),
                interruption.tag(),
                data_reg,
            ));
        }
    }

    /// Emits the end of a jump whose target is in `r15`.
    fn emit_jump_through_table(&mut self) -> (r: Result<(), AssembleError>)
        requires
            old(self)@.wf(),
        ensures
            follows_unit(jump_through_table(old(self).env(), old(self)@), final(self)@, r),
            final(self).kept(old(self)),
    {
        let env = self.environment();
        let args = [
            CallArgument::Value(env.state.state_ptr()),
            CallArgument::Value(env.jump_table),
            CallArgument::Register(Register::R15),
        ];
        proof {
            assert(args@ =~= seq![
                CallArgument::Value(env.state.address()),
                CallArgument::Value(env.jump_table),
                CallArgument::Register(Register::R15),
            ]);
        }
        match self.wrap_call(args.as_slice(), env.bridge.get_host_jump_addr) {
            Ok(()) => {},
            Err(e) => {
                return Err(e);
            },
        }
        self.emit_interruption(Interruption::PrepareJump(0), Some(Register::R15));
        self.emit(HostInst::Unary(UnaryOp::Jmp, Register::R15));
        Ok(())
    }

    /// `rt = imm << 16`
    pub fn emit_lui(&mut self, inst: ImmediateType) -> (r: Result<AssembleStatus, AssembleError>)
        requires
            old(self)@.wf(),
        ensures
            follows(
                with_status(lui(old(self).env(), old(self)@, inst), AssembleStatus::Continue),
                final(self)@,
                r,
            ),
            final(self).kept(old(self)),
    {
        let rt = match self.get_cpu_register(inst.rt) {
            Ok(reg) => reg,
            Err(e) => {
                return Err(e);
            },
        };
        self.emit(HostInst::MovImm(rt, (inst.imm as u64) * 0x1_0000));
        Ok(AssembleStatus::Continue)
    }

    /// `rd = rs op rt` for a logical operation, negated if `negate` says so.
    fn emit_logical(&mut self, op: BinaryOp, inst: RegisterType, negate: bool) -> (r: Result<
        AssembleStatus,
        AssembleError,
    >)
        requires
            old(self)@.wf(),
        ensures
            follows(
                with_status(
                    logical(old(self).env(), old(self)@, op, inst, negate),
                    AssembleStatus::Continue,
                ),
                final(self)@,
                r,
            ),
            final(self).kept(old(self)),
    {
        let rd = match self.get_cpu_register(inst.rd) {
            Ok(reg) => reg,
            Err(e) => {
                return Err(e);
            },
        };
        let rs = match self.get_cpu_register(inst.rs) {
            Ok(reg) => reg,
            Err(e) => {
                return Err(e);
            },
        };
        let rt = match self.get_cpu_register(inst.rt) {
            Ok(reg) => reg,
            Err(e) => {
                return Err(e);
            },
        };
        self.emit(HostInst::Binary(BinaryOp::Mov, Register::R14, rs));
        self.emit(HostInst::Binary(op, Register::R14, rt));
        self.emit(HostInst::Binary(BinaryOp::Mov, rd, Register::R14));
        if negate {
            self.emit(HostInst::Unary(UnaryOp::Not, rd));
        }
        Ok(AssembleStatus::Continue)
    }

    /// `rd = rs & rt`
    pub fn emit_and(&mut self, inst: RegisterType) -> (r: Result<AssembleStatus, AssembleError>)
        requires
            old(self)@.wf(),
        ensures
            follows(
                with_status(
                    logical(old(self).env(), old(self)@, BinaryOp::And, inst, false),
                    AssembleStatus::Continue,
                ),
                final(self)@,
                r,
            ),
            final(self).kept(old(self)),
    {
        self.emit_logical(BinaryOp::And, inst, false)
    }

    /// `rd = rs | rt`
    pub fn emit_or(&mut self, inst: RegisterType) -> (r: Result<AssembleStatus, AssembleError>)
        requires
            old(self)@.wf(),
        ensures
            follows(
                with_status(
                    logical(old(self).env(), old(self)@, BinaryOp::Or, inst, false),
                    AssembleStatus::Continue,
                ),
                final(self)@,
                r,
            ),
            final(self).kept(old(self)),
    {
        self.emit_logical(BinaryOp::Or, inst, false)
    }

    /// `rd = rs ^ rt`
    pub fn emit_xor(&mut self, inst: RegisterType) -> (r: Result<AssembleStatus, AssembleError>)
        requires
            old(self)@.wf(),
        ensures
            follows(
                with_status(
                    logical(old(self).env(), old(self)@, BinaryOp::Xor, inst, false),
                    AssembleStatus::Continue,
                ),
                final(self)@,
                r,
            ),
            final(self).kept(old(self)),
    {
        self.emit_logical(BinaryOp::Xor, inst, false)
    }

    /// `rd = !(rs | rt)`
    pub fn emit_nor(&mut self, inst: RegisterType) -> (r: Result<AssembleStatus, AssembleError>)
        requires
            old(self)@.wf(),
        ensures
            follows(
                with_status(
                    logical(old(self).env(), old(self)@, BinaryOp::Or, inst, true),
                    AssembleStatus::Continue,
                ),
                final(self)@,
                r,
            ),
            final(self).kept(old(self)),
    {
        self.emit_logical(BinaryOp::Or, inst, true)
    }

    /// `rt = rs op imm` for a logical operation.
    fn emit_logical_immediate(&mut self, op: BinaryOp, inst: ImmediateType) -> (r: Result<
        AssembleStatus,
        AssembleError,
    >)
        requires
            old(self)@.wf(),
        ensures
            follows(
                with_status(
                    logical_immediate(old(self).env(), old(self)@, op, inst),
                    AssembleStatus::Continue,
                ),
                final(self)@,
                r,
            ),
            final(self).kept(old(self)),
    {
        let rt = match self.get_cpu_register(inst.rt) {
            Ok(reg) => reg,
            Err(e) => {
                return Err(e);
            },
        };
        let rs = match self.get_cpu_register(inst.rs) {
            Ok(reg) => reg,
            Err(e) => {
                return Err(e);
            },
        };
        self.emit(HostInst::MovImm(Register::R14, inst.imm as u64));
        self.emit(HostInst::Binary(op, Register::R14, rs));
        self.emit(HostInst::Binary(BinaryOp::Mov, rt, Register::R14));
        Ok(AssembleStatus::Continue)
    }

    /// `rt = rs & imm`
    pub fn emit_andi(&mut self, inst: ImmediateType) -> (r: Result<AssembleStatus, AssembleError>)
        requires
            old(self)@.wf(),
        ensures
            follows(
                with_status(
                    logical_immediate(old(self).env(), old(self)@, BinaryOp::And, inst),
                    AssembleStatus::Continue,
                ),
                final(self)@,
                r,
            ),
            final(self).kept(old(self)),
    {
        self.emit_logical_immediate(BinaryOp::And, inst)
    }

    /// `rt = rs | imm`
    pub fn emit_ori(&mut self, inst: ImmediateType) -> (r: Result<AssembleStatus, AssembleError>)
        requires
            old(self)@.wf(),
        ensures
            follows(
                with_status(
                    logical_immediate(old(self).env(), old(self)@, BinaryOp::Or, inst),
                    AssembleStatus::Continue,
                ),
                final(self)@,
                r,
            ),
            final(self).kept(old(self)),
    {
        self.emit_logical_immediate(BinaryOp::Or, inst)
    }

    /// `rt = rs ^ imm`
    pub fn emit_xori(&mut self, inst: ImmediateType) -> (r: Result<AssembleStatus, AssembleError>)
        requires
            old(self)@.wf(),
        ensures
            follows(
                with_status(
                    logical_immediate(old(self).env(), old(self)@, BinaryOp::Xor, inst),
                    AssembleStatus::Continue,
                ),
                final(self)@,
                r,
            ),
            final(self).kept(old(self)),
    {
        self.emit_logical_immediate(BinaryOp::Xor, inst)
    }

    /// `rt = sign_extend(low32(rs) + sign_extend(imm))`
    pub fn emit_addi(&mut self, inst: ImmediateType) -> (r: Result<AssembleStatus, AssembleError>)
        requires
            old(self)@.wf(),
        ensures
            follows(
                with_status(
                    add_immediate(old(self).env(), old(self)@, inst),
                    AssembleStatus::Continue,
                ),
                final(self)@,
                r,
            ),
            final(self).kept(old(self)),
    {
        let rt = match self.get_cpu_register(inst.rt) {
            Ok(reg) => reg,
            Err(e) => {
                return Err(e);
            },
        };
        let rs = match self.get_cpu_register(inst.rs) {
            Ok(reg) => reg,
            Err(e) => {
                return Err(e);
            },
        };
        self.emit(HostInst::MovImm(Register::R14, sign_extend_32(inst.imm)));
        self.emit(HostInst::Add32(Register::R14, rs));
        self.emit(HostInst::Extend(Extension::SignDword, rt));
        Ok(AssembleStatus::Continue)
    }

    /// `rt = sign_extend(low32(rs) + sign_extend(imm))`
    pub fn emit_addiu(&mut self, inst: ImmediateType) -> (r: Result<AssembleStatus, AssembleError>)
        requires
            old(self)@.wf(),
        ensures
            follows(
                with_status(
                    add_immediate(old(self).env(), old(self)@, inst),
                    AssembleStatus::Continue,
                ),
                final(self)@,
                r,
            ),
            final(self).kept(old(self)),
    {
        self.emit_addi(inst)
    }

    /// The common part of the loads: the value read at
    /// `rs + sign_extend(imm)` by the host function at `reader` is widened
    /// into `rt`.
    pub fn emit_lx(&mut self, inst: ImmediateType, reader: u64, widen: HostInst) -> (r: Result<
        AssembleStatus,
        AssembleError,
    >)
        requires
            old(self)@.wf(),
        ensures
            follows(
                with_status(
                    load(old(self).env(), old(self)@, inst, reader, widen),
                    AssembleStatus::Continue,
                ),
                final(self)@,
                r,
            ),
            final(self).kept(old(self)),
    {
        let env = self.environment();
        let rs = match self.get_cpu_register(inst.rs) {
            Ok(reg) => reg,
            Err(e) => {
                return Err(e);
            },
        };
        self.emit(HostInst::MovImm(Register::R14, sign_extend(inst.imm)));
        self.emit(HostInst::Binary(BinaryOp::Add, Register::R14, rs));
        let args = [
            CallArgument::Value(env.state.state_ptr()),
            CallArgument::Register(Register::R14),
        ];
        proof {
            assert(args@ =~= seq![
                CallArgument::Value(env.state.address()),
                CallArgument::Register(Register::R14),
            ]);
        }
        match self.wrap_call(args.as_slice(), reader) {
            Ok(()) => {},
            Err(e) => {
                return Err(e);
            },
        }
        self.emit(HostInst::Binary(BinaryOp::Mov, Register::R14, Register::Rax));
        let rt = match self.get_cpu_register(inst.rt) {
            Ok(reg) => reg,
            Err(e) => {
                return Err(e);
            },
        };
        let ghost before = self@;
        match widen {
            HostInst::Extend(how, _) => {
                self.emit(HostInst::Extend(how, rt));
            },
            _ => {
                self.emit(HostInst::MovImm32(rt, 0));
                self.emit(HostInst::Add32(rt, Register::R14));
            },
        }
        proof {
            assert(self@.code =~= before.code + widened(widen, rt));
        }
        Ok(AssembleStatus::Continue)
    }

    /// `rt = sign_extend(byte at rs + imm)`
    pub fn emit_lb(&mut self, inst: ImmediateType) -> (r: Result<AssembleStatus, AssembleError>)
        requires
            old(self)@.wf(),
        ensures
            follows(
                lowered(old(self).env(), old(self)@, Instruction::LB(inst)),
                final(self)@,
                r,
            ),
            final(self).kept(old(self)),
    {
        let reader = self.environment().bridge.mmu_read_byte;
        self.emit_lx(inst, reader, HostInst::Extend(Extension::SignByte, Register::R14))
    }

    /// `rt = zero_extend(byte at rs + imm)`
    pub fn emit_lbu(&mut self, inst: ImmediateType) -> (r: Result<AssembleStatus, AssembleError>)
        requires
            old(self)@.wf(),
        ensures
            follows(
                lowered(old(self).env(), old(self)@, Instruction::LBU(inst)),
                final(self)@,
                r,
            ),
            final(self).kept(old(self)),
    {
        let reader = self.environment().bridge.mmu_read_byte;
        self.emit_lx(inst, reader, HostInst::Extend(Extension::ZeroByte, Register::R14))
    }

    /// `rt = sign_extend(half word at rs + imm)`
    pub fn emit_lh(&mut self, inst: ImmediateType) -> (r: Result<AssembleStatus, AssembleError>)
        requires
            old(self)@.wf(),
        ensures
            follows(
                lowered(old(self).env(), old(self)@, Instruction::LH(inst)),
                final(self)@,
                r,
            ),
            final(self).kept(old(self)),
    {
        let reader = self.environment().bridge.mmu_read_word;
        self.emit_lx(inst, reader, HostInst::Extend(Extension::SignWord, Register::R14))
    }

    /// `rt = zero_extend(half word at rs + imm)`
    pub fn emit_lhu(&mut self, inst: ImmediateType) -> (r: Result<AssembleStatus, AssembleError>)
        requires
            old(self)@.wf(),
        ensures
            follows(
                lowered(old(self).env(), old(self)@, Instruction::LHU(inst)),
                final(self)@,
                r,
            ),
            final(self).kept(old(self)),
    {
        let reader = self.environment().bridge.mmu_read_word;
        self.emit_lx(inst, reader, HostInst::Extend(Extension::ZeroWord, Register::R14))
    }

    /// `rt = sign_extend(word at rs + imm)`
    pub fn emit_lw(&mut self, inst: ImmediateType) -> (r: Result<AssembleStatus, AssembleError>)
        requires
            old(self)@.wf(),
        ensures
            follows(
                lowered(old(self).env(), old(self)@, Instruction::LW(inst)),
                final(self)@,
                r,
            ),
            final(self).kept(old(self)),
    {
        let reader = self.environment().bridge.mmu_read_dword;
        self.emit_lx(inst, reader, HostInst::Extend(Extension::SignDword, Register::R14))
    }

    /// `rt = word at rs + imm`
    pub fn emit_lwu(&mut self, inst: ImmediateType) -> (r: Result<AssembleStatus, AssembleError>)
        requires
            old(self)@.wf(),
        ensures
            follows(
                lowered(old(self).env(), old(self)@, Instruction::LWU(inst)),
                final(self)@,
                r,
            ),
            final(self).kept(old(self)),
    {
        let reader = self.environment().bridge.mmu_read_dword;
        self.emit_lx(inst, reader, HostInst::Binary(BinaryOp::Mov, Register::R14, Register::R14))
    }

    /// `word at rs + imm = low32(rt)`
    pub fn emit_sw(&mut self, inst: ImmediateType) -> (r: Result<AssembleStatus, AssembleError>)
        requires
            old(self)@.wf(),
        ensures
            follows(
                with_status(sw(old(self).env(), old(self)@, inst), AssembleStatus::InvalidateCache),
                final(self)@,
                r,
            ),
            final(self).kept(old(self)),
    {
        let env = self.environment();
        let rs = match self.get_cpu_register(inst.rs) {
            Ok(reg) => reg,
            Err(e) => {
                return Err(e);
            },
        };
        let rt = match self.get_cpu_register(inst.rt) {
            Ok(reg) => reg,
            Err(e) => {
                return Err(e);
            },
        };
        self.emit(HostInst::MovImm(Register::R14, sign_extend(inst.imm)));
        self.emit(HostInst::Binary(BinaryOp::Add, Register::R14, rs));
        let args = [
            CallArgument::Value(env.state.state_ptr()),
            CallArgument::Register(Register::R14),
            CallArgument::Register(rt),
        ];
        proof {
            assert(args@ =~= seq![
                CallArgument::Value(env.state.address()),
                CallArgument::Register(Register::R14),
                CallArgument::Register(rt),
            ]);
        }
        match self.wrap_call(args.as_slice(), env.bridge.mmu_store_dword) {
            Ok(()) => Ok(AssembleStatus::InvalidateCache),
            Err(e) => Err(e),
        }
    }

    /// Emits the target of a jump into `r15`.
    fn emit_jump_target(&mut self, inst: JumpType)
        ensures
            final(self)@ == jump_target(old(self)@, inst),
            final(self).kept(old(self)),
            old(self)@.wf() ==> final(self)@.wf(),
    {
        let pc = self.pc();
        self.emit(HostInst::MovImm(Register::R15, jump_address_of(pc, inst.target)));
    }

    /// `pc = (pc & 0xffff_ffff_f000_0000) | (target << 2)`
    pub fn emit_j(&mut self, inst: JumpType) -> (r: Result<AssembleStatus, AssembleError>)
        requires
            old(self)@.wf(),
        ensures
            follows(
                with_status(j(old(self).env(), old(self)@, inst), AssembleStatus::Branch),
                final(self)@,
                r,
            ),
            final(self).kept(old(self)),
    {
        self.emit_jump_target(inst);
        match self.emit_jump_through_table() {
            Ok(()) => Ok(AssembleStatus::Branch),
            Err(e) => Err(e),
        }
    }

    /// `r31 = pc + 8; pc = (pc & 0xffff_ffff_f000_0000) | (target << 2)`
    pub fn emit_jal(&mut self, inst: JumpType) -> (r: Result<AssembleStatus, AssembleError>)
        requires
            old(self)@.wf(),
        ensures
            follows(
                with_status(jal(old(self).env(), old(self)@, inst), AssembleStatus::Branch),
                final(self)@,
                r,
            ),
            final(self).kept(old(self)),
    {
        let pc = self.pc();
        let r31 = match self.get_cpu_register(31) {
            Ok(reg) => reg,
            Err(e) => {
                return Err(e);
            },
        };
        self.emit(HostInst::MovImm(r31, pc.wrapping_add(8)));
        self.emit_jump_target(inst);
        match self.emit_jump_through_table() {
            Ok(()) => Ok(AssembleStatus::Branch),
            Err(e) => Err(e),
        }
    }

    /// `pc = rs`
    pub fn emit_jr(&mut self, inst: RegisterType) -> (r: Result<AssembleStatus, AssembleError>)
        requires
            old(self)@.wf(),
        ensures
            follows(
                with_status(jr(old(self).env(), old(self)@, inst), AssembleStatus::Branch),
                final(self)@,
                r,
            ),
            final(self).kept(old(self)),
    {
        let rs = match self.get_cpu_register(inst.rs) {
            Ok(reg) => reg,
            Err(e) => {
                return Err(e);
            },
        };
        self.emit(HostInst::Binary(BinaryOp::Mov, Register::R15, rs));
        match self.emit_jump_through_table() {
            Ok(()) => Ok(AssembleStatus::Branch),
            Err(e) => Err(e),
        }
    }

    /// `if rs != rt { pc = pc + sign_extend(offset << 2) } else { pc = pc + 4 }`
    pub fn emit_bne(&mut self, inst: ImmediateType) -> (r: Result<AssembleStatus, AssembleError>)
        requires
            old(self)@.wf(),
        ensures
            follows(
                with_status(bne(old(self).env(), old(self)@, inst), AssembleStatus::Branch),
                final(self)@,
                r,
            ),
            final(self).kept(old(self)),
    {
        let pc = self.pc();
        let rs = match self.get_cpu_register(inst.rs) {
            Ok(reg) => reg,
            Err(e) => {
                return Err(e);
            },
        };
        let rt = match self.get_cpu_register(inst.rt) {
            Ok(reg) => reg,
            Err(e) => {
                return Err(e);
            },
        };
        self.emit(HostInst::Binary(BinaryOp::Cmp, rs, rt));
        self.sync_all_registers();
        self.restore_registers();
        self.emit(HostInst::Je(1));
        self.emit(HostInst::MovImm(Register::R15, branch_target_of(pc, inst.imm)));
        match self.emit_jump_through_table() {
            Ok(()) => {},
            Err(e) => {
                return Err(e);
            },
        }
        self.emit(HostInst::Label(1));
        self.emit(HostInst::MovImm(Register::R15, pc.wrapping_add(4)));
        match self.emit_jump_through_table() {
            Ok(()) => Ok(AssembleStatus::Branch),
            Err(e) => Err(e),
        }
    }

    /// Lowers one guest instruction.
    pub fn compile_instruction(&mut self, instruction: Instruction) -> (r: Result<
        AssembleStatus,
        AssembleError,
    >)
        requires
            old(self)@.wf(),
        ensures
            follows(lowered(old(self).env(), old(self)@, instruction), final(self)@, r),
            final(self).kept(old(self)),
    {
        match instruction {
            Instruction::NOP => Ok(AssembleStatus::Continue),
            Instruction::SpecialAND(inst) => self.emit_and(inst),
            Instruction::ANDI(inst) => self.emit_andi(inst),
            Instruction::SpecialOR(inst) => self.emit_or(inst),
            Instruction::ORI(inst) => self.emit_ori(inst),
            Instruction::SpecialXOR(inst) => self.emit_xor(inst),
            Instruction::XORI(inst) => self.emit_xori(inst),
            Instruction::SpecialNOR(inst) => self.emit_nor(inst),
            Instruction::ADDI(inst) => self.emit_addi(inst),
            Instruction::ADDIU(inst) => self.emit_addiu(inst),
            Instruction::BNE(inst) => self.emit_bne(inst),
            Instruction::J(inst) => self.emit_j(inst),
            Instruction::JAL(inst) => self.emit_jal(inst),
            Instruction::SpecialJR(inst) => self.emit_jr(inst),
            Instruction::SW(inst) => self.emit_sw(inst),
            Instruction::LUI(inst) => self.emit_lui(inst),
            Instruction::LB(inst) => self.emit_lb(inst),
            Instruction::LBU(inst) => self.emit_lbu(inst),
            Instruction::LH(inst) => self.emit_lh(inst),
            Instruction::LHU(inst) => self.emit_lhu(inst),
            Instruction::LW(inst) => self.emit_lw(inst),
            Instruction::LWU(inst) => self.emit_lwu(inst),
            _ => Err(AssembleError::Unimplemented),
        }
    }
}

} // verus!
