//! The `call_fn` sequence: arguments are moved into the System V argument
//! registers, and an argument register that a later argument still reads is
//! first spilled to a stack slot of its own. The call itself is made on a
//! stack that is aligned to 16 bytes.

use crate::codegen::assembler::{
    call_reg_bytes, emit_call_reg, emit_mov_load, emit_mov_reg_reg, emit_mov_store,
    emit_movabs_reg, emit_op_reg_imm, emit_pop, emit_push, mov_load_bytes, mov_reg_reg_bytes,
    mov_store_bytes, movabs_bytes, op_reg_imm_bytes, pop_bytes, push_bytes, EncodeError,
    Operation,
};
use crate::codegen::emitter::push_byte;
use crate::codegen::encoding::{modrm_byte, rex_byte, ModRM, Rex};
use crate::codegen::register::{lemma_register_of_num, register_of, Register};
use vstd::prelude::*;

verus! {

/// One argument of a call: the value of a register, or a constant.
#[derive(Debug, Clone, Copy, PartialEq, Eq, Structural)]
pub enum CallArgument {
    Register(Register),
    Value(u64),
}

/// How many arguments `call_fn` passes at most.
pub const MAX_CALL_ARGUMENTS: usize = 5;

/// The register that carries the argument at position `i`.
pub open spec fn argument_register(i: int) -> Register {
    if i == 0 {
        Register::Rdi
    } else if i == 1 {
        Register::Rsi
    } else if i == 2 {
        Register::Rdx
    } else if i == 3 {
        Register::Rcx
    } else if i == 4 {
        Register::R8
    } else {
        Register::R9
    }
}

/// The numbers of the registers among the arguments, in argument order.
pub open spec fn register_numbers(args: Seq<CallArgument>) -> Seq<int>
    decreases args.len(),
{
    if args.len() == 0 {
        seq![]
    } else {
        match args.last() {
            CallArgument::Register(r) => register_numbers(args.drop_last()).push(r.num()),
            CallArgument::Value(_) => register_numbers(args.drop_last()),
        }
    }
}

/// Whether some argument reads `reg`.
pub open spec fn reads_register(args: Seq<CallArgument>, reg: Register) -> bool {
    register_numbers(args).contains(reg.num())
}

/// The bytes of stack that the spill slots take: one slot per register
/// argument.
pub open spec fn spill_area(args: Seq<CallArgument>) -> int {
    8 * (register_numbers(args).len() as int)
}

/// Where the spilling stands: the lowest slot handed out so far, and for each
/// register number the slot that holds its value, if it was spilled.
pub struct SpillState {
    pub stack_index: int,
    pub saved: Seq<Option<usize>>,
}

/// Nothing spilled yet.
pub open spec fn no_spills(args: Seq<CallArgument>) -> SpillState {
    SpillState { stack_index: spill_area(args), saved: Seq::new(16, |n: int| None::<usize>) }
}

/// An argument register is spilled before it is overwritten when an argument
/// reads it and it has no slot yet.
pub open spec fn spill_needed(args: Seq<CallArgument>, st: SpillState, dst: Register) -> bool {
    reads_register(args, dst) && st.saved[dst.num()] is None
}

/// The state once `dst` is about to be overwritten.
pub open spec fn after_spill(args: Seq<CallArgument>, st: SpillState, dst: Register) -> SpillState {
    if spill_needed(args, st, dst) {
        SpillState {
            stack_index: st.stack_index - 8,
            saved: st.saved.update(dst.num(), Some((st.stack_index - 8) as usize)),
        }
    } else {
        st
    }
}

/// The state after the first `n` arguments were moved.
pub open spec fn spills_after(args: Seq<CallArgument>, n: nat) -> SpillState
    decreases n,
{
    if n == 0 {
        no_spills(args)
    } else {
        after_spill(args, spills_after(args, (n - 1) as nat), argument_register(n - 1))
    }
}

/// The bytes that move argument `i` into its register, from the state `st`
/// that the earlier arguments left: the spill of the register if it is
/// needed, then the move from the source, which is the source's slot if it
/// was spilled.
pub open spec fn argument_bytes(args: Seq<CallArgument>, st: SpillState, i: int) -> Seq<u8> {
    let dst = argument_register(i);
    let st1 = after_spill(args, st, dst);
    (if spill_needed(args, st, dst) {
        mov_store_bytes(Register::Rsp, st1.stack_index as i32, dst)
    } else {
        seq![]
    }) + (match args[i] {
        CallArgument::Register(src) => match st1.saved[src.num()] {
            Some(slot) => mov_load_bytes(dst, Register::Rsp, slot as i32),
            None => mov_reg_reg_bytes(dst, src),
        },
        CallArgument::Value(v) => movabs_bytes(dst, v),
    })
}

/// The bytes that move the first `n` arguments.
pub open spec fn arguments_bytes(args: Seq<CallArgument>, n: nat) -> Seq<u8>
    decreases n,
{
    if n == 0 {
        seq![]
    } else {
        arguments_bytes(args, (n - 1) as nat) + argument_bytes(
            args,
            spills_after(args, (n - 1) as nat),
            n - 1,
        )
    }
}

/// `mov bl, spl`: the low byte of the stack pointer is kept in `bl`.
pub open spec fn save_stack_low_bytes() -> Seq<u8> {
    seq![rex_byte(false, false, false, false), 0x88u8, modrm_byte(3, 4, 3)]
}

/// `mov spl, bl`: the low byte of the stack pointer is what `bl` kept.
pub open spec fn restore_stack_low_bytes() -> Seq<u8> {
    seq![rex_byte(false, false, false, false), 0x88u8, modrm_byte(3, 3, 4)]
}

/// `and rsp, -16`: the stack pointer goes down to a multiple of 16.
pub open spec fn align_stack_bytes() -> Seq<u8> {
    seq![rex_byte(true, false, false, false), 0x83u8, modrm_byte(3, 4, 4), 0xf0u8]
}

/// The call of the function whose address is in `rax`, on a stack aligned
/// to 16 bytes: `rbx` is pushed, the low byte of the stack pointer is kept
/// in `bl`, the stack pointer is aligned, the function is called, and the
/// stack pointer and `rbx` are restored. Aligning changes only the low four
/// bits of the stack pointer, and the called function preserves `rbx`.
pub open spec fn aligned_call_bytes() -> Seq<u8> {
    push_bytes(Register::Rbx) + save_stack_low_bytes() + align_stack_bytes() + call_reg_bytes(
        Register::Rax,
    ) + restore_stack_low_bytes() + pop_bytes(Register::Rbx)
}

/// The whole sequence of `call_fn funct(args)`: save `rax`, reserve the
/// spill slots, move the arguments, load the function's address into `rax`,
/// call it on an aligned stack, release the slots and restore `rax`.
pub open spec fn call_fn_bytes(funct: u64, args: Seq<CallArgument>) -> Seq<u8> {
    push_bytes(Register::Rax) + (if spill_area(args) > 0 {
        op_reg_imm_bytes(Operation::Sub, Register::Rsp, spill_area(args) as u32)
    } else {
        seq![]
    }) + arguments_bytes(args, args.len()) + movabs_bytes(Register::Rax, funct)
        + aligned_call_bytes() + (if spill_area(args) > 0 {
        op_reg_imm_bytes(Operation::Add, Register::Rsp, spill_area(args) as u32)
    } else {
        seq![]
    }) + pop_bytes(Register::Rax)
}

/// The bytes of `call_fn funct(args)`, or why there are none.
pub open spec fn call_fn_encoding(funct: u64, args: Seq<CallArgument>) -> Result<
    Seq<u8>,
    EncodeError,
> {
    if args.len() > MAX_CALL_ARGUMENTS {
        Err(EncodeError::TooManyArguments)
    } else {
        Ok(call_fn_bytes(funct, args))
    }
}

/// The numbers of the registers that have a slot.
pub open spec fn spilled(st: SpillState) -> Set<int> {
    Set::new(|n: int| 0 <= n < 16 && st.saved[n] is Some)
}

/// What holds of the spill state between two arguments: every spilled
/// register is read by some argument, every slot lies inside the reserved
/// area, and the slots handed out account for the area used up.
pub open spec fn spills_wf(args: Seq<CallArgument>, st: SpillState) -> bool {
    &&& st.saved.len() == 16
    &&& spilled(st).finite()
    &&& spilled(st).subset_of(register_numbers(args).to_set())
    &&& st.stack_index + 8 * spilled(st).len() == spill_area(args)
    &&& forall|n: int|
        0 <= n < 16 ==> (#[trigger] st.saved[n] matches Some(slot) ==> st.stack_index <= slot
            < spill_area(args))
}

/// The register numbers among the arguments grow by at most one per argument.
pub proof fn lemma_register_numbers_len(args: Seq<CallArgument>)
    ensures
        register_numbers(args).len() <= args.len(),
    decreases args.len(),
{
    if args.len() > 0 {
        lemma_register_numbers_len(args.drop_last());
    }
}

/// A register is read exactly when it stands among the arguments.
pub proof fn lemma_reads_register(args: Seq<CallArgument>, reg: Register)
    ensures
        reads_register(args, reg) <==> exists|i: int|
            0 <= i < args.len() && args[i] == CallArgument::Register(reg),
    decreases args.len(),
{
    if args.len() > 0 {
        let head = args.drop_last();
        lemma_reads_register(head, reg);
        let nums = register_numbers(head);
        if reads_register(args, reg) {
            match args.last() {
                CallArgument::Register(r) => {
                    let k = choose|k: int|
                        0 <= k < nums.push(r.num()).len() && nums.push(r.num())[k] == reg.num();
                    if k == nums.len() {
                        lemma_register_of_num(r);
                        lemma_register_of_num(reg);
                        assert(args[args.len() - 1] == CallArgument::Register(reg));
                    } else {
                        assert(nums[k] == reg.num());
                        assert(reads_register(head, reg));
                        let i = choose|i: int|
                            0 <= i < head.len() && head[i] == CallArgument::Register(reg);
                        assert(args[i] == CallArgument::Register(reg));
                    }
                },
                CallArgument::Value(_) => {
                    let i = choose|i: int|
                        0 <= i < head.len() && head[i] == CallArgument::Register(reg);
                    assert(args[i] == CallArgument::Register(reg));
                },
            }
        }
        if exists|i: int| 0 <= i < args.len() && args[i] == CallArgument::Register(reg) {
            let i = choose|i: int| 0 <= i < args.len() && args[i] == CallArgument::Register(reg);
            if i == args.len() - 1 {
                let nums2 = nums.push(reg.num());
                assert(nums2[nums.len() as int] == reg.num());
            } else {
                assert(head[i] == CallArgument::Register(reg));
                let k = choose|k: int| 0 <= k < nums.len() && nums[k] == reg.num();
                match args.last() {
                    CallArgument::Register(r) => {
                        assert(nums.push(r.num())[k] == reg.num());
                    },
                    CallArgument::Value(_) => {},
                }
            }
        }
    }
}

/// Nothing is spilled at the start, and that state is well formed.
pub proof fn lemma_no_spills_wf(args: Seq<CallArgument>)
    ensures
        spills_wf(args, no_spills(args)),
{
    assert(spilled(no_spills(args)) =~= Set::<int>::empty());
}

/// Spilling keeps the state well formed, and a needed spill finds a slot.
pub proof fn lemma_after_spill_wf(args: Seq<CallArgument>, st: SpillState, dst: Register)
    requires
        spills_wf(args, st),
        args.len() <= 6,
    ensures
        spills_wf(args, after_spill(args, st, dst)),
        spill_needed(args, st, dst) ==> st.stack_index >= 8,
        0 <= after_spill(args, st, dst).stack_index <= spill_area(args),
{
    let used = register_numbers(args).to_set();
    lemma_register_numbers_len(args);
    register_numbers(args).lemma_cardinality_of_set();
    vstd::set_lib::lemma_len_subset(spilled(st), used);
    if spill_needed(args, st, dst) {
        let n = dst.num();
        let st1 = after_spill(args, st, dst);
        assert(used.contains(n));
        assert(!spilled(st).contains(n));
        assert(spilled(st1) =~= spilled(st).insert(n));
        assert(spilled(st).insert(n).subset_of(used));
        vstd::set_lib::lemma_len_subset(spilled(st1), used);
        assert(spilled(st1).len() == spilled(st).len() + 1);
        assert forall|m: int| 0 <= m < 16 && (#[trigger] st1.saved[m]) is Some implies st1.stack_index
            <= st1.saved[m]->0 < spill_area(args) by {
            if m != n {
                assert(st1.saved[m] == st.saved[m]);
            }
        }
    }
}

/// The state after any number of arguments is well formed.
pub proof fn lemma_spills_after_wf(args: Seq<CallArgument>, n: nat)
    requires
        args.len() <= 6,
    ensures
        spills_wf(args, spills_after(args, n)),
    decreases n,
{
    if n == 0 {
        lemma_no_spills_wf(args);
    } else {
        lemma_spills_after_wf(args, (n - 1) as nat);
        lemma_after_spill_wf(args, spills_after(args, (n - 1) as nat), argument_register(n - 1));
    }
}

/// The register that carries the argument at position `i`.
pub fn argument_register_at(i: usize) -> (r: Register)
    ensures
        r == argument_register(i as int),
{
    if i == 0 {
        Register::Rdi
    } else if i == 1 {
        Register::Rsi
    } else if i == 2 {
        Register::Rdx
    } else if i == 3 {
        Register::Rcx
    } else if i == 4 {
        Register::R8
    } else {
        Register::R9
    }
}

/// Counts the register arguments.
pub fn count_register_arguments(args: &[CallArgument]) -> (n: usize)
    ensures
        n == register_numbers(args@).len(),
        n <= args@.len(),
{
    let mut n: usize = 0;
    let mut i: usize = 0;
    while i < args.len()
        invariant
            i <= args@.len(),
            n == register_numbers(args@.take(i as int)).len(),
            n <= i,
        decreases args@.len() - i,
    {
        proof {
            assert(args@.take(i as int + 1).drop_last() =~= args@.take(i as int));
        }
        match args[i] {
            CallArgument::Register(_) => {
                n = n + 1;
            },
            CallArgument::Value(_) => {},
        }
        i = i + 1;
    }
    proof {
        assert(args@.take(i as int) =~= args@);
    }
    n
}

/// Tells whether some argument reads `reg`.
pub fn argument_reads(args: &[CallArgument], reg: Register) -> (b: bool)
    ensures
        b == reads_register(args@, reg),
{
    let mut i: usize = 0;
    while i < args.len()
        invariant
            i <= args@.len(),
            forall|k: int| 0 <= k < i ==> args@[k] != CallArgument::Register(reg),
        decreases args@.len() - i,
    {
        match args[i] {
            CallArgument::Register(r) => {
                if r == reg {
                    proof {
                        lemma_reads_register(args@, reg);
                    }
                    return true;
                }
            },
            CallArgument::Value(_) => {},
        }
        i = i + 1;
    }
    proof {
        lemma_reads_register(args@, reg);
    }
    false
}

/// Emits the moves of all arguments into their registers.
pub fn emit_arguments(buf: &mut Vec<u8>, args: &[CallArgument])
    requires
        args@.len() <= 6,
    ensures
        final(buf)@ == old(buf)@ + arguments_bytes(args@, args@.len()),
{
    let area: usize = 8 * count_register_arguments(args);
    let mut stack_index: usize = area;
    let mut saved: Vec<Option<usize>> = Vec::new();
    let mut k: usize = 0;
    while k < 16
        invariant
            k <= 16,
            saved@.len() == k,
            forall|n: int| 0 <= n < k ==> saved@[n] is None,
        decreases 16 - k,
    {
        saved.push(None);
        k = k + 1;
    }
    proof {
        assert(saved@ =~= no_spills(args@).saved);
        lemma_no_spills_wf(args@);
    }
    let mut i: usize = 0;
    while i < args.len()
        invariant
            i <= args@.len() <= 6,
            area == spill_area(args@),
            spills_after(args@, i as nat) == (SpillState {
                stack_index: stack_index as int,
                saved: saved@,
            }),
            spills_wf(args@, spills_after(args@, i as nat)),
            buf@ == old(buf)@ + arguments_bytes(args@, i as nat),
        decreases args@.len() - i,
    {
        let ghost st = spills_after(args@, i as nat);
        let ghost before = buf@;
        let dst = argument_register_at(i);
        proof {
            lemma_after_spill_wf(args@, st, dst);
            lemma_spills_after_wf(args@, (i + 1) as nat);
        }
        let n = dst.number() as usize;
        if argument_reads(args, dst) && saved[n].is_none() {
            stack_index = stack_index - 8;
            saved[n] = Some(stack_index);
            emit_mov_store(buf, Register::Rsp, stack_index as i32, dst);
        }
        let ghost mid = buf@;
        match args[i] {
            CallArgument::Register(src) => {
                match saved[src.number() as usize] {
                    Some(slot) => {
                        emit_mov_load(buf, dst, Register::Rsp, slot as i32);
                    },
                    None => {
                        emit_mov_reg_reg(buf, dst, src);
                    },
                }
            },
            CallArgument::Value(v) => {
                emit_movabs_reg(buf, dst, v);
            },
        }
        proof {
            assert(buf@ =~= before + argument_bytes(args@, st, i as int));
            assert(buf@ =~= old(buf)@ + arguments_bytes(args@, (i + 1) as nat));
        }
        i = i + 1;
    }
}

/// Emits the call of the function whose address is in `rax`, on a stack
/// aligned to 16 bytes.
pub fn emit_aligned_call(buf: &mut Vec<u8>)
    ensures
        final(buf)@ == old(buf)@ + aligned_call_bytes(),
{
    emit_push(buf, Register::Rbx);
    push_byte(buf, Rex(false, false, false, false).value());
    push_byte(buf, 0x88);
    push_byte(buf, ModRM(3, 4, 3).value());
    push_byte(buf, Rex(true, false, false, false).value());
    push_byte(buf, 0x83);
    push_byte(buf, ModRM(3, 4, 4).value());
    push_byte(buf, 0xf0);
    let ghost aligned = buf@;
    emit_call_reg(buf, Register::Rax);
    let ghost called = buf@;
    push_byte(buf, Rex(false, false, false, false).value());
    push_byte(buf, 0x88);
    push_byte(buf, ModRM(3, 3, 4).value());
    let ghost restored = buf@;
    emit_pop(buf, Register::Rbx);
    proof {
        assert(aligned =~= old(buf)@ + push_bytes(Register::Rbx) + save_stack_low_bytes()
            + align_stack_bytes());
        assert(restored =~= called + restore_stack_low_bytes());
        assert(buf@ =~= old(buf)@ + aligned_call_bytes());
    }
}

/// The bytes of the aligned call, written out.
pub proof fn lemma_aligned_call_bytes()
    ensures
        aligned_call_bytes() == seq![
            0x53u8,
            0x40,
            0x88,
            0xe3,
            0x48,
            0x83,
            0xe4,
            0xf0,
            0xff,
            0xd0,
            0x40,
            0x88,
            0xdc,
            0x5b,
        ],
{
    assert(aligned_call_bytes() =~= seq![
        0x53u8,
        0x40,
        0x88,
        0xe3,
        0x48,
        0x83,
        0xe4,
        0xf0,
        0xff,
        0xd0,
        0x40,
        0x88,
        0xdc,
        0x5b,
    ]);
}

/// Emits `call_fn funct(args)`: the call of the function at address `funct`
/// with up to five arguments, each the value of a register or a constant.
pub fn emit_call_fn(buf: &mut Vec<u8>, funct: u64, args: &[CallArgument]) -> (r: Result<
    (),
    EncodeError,
>)
    ensures
        crate::codegen::assembler::emitted(
            old(buf)@,
            final(buf)@,
            call_fn_encoding(funct, args@),
            r,
        ),
{
    if args.len() > MAX_CALL_ARGUMENTS {
        return Err(EncodeError::TooManyArguments);
    }
    let area: usize = 8 * count_register_arguments(args);
    emit_push(buf, Register::Rax);
    if area > 0 {
        emit_op_reg_imm(buf, Operation::Sub, Register::Rsp, area as u32);
    }
    let ghost s1 = buf@;
    emit_arguments(buf, args);
    emit_movabs_reg(buf, Register::Rax, funct);
    emit_aligned_call(buf);
    let ghost s2 = buf@;
    if area > 0 {
        emit_op_reg_imm(buf, Operation::Add, Register::Rsp, area as u32);
    }
    let ghost s3 = buf@;
    emit_pop(buf, Register::Rax);
    proof {
        assert(s2 =~= s1 + arguments_bytes(args@, args@.len()) + movabs_bytes(Register::Rax, funct)
            + aligned_call_bytes());
        assert(buf@ =~= old(buf)@ + call_fn_bytes(funct, args@));
    }
    Ok(())
}

} // verus!
