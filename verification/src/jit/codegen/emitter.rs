//! Instructions written straight into any sink of bytes.

use crate::codegen::assembler::{
    emit_mov_load, emit_mov_reg_imm, emit_mov_store, emit_movabs_reg, emit_op_reg_imm, emit_op_reg_reg, emit_pop, emit_push, emitted, low32,
    mov_encoding, mov_load_bytes, mov_reg_imm_bytes, mov_store_bytes, movabs_bytes,
    op_reg_imm_bytes, op_reg_reg_bytes, pop_bytes, push_bytes, ret_bytes, EncodeError, Operand,
    Operation,
};
use crate::codegen::call::{
    aligned_call_bytes, arguments_bytes, count_register_arguments, emit_aligned_call,
    emit_arguments, spill_area, CallArgument,
};
use crate::codegen::register::Register;
use crate::jit::codegen::callable::Callable;
use crate::jit::codegen::register::X64Gpr;
use vstd::prelude::*;

verus! {

/// One argument of a call: a constant, or the value of a register.
#[derive(Debug, Clone, Copy, Hash, PartialEq, Eq, Structural)]
pub enum CallArg {
    Val(u64),
    Reg(X64Gpr),
}

/// How an operand is addressed.
#[derive(Debug, Clone, Copy)]
pub enum AddressingMode {
    /// A constant.
    Immediate(u64),
    /// A register.
    Register(X64Gpr),
    /// The memory at an absolute address.
    Direct(i32),
    /// The memory a register points at.
    Indirect(X64Gpr),
    /// The memory at a register plus a displacement.
    IndirectDisplacement(X64Gpr, i32),
}

impl AddressingMode {
    /// The operand that the encoder sees.
    pub open spec fn operand(self) -> Operand {
        match self {
            AddressingMode::Immediate(imm) => Operand::Immediate(imm),
            AddressingMode::Register(r) => Operand::Register(r.register()),
            AddressingMode::Direct(addr) => Operand::Direct(addr),
            AddressingMode::Indirect(r) => Operand::Indirect(r.register(), 0),
            AddressingMode::IndirectDisplacement(r, disp) => Operand::Indirect(r.register(), disp),
        }
    }

    pub fn to_operand(&self) -> (o: Operand)
        ensures
            o == self.operand(),
    {
        match self {
            AddressingMode::Immediate(imm) => Operand::Immediate(*imm),
            AddressingMode::Register(r) => Operand::Register(r.to_register()),
            AddressingMode::Direct(addr) => Operand::Direct(*addr),
            AddressingMode::Indirect(r) => Operand::Indirect(r.to_register(), 0),
            AddressingMode::IndirectDisplacement(r, disp) => Operand::Indirect(
                r.to_register(),
                *disp,
            ),
        }
    }
}

impl CallArg {
    /// The argument that the encoder sees.
    pub open spec fn argument(self) -> CallArgument {
        match self {
            CallArg::Val(v) => CallArgument::Value(v),
            CallArg::Reg(r) => CallArgument::Register(r.register()),
        }
    }

    pub fn to_argument(&self) -> (a: CallArgument)
        ensures
            a == self.argument(),
    {
        match self {
            CallArg::Val(v) => CallArgument::Value(*v),
            CallArg::Reg(r) => CallArgument::Register(r.to_register()),
        }
    }
}

/// How many arguments `emit_call` passes at most.
pub const MAX_ARGUMENTS: usize = 4;

/// The bytes of `mov dst, src`, or why there are none: the stack pointer and
/// immediates are no destinations.
pub open spec fn gpr_mov_encoding(dst: AddressingMode, src: AddressingMode) -> Result<
    Seq<u8>,
    EncodeError,
> {
    match dst {
        AddressingMode::Register(X64Gpr::Rsp) => Err(EncodeError::InvalidDestination),
        _ => mov_encoding(dst.operand(), src.operand()),
    }
}

/// `mov reg, imm`: the short form where the immediate fits in 31 bits, else
/// `movabs`.
pub open spec fn mov_immediate_bytes(reg: Register, imm: u64) -> Seq<u8> {
    if imm > 0x7fff_ffff {
        movabs_bytes(reg, imm)
    } else {
        mov_reg_imm_bytes(reg, imm as u32)
    }
}

/// The arguments as the encoder sees them.
pub open spec fn arguments(args: Seq<CallArg>) -> Seq<CallArgument> {
    args.map_values(|a: CallArg| a.argument())
}

/// The call of the function at `funct`: reserve the spill slots, move the
/// arguments, load the address into `rax`, call it on a stack aligned to 16
/// bytes, release the slots.
pub open spec fn call_bytes(funct: u64, args: Seq<CallArgument>) -> Seq<u8> {
    (if spill_area(args) > 0 {
        op_reg_imm_bytes(Operation::Sub, Register::Rsp, spill_area(args) as u32)
    } else {
        seq![]
    }) + arguments_bytes(args, args.len()) + movabs_bytes(Register::Rax, funct)
        + aligned_call_bytes() + (if spill_area(args) > 0 {
        op_reg_imm_bytes(Operation::Add, Register::Rsp, spill_area(args) as u32)
    } else {
        seq![]
    })
}

/// The registers that a called function may change, pushed in the order of
/// the System V convention.
pub open spec fn caller_saved_pushes() -> Seq<u8> {
    push_bytes(Register::Rax) + push_bytes(Register::Rdi) + push_bytes(Register::Rsi) + push_bytes(
        Register::Rdx,
    ) + push_bytes(Register::Rcx) + push_bytes(Register::R8) + push_bytes(Register::R9)
        + push_bytes(Register::R10) + push_bytes(Register::R11)
}

/// The same registers popped, last pushed first.
pub open spec fn caller_saved_pops() -> Seq<u8> {
    pop_bytes(Register::R11) + pop_bytes(Register::R10) + pop_bytes(Register::R9) + pop_bytes(
        Register::R8,
    ) + pop_bytes(Register::Rcx) + pop_bytes(Register::Rdx) + pop_bytes(Register::Rsi) + pop_bytes(
        Register::Rdi,
    ) + pop_bytes(Register::Rax)
}

/// The arguments of a check of `reg` against `expected`: the number of the
/// register, the value expected, and the value that the register holds.
pub open spec fn check_arguments(reg: X64Gpr, expected: u64) -> Seq<CallArgument> {
    seq![
        CallArgument::Value(reg.num() as u64),
        CallArgument::Value(expected),
        CallArgument::Register(reg.register()),
    ]
}

/// A check of `reg` against `expected` by the function at `checker`, which
/// leaves every register as it was: the registers that the function may
/// change are pushed, the function is called with the number of the
/// register, the value expected and the value that the register holds, and
/// the registers are popped.
pub open spec fn assert_reg_eq_bytes(checker: u64, reg: X64Gpr, expected: u64) -> Seq<u8> {
    caller_saved_pushes() + call_bytes(checker, check_arguments(reg, expected))
        + caller_saved_pops()
}

/// The bytes of a call with the given arguments, or why there are none.
pub open spec fn call_encoding(funct: u64, args: Seq<CallArgument>) -> Result<
    Seq<u8>,
    EncodeError,
> {
    if args.len() > MAX_ARGUMENTS {
        Err(EncodeError::TooManyArguments)
    } else {
        Ok(call_bytes(funct, args))
    }
}

/// Converts the arguments for the encoder.
pub fn to_arguments(args: &[CallArg]) -> (out: Vec<CallArgument>)
    ensures
        out@ == arguments(args@),
{
    let mut out: Vec<CallArgument> = Vec::new();
    let mut i: usize = 0;
    while i < args.len()
        invariant
            i <= args@.len(),
            out@ == arguments(args@.take(i as int)),
        decreases args@.len() - i,
    {
        out.push(args[i].to_argument());
        proof {
            assert(out@ =~= arguments(args@.take(i as int + 1)));
        }
        i = i + 1;
    }
    proof {
        assert(args@.take(i as int) =~= args@);
    }
    out
}

/// Appends the call of the function at `funct` to `buf`.
pub fn emit_call_bytes(buf: &mut Vec<u8>, funct: u64, args: &[CallArgument])
    requires
        args@.len() <= MAX_ARGUMENTS,
    ensures
        final(buf)@ == old(buf)@ + call_bytes(funct, args@),
{
    let area: usize = 8 * count_register_arguments(args);
    let mut bytes: Vec<u8> = Vec::new();
    if area > 0 {
        emit_op_reg_imm(&mut bytes, Operation::Sub, Register::Rsp, area as u32);
    }
    emit_arguments(&mut bytes, args);
    emit_movabs_reg(&mut bytes, Register::Rax, funct);
    emit_aligned_call(&mut bytes);
    if area > 0 {
        emit_op_reg_imm(&mut bytes, Operation::Add, Register::Rsp, area as u32);
    }
    proof {
        assert(bytes@ =~= call_bytes(funct, args@));
    }
    buf.extend_from_slice(bytes.as_slice());
    proof {
        assert(buf@ =~= old(buf)@ + call_bytes(funct, args@));
    }
}

/// A sink of machine code. Whatever can take raw bytes can take every
/// instruction below.
pub trait Emitter: Sized {
    /// The bytes written so far.
    spec fn code(&self) -> Seq<u8>;

    fn emit_raw(&mut self, raw_bytes: &[u8])
        ensures
            final(self).code() == old(self).code() + raw_bytes@,
    ;

    /// `mov dst, src`
    fn emit_mov(&mut self, dst: AddressingMode, src: AddressingMode) -> (r: Result<
        (),
        EncodeError,
    >)
        ensures
            emitted(old(self).code(), final(self).code(), gpr_mov_encoding(dst, src), r),
    {
        if let AddressingMode::Register(X64Gpr::Rsp) = dst {
            return Err(EncodeError::InvalidDestination);
        }
        let mut bytes: Vec<u8> = Vec::new();
        let r = crate::codegen::assembler::emit_mov(&mut bytes, dst.to_operand(), src.to_operand());
        if r.is_ok() {
            self.emit_raw(bytes.as_slice());
        }
        r
    }

    /// `push reg`
    fn emit_push_reg(&mut self, reg: X64Gpr)
        ensures
            final(self).code() == old(self).code() + push_bytes(reg.register()),
    {
        let mut bytes: Vec<u8> = Vec::new();
        emit_push(&mut bytes, reg.to_register());
        self.emit_raw(bytes.as_slice());
    }

    /// `pop reg`
    fn emit_pop_reg(&mut self, reg: X64Gpr)
        ensures
            final(self).code() == old(self).code() + pop_bytes(reg.register()),
    {
        let mut bytes: Vec<u8> = Vec::new();
        emit_pop(&mut bytes, reg.to_register());
        self.emit_raw(bytes.as_slice());
    }

    /// `movabs reg, immediate`
    fn emit_movabs_reg(&mut self, reg: X64Gpr, immediate: u64)
        ensures
            final(self).code() == old(self).code() + movabs_bytes(reg.register(), immediate),
    {
        let mut bytes: Vec<u8> = Vec::new();
        emit_movabs_reg(&mut bytes, reg.to_register(), immediate);
        self.emit_raw(bytes.as_slice());
    }

    /// `mov reg, immediate`
    fn emit_mov_reg_immediate(&mut self, reg: X64Gpr, immediate: u64)
        ensures
            final(self).code() == old(self).code() + mov_immediate_bytes(
                reg.register(),
                immediate,
            ),
    {
        let mut bytes: Vec<u8> = Vec::new();
        if immediate > 0x7fff_ffff {
            emit_movabs_reg(&mut bytes, reg.to_register(), immediate);
        } else {
            emit_mov_reg_imm(&mut bytes, reg.to_register(), immediate as u32);
        }
        self.emit_raw(bytes.as_slice());
    }

    /// `mov reg, qword ptr [rsi + offset]`
    fn emit_mov_reg_qword_ptr(&mut self, reg: X64Gpr, offset: i32)
        ensures
            final(self).code() == old(self).code() + mov_load_bytes(
                reg.register(),
                Register::Rsi,
                offset,
            ),
    {
        let mut bytes: Vec<u8> = Vec::new();
        emit_mov_load(&mut bytes, reg.to_register(), Register::Rsi, offset);
        self.emit_raw(bytes.as_slice());
    }

    /// `mov qword ptr [dst + displacement], src`
    fn emit_mov_qword_ptr_reg_reg(&mut self, dst: X64Gpr, src: X64Gpr, displacement: i32)
        ensures
            final(self).code() == old(self).code() + mov_store_bytes(
                dst.register(),
                displacement,
                src.register(),
            ),
    {
        let mut bytes: Vec<u8> = Vec::new();
        emit_mov_store(&mut bytes, dst.to_register(), displacement, src.to_register());
        self.emit_raw(bytes.as_slice());
    }

    /// `mov qword ptr [rsi + offset], reg`
    fn emit_mov_rsi_rel_reg(&mut self, offset: i32, reg: X64Gpr)
        ensures
            final(self).code() == old(self).code() + mov_store_bytes(
                Register::Rsi,
                offset,
                reg.register(),
            ),
    {
        let mut bytes: Vec<u8> = Vec::new();
        emit_mov_store(&mut bytes, Register::Rsi, offset, reg.to_register());
        self.emit_raw(bytes.as_slice());
    }

    /// `ret`
    fn emit_ret(&mut self)
        ensures
            final(self).code() == old(self).code() + ret_bytes(),
    {
        let mut bytes: Vec<u8> = Vec::new();
        crate::codegen::assembler::emit_ret(&mut bytes);
        self.emit_raw(bytes.as_slice());
    }

    /// The call of `funct` with exactly as many arguments as it takes.
    fn emit_call_safe<const N: usize, I, O, C: Callable<N, I, O>>(
        &mut self,
        funct: C,
        args: &[CallArg; N],
    ) -> (r: Result<(), EncodeError>)
        ensures
            emitted(
                old(self).code(),
                final(self).code(),
                call_encoding(funct.address() as u64, arguments(args@)),
                r,
            ),
    {
        self.emit_call(funct, args.as_slice())
    }

    /// The call of `funct` with up to four arguments, each a constant or the
    /// value of a register.
    fn emit_call<const N: usize, I, O, C: Callable<N, I, O>>(
        &mut self,
        funct: C,
        args: &[CallArg],
    ) -> (r: Result<(), EncodeError>)
        ensures
            emitted(
                old(self).code(),
                final(self).code(),
                call_encoding(funct.address() as u64, arguments(args@)),
                r,
            ),
    {
        if args.len() > MAX_ARGUMENTS {
            return Err(EncodeError::TooManyArguments);
        }
        let converted = to_arguments(args);
        let mut bytes: Vec<u8> = Vec::new();
        emit_call_bytes(&mut bytes, funct.addr() as u64, converted.as_slice());
        self.emit_raw(bytes.as_slice());
        Ok(())
    }

    /// Emits a check of `reg` against `expected`: the call of `checker` with
    /// the number of the register, the value expected and the value that
    /// the register holds. No register is changed by it.
    fn emit_assert_reg_eq<I, O, C: Callable<3, I, O>>(
        &mut self,
        reg: X64Gpr,
        expected: u64,
        checker: C,
    )
        ensures
            final(self).code() == old(self).code() + assert_reg_eq_bytes(
                checker.address() as u64,
                reg,
                expected,
            ),
    {
        let mut bytes: Vec<u8> = Vec::new();
        emit_push(&mut bytes, Register::Rax);
        emit_push(&mut bytes, Register::Rdi);
        emit_push(&mut bytes, Register::Rsi);
        emit_push(&mut bytes, Register::Rdx);
        emit_push(&mut bytes, Register::Rcx);
        emit_push(&mut bytes, Register::R8);
        emit_push(&mut bytes, Register::R9);
        emit_push(&mut bytes, Register::R10);
        emit_push(&mut bytes, Register::R11);
        let ghost pushed = bytes@;
        let args = [
            CallArgument::Value(reg.number() as u64),
            CallArgument::Value(expected),
            CallArgument::Register(reg.to_register()),
        ];
        proof {
            assert(pushed =~= caller_saved_pushes());
            assert(args@ =~= check_arguments(reg, expected));
        }
        emit_call_bytes(&mut bytes, checker.addr() as u64, args.as_slice());
        let ghost after_call = bytes@;
        emit_pop(&mut bytes, Register::R11);
        emit_pop(&mut bytes, Register::R10);
        emit_pop(&mut bytes, Register::R9);
        emit_pop(&mut bytes, Register::R8);
        emit_pop(&mut bytes, Register::Rcx);
        emit_pop(&mut bytes, Register::Rdx);
        emit_pop(&mut bytes, Register::Rsi);
        emit_pop(&mut bytes, Register::Rdi);
        emit_pop(&mut bytes, Register::Rax);
        proof {
            assert(bytes@ =~= after_call + caller_saved_pops());
            assert(bytes@ =~= assert_reg_eq_bytes(checker.address() as u64, reg, expected));
        }
        self.emit_raw(bytes.as_slice());
    }

    /// `xor reg, immediate`
    fn emit_xor_reg_dword(&mut self, reg: X64Gpr, immediate: u32)
        ensures
            final(self).code() == old(self).code() + op_reg_imm_bytes(
                Operation::Xor,
                reg.register(),
                immediate,
            ),
    {
        let mut bytes: Vec<u8> = Vec::new();
        emit_op_reg_imm(&mut bytes, Operation::Xor, reg.to_register(), immediate);
        self.emit_raw(bytes.as_slice());
    }

    /// `sub reg, immediate`
    fn emit_sub_reg_dword(&mut self, reg: X64Gpr, immediate: u32)
        ensures
            final(self).code() == old(self).code() + op_reg_imm_bytes(
                Operation::Sub,
                reg.register(),
                immediate,
            ),
    {
        let mut bytes: Vec<u8> = Vec::new();
        emit_op_reg_imm(&mut bytes, Operation::Sub, reg.to_register(), immediate);
        self.emit_raw(bytes.as_slice());
    }

    /// `or a, b`
    fn emit_or_reg_reg(&mut self, a: X64Gpr, b: X64Gpr)
        ensures
            final(self).code() == old(self).code() + op_reg_reg_bytes(
                Operation::Or,
                a.register(),
                b.register(),
            ),
    {
        let mut bytes: Vec<u8> = Vec::new();
        emit_op_reg_reg(&mut bytes, Operation::Or, a.to_register(), b.to_register());
        self.emit_raw(bytes.as_slice());
    }

    /// `add a, b`
    fn emit_add_reg_reg(&mut self, a: X64Gpr, b: X64Gpr)
        ensures
            final(self).code() == old(self).code() + op_reg_reg_bytes(
                Operation::Add,
                a.register(),
                b.register(),
            ),
    {
        let mut bytes: Vec<u8> = Vec::new();
        emit_op_reg_reg(&mut bytes, Operation::Add, a.to_register(), b.to_register());
        self.emit_raw(bytes.as_slice());
    }

    /// `add reg, immediate`
    fn emit_add_reg_dword(&mut self, reg: X64Gpr, immediate: u32)
        ensures
            final(self).code() == old(self).code() + op_reg_imm_bytes(
                Operation::Add,
                reg.register(),
                immediate,
            ),
    {
        let mut bytes: Vec<u8> = Vec::new();
        emit_op_reg_imm(&mut bytes, Operation::Add, reg.to_register(), immediate);
        self.emit_raw(bytes.as_slice());
    }
}

impl Emitter for Vec<u8> {
    open spec fn code(&self) -> Seq<u8> {
        self@
    }

    fn emit_raw(&mut self, raw_bytes: &[u8]) {
        self.extend_from_slice(raw_bytes);
    }
}

} // verus!
