//! Encoding of single instructions: operands that hold values, and the bytes
//! each supported combination is encoded as.

use crate::codegen::emitter::{
    disp32, disp8, fits_i8, lemma_disp_casts, push_byte, push_dword, push_qword,
};
use crate::codegen::encoding::{modrm_byte, rex_byte, ModRM, Rex};
use crate::codegen::register::Register;
use crate::endian::{le32, le64};
use vstd::prelude::*;

verus! {

/// Why an instruction could not be encoded.
#[derive(Debug, Clone, Copy, PartialEq, Eq, Structural)]
pub enum EncodeError {
    /// The destination of a move is an immediate.
    InvalidDestination,
    /// The operand combination is outside the supported subset.
    Unsupported,
    /// A call has more arguments than there are argument registers.
    TooManyArguments,
    /// An operand names a variable that has no value.
    Unbound,
}

/// An operand whose value is known.
#[derive(Debug, Clone, Copy, PartialEq, Eq, Structural)]
pub enum Operand {
    /// A constant.
    Immediate(u64),
    /// A register.
    Register(Register),
    /// The memory at an absolute address.
    Direct(i32),
    /// The memory at a register plus a displacement.
    Indirect(Register, i32),
}

/// The arithmetic and logic operations of the `op dst, src` family.
#[derive(Debug, Clone, Copy, PartialEq, Eq, Structural)]
pub enum Operation {
    Add,
    Or,
    Sub,
    Xor,
}

impl Operation {
    /// The three bits that select the operation inside an opcode or a ModR/M
    /// byte.
    pub open spec fn id(self) -> u8 {
        match self {
            Operation::Add => 0,
            Operation::Or => 1,
            Operation::Sub => 5,
            Operation::Xor => 6,
        }
    }

    pub fn code(&self) -> (n: u8)
        ensures
            n == self.id(),
    {
        match self {
            Operation::Add => 0,
            Operation::Or => 1,
            Operation::Sub => 5,
            Operation::Xor => 6,
        }
    }
}

/// The low 32 bits of an immediate.
pub open spec fn low32(imm: u64) -> u32 {
    (imm % 0x1_0000_0000) as u32
}

/// An optional REX prefix that only extends the base register.
pub open spec fn rex_b_prefix(reg: Register) -> Seq<u8> {
    if reg.extended() {
        seq![0x41u8]
    } else {
        seq![]
    }
}

/// The ModR/M mode of `[base + disp]`: no displacement where there is none
/// and the base allows it, else the shortest displacement that fits.
pub open spec fn mem_mode(base: Register, disp: i32) -> u8 {
    if disp == 0 && base.low() != 5 {
        0
    } else if fits_i8(disp) {
        1
    } else {
        2
    }
}

/// ModR/M, SIB and displacement of the memory operand `[base + disp]`, with
/// `field` in the register field.
pub open spec fn mem_operand_bytes(field: u8, base: Register, disp: i32) -> Seq<u8> {
    seq![modrm_byte(mem_mode(base, disp), field, base.low())] + (if base.low() == 4 {
        seq![0x24u8]
    } else {
        seq![]
    }) + (if mem_mode(base, disp) == 0 {
        seq![]
    } else if mem_mode(base, disp) == 1 {
        seq![disp8(disp)]
    } else {
        le32(disp32(disp))
    })
}

/// `mov dst, src` between registers.
pub open spec fn mov_reg_reg_bytes(dst: Register, src: Register) -> Seq<u8> {
    seq![
        rex_byte(true, src.extended(), false, dst.extended()),
        0x89,
        modrm_byte(3, src.low(), dst.low()),
    ]
}

/// `mov dst, imm32`.
pub open spec fn mov_reg_imm_bytes(dst: Register, imm: u32) -> Seq<u8> {
    rex_b_prefix(dst) + seq![(0xb8 + dst.low()) as u8] + le32(imm)
}

/// `mov dst, [addr]`.
pub open spec fn mov_reg_direct_bytes(dst: Register, addr: i32) -> Seq<u8> {
    seq![rex_byte(true, dst.extended(), false, false), 0x8b, modrm_byte(0, dst.low(), 4), 0x25]
        + le32(disp32(addr))
}

/// `mov dst, [base + disp]`.
pub open spec fn mov_load_bytes(dst: Register, base: Register, disp: i32) -> Seq<u8> {
    seq![rex_byte(true, dst.extended(), false, base.extended()), 0x8b] + mem_operand_bytes(
        dst.low(),
        base,
        disp,
    )
}

/// `mov [base + disp], src`.
pub open spec fn mov_store_bytes(base: Register, disp: i32, src: Register) -> Seq<u8> {
    seq![rex_byte(true, src.extended(), false, base.extended()), 0x89] + mem_operand_bytes(
        src.low(),
        base,
        disp,
    )
}

/// `movabs dst, imm64`.
pub open spec fn movabs_bytes(dst: Register, imm: u64) -> Seq<u8> {
    seq![rex_byte(true, false, false, dst.extended()), (0xb8 + dst.low()) as u8] + le64(imm)
}

/// `push reg`.
pub open spec fn push_bytes(reg: Register) -> Seq<u8> {
    rex_b_prefix(reg) + seq![(0x50 + reg.low()) as u8]
}

/// `pop reg`.
pub open spec fn pop_bytes(reg: Register) -> Seq<u8> {
    rex_b_prefix(reg) + seq![(0x58 + reg.low()) as u8]
}

/// `op dst, src` between registers.
pub open spec fn op_reg_reg_bytes(op: Operation, dst: Register, src: Register) -> Seq<u8> {
    seq![
        rex_byte(true, src.extended(), false, dst.extended()),
        (op.id() * 8 + 1) as u8,
        modrm_byte(3, src.low(), dst.low()),
    ]
}

/// `op dst, imm32`: the short form for the accumulator, the general form for
/// every other register.
pub open spec fn op_reg_imm_bytes(op: Operation, dst: Register, imm: u32) -> Seq<u8> {
    if dst == Register::Rax {
        seq![0x48u8, (op.id() * 8 + 5) as u8] + le32(imm)
    } else {
        seq![rex_byte(true, false, false, dst.extended()), 0x81, modrm_byte(3, op.id(), dst.low())]
            + le32(imm)
    }
}

/// `call reg`.
pub open spec fn call_reg_bytes(reg: Register) -> Seq<u8> {
    rex_b_prefix(reg) + seq![0xffu8, modrm_byte(3, 2, reg.low())]
}

/// `call [reg]`.
pub open spec fn call_indirect_bytes(reg: Register) -> Seq<u8> {
    rex_b_prefix(reg) + seq![0xffu8] + mem_operand_bytes(2, reg, 0)
}

/// `ret`.
pub open spec fn ret_bytes() -> Seq<u8> {
    seq![0xc3u8]
}

/// The bytes of `mov dst, src`, or why there are none.
pub open spec fn mov_encoding(dst: Operand, src: Operand) -> Result<Seq<u8>, EncodeError> {
    match (dst, src) {
        (Operand::Immediate(_), _) => Err(EncodeError::InvalidDestination),
        (Operand::Register(d), Operand::Register(s)) => Ok(mov_reg_reg_bytes(d, s)),
        (Operand::Register(d), Operand::Immediate(imm)) => Ok(mov_reg_imm_bytes(d, low32(imm))),
        (Operand::Register(d), Operand::Direct(addr)) => Ok(mov_reg_direct_bytes(d, addr)),
        (Operand::Register(d), Operand::Indirect(base, disp)) => Ok(
            mov_load_bytes(d, base, disp),
        ),
        (Operand::Indirect(base, disp), Operand::Register(s)) => Ok(
            mov_store_bytes(base, disp, s),
        ),
        _ => Err(EncodeError::Unsupported),
    }
}

/// The bytes of `movabs dst, imm`, or why there are none.
pub open spec fn movabs_encoding(dst: Operand, imm: u64) -> Result<Seq<u8>, EncodeError> {
    match dst {
        Operand::Immediate(_) => Err(EncodeError::InvalidDestination),
        Operand::Register(d) => Ok(movabs_bytes(d, imm)),
        _ => Err(EncodeError::Unsupported),
    }
}

/// The bytes of `op dst, src`, or why there are none.
pub open spec fn op_encoding(op: Operation, dst: Register, src: Operand) -> Result<
    Seq<u8>,
    EncodeError,
> {
    match src {
        Operand::Immediate(imm) => Ok(op_reg_imm_bytes(op, dst, low32(imm))),
        Operand::Register(s) => Ok(op_reg_reg_bytes(op, dst, s)),
        _ => Err(EncodeError::Unsupported),
    }
}

/// The bytes of `call target`, or why there are none.
pub open spec fn call_encoding(target: Operand) -> Result<Seq<u8>, EncodeError> {
    match target {
        Operand::Register(r) => Ok(call_reg_bytes(r)),
        Operand::Indirect(r, disp) => if disp == 0 {
            Ok(call_indirect_bytes(r))
        } else {
            Err(EncodeError::Unsupported)
        },
        _ => Err(EncodeError::Unsupported),
    }
}

/// What an emitting function owes: on success the buffer grew by exactly the
/// bytes of the encoding, on failure it is unchanged and the error is the one
/// the encoding names.
pub open spec fn emitted(
    before: Seq<u8>,
    after: Seq<u8>,
    encoding: Result<Seq<u8>, EncodeError>,
    result: Result<(), EncodeError>,
) -> bool {
    match encoding {
        Ok(bytes) => result is Ok && after == before + bytes,
        Err(e) => result == Err::<(), EncodeError>(e) && after == before,
    }
}

/// The low 32 bits of an immediate, as a truncating cast gives them.
pub proof fn lemma_low32(imm: u64)
    ensures
        imm as u32 == low32(imm),
{
    assert(imm as u32 == (imm % 0x1_0000_0000) as u32) by (bit_vector);
}

/// Emits ModR/M, SIB and displacement of the memory operand `[base + disp]`.
pub fn emit_mem_operand(buf: &mut Vec<u8>, field: u8, base: Register, disp: i32)
    ensures
        final(buf)@ == old(buf)@ + mem_operand_bytes(field, base, disp),
{
    let b = base.low_bits();
    let mode: u8 = if disp == 0 && b != 5 {
        0
    } else if disp >= -128 && disp <= 127 {
        1
    } else {
        2
    };
    proof {
        lemma_disp_casts(disp);
    }
    push_byte(buf, ModRM(mode, field, b).value());
    if b == 4 {
        push_byte(buf, 0x24);
    }
    if mode == 1 {
        push_byte(buf, disp as u8);
    } else if mode == 2 {
        push_dword(buf, disp as u32);
    }
    assert(buf@ =~= old(buf)@ + mem_operand_bytes(field, base, disp));
}

/// Emits the REX prefix `0x41` where the register needs it.
fn emit_rex_b_prefix(buf: &mut Vec<u8>, reg: Register)
    ensures
        final(buf)@ == old(buf)@ + rex_b_prefix(reg),
{
    if reg.is_extended() {
        push_byte(buf, 0x41);
    }
    assert(buf@ =~= old(buf)@ + rex_b_prefix(reg));
}

pub fn emit_mov_reg_reg(buf: &mut Vec<u8>, dst: Register, src: Register)
    ensures
        final(buf)@ == old(buf)@ + mov_reg_reg_bytes(dst, src),
{
    push_byte(buf, Rex(true, src.is_extended(), false, dst.is_extended()).value());
    push_byte(buf, 0x89);
    push_byte(buf, ModRM(3, src.low_bits(), dst.low_bits()).value());
    assert(buf@ =~= old(buf)@ + mov_reg_reg_bytes(dst, src));
}

pub fn emit_mov_reg_imm(buf: &mut Vec<u8>, dst: Register, imm: u32)
    ensures
        final(buf)@ == old(buf)@ + mov_reg_imm_bytes(dst, imm),
{
    emit_rex_b_prefix(buf, dst);
    push_byte(buf, 0xb8 + dst.low_bits());
    push_dword(buf, imm);
    assert(buf@ =~= old(buf)@ + mov_reg_imm_bytes(dst, imm));
}

pub fn emit_mov_reg_direct(buf: &mut Vec<u8>, dst: Register, addr: i32)
    ensures
        final(buf)@ == old(buf)@ + mov_reg_direct_bytes(dst, addr),
{
    proof {
        lemma_disp_casts(addr);
    }
    push_byte(buf, Rex(true, dst.is_extended(), false, false).value());
    push_byte(buf, 0x8b);
    push_byte(buf, ModRM(0, dst.low_bits(), 4).value());
    push_byte(buf, 0x25);
    push_dword(buf, addr as u32);
    assert(buf@ =~= old(buf)@ + mov_reg_direct_bytes(dst, addr));
}

pub fn emit_mov_load(buf: &mut Vec<u8>, dst: Register, base: Register, disp: i32)
    ensures
        final(buf)@ == old(buf)@ + mov_load_bytes(dst, base, disp),
{
    push_byte(buf, Rex(true, dst.is_extended(), false, base.is_extended()).value());
    push_byte(buf, 0x8b);
    emit_mem_operand(buf, dst.low_bits(), base, disp);
    assert(buf@ =~= old(buf)@ + mov_load_bytes(dst, base, disp));
}

pub fn emit_mov_store(buf: &mut Vec<u8>, base: Register, disp: i32, src: Register)
    ensures
        final(buf)@ == old(buf)@ + mov_store_bytes(base, disp, src),
{
    push_byte(buf, Rex(true, src.is_extended(), false, base.is_extended()).value());
    push_byte(buf, 0x89);
    emit_mem_operand(buf, src.low_bits(), base, disp);
    assert(buf@ =~= old(buf)@ + mov_store_bytes(base, disp, src));
}

pub fn emit_movabs_reg(buf: &mut Vec<u8>, dst: Register, imm: u64)
    ensures
        final(buf)@ == old(buf)@ + movabs_bytes(dst, imm),
{
    push_byte(buf, Rex(true, false, false, dst.is_extended()).value());
    push_byte(buf, 0xb8 + dst.low_bits());
    push_qword(buf, imm);
    assert(buf@ =~= old(buf)@ + movabs_bytes(dst, imm));
}

pub fn emit_push(buf: &mut Vec<u8>, reg: Register)
    ensures
        final(buf)@ == old(buf)@ + push_bytes(reg),
{
    emit_rex_b_prefix(buf, reg);
    push_byte(buf, 0x50 + reg.low_bits());
    assert(buf@ =~= old(buf)@ + push_bytes(reg));
}

pub fn emit_pop(buf: &mut Vec<u8>, reg: Register)
    ensures
        final(buf)@ == old(buf)@ + pop_bytes(reg),
{
    emit_rex_b_prefix(buf, reg);
    push_byte(buf, 0x58 + reg.low_bits());
    assert(buf@ =~= old(buf)@ + pop_bytes(reg));
}

pub fn emit_op_reg_reg(buf: &mut Vec<u8>, op: Operation, dst: Register, src: Register)
    ensures
        final(buf)@ == old(buf)@ + op_reg_reg_bytes(op, dst, src),
{
    push_byte(buf, Rex(true, src.is_extended(), false, dst.is_extended()).value());
    push_byte(buf, op.code() * 8 + 1);
    push_byte(buf, ModRM(3, src.low_bits(), dst.low_bits()).value());
    assert(buf@ =~= old(buf)@ + op_reg_reg_bytes(op, dst, src));
}

pub fn emit_op_reg_imm(buf: &mut Vec<u8>, op: Operation, dst: Register, imm: u32)
    ensures
        final(buf)@ == old(buf)@ + op_reg_imm_bytes(op, dst, imm),
{
    if dst == Register::Rax {
        push_byte(buf, 0x48);
        push_byte(buf, op.code() * 8 + 5);
    } else {
        push_byte(buf, Rex(true, false, false, dst.is_extended()).value());
        push_byte(buf, 0x81);
        push_byte(buf, ModRM(3, op.code(), dst.low_bits()).value());
    }
    push_dword(buf, imm);
    assert(buf@ =~= old(buf)@ + op_reg_imm_bytes(op, dst, imm));
}

pub fn emit_call_reg(buf: &mut Vec<u8>, reg: Register)
    ensures
        final(buf)@ == old(buf)@ + call_reg_bytes(reg),
{
    emit_rex_b_prefix(buf, reg);
    push_byte(buf, 0xff);
    push_byte(buf, ModRM(3, 2, reg.low_bits()).value());
    assert(buf@ =~= old(buf)@ + call_reg_bytes(reg));
}

pub fn emit_call_indirect(buf: &mut Vec<u8>, reg: Register)
    ensures
        final(buf)@ == old(buf)@ + call_indirect_bytes(reg),
{
    emit_rex_b_prefix(buf, reg);
    push_byte(buf, 0xff);
    emit_mem_operand(buf, 2, reg, 0);
    assert(buf@ =~= old(buf)@ + call_indirect_bytes(reg));
}

pub fn emit_ret(buf: &mut Vec<u8>)
    ensures
        final(buf)@ == old(buf)@ + ret_bytes(),
{
    push_byte(buf, 0xc3);
}

/// Encodes `mov dst, src` for the supported operand combinations.
pub fn emit_mov(buf: &mut Vec<u8>, dst: Operand, src: Operand) -> (r: Result<(), EncodeError>)
    ensures
        emitted(old(buf)@, final(buf)@, mov_encoding(dst, src), r),
{
    match (dst, src) {
        (Operand::Immediate(_), _) => Err(EncodeError::InvalidDestination),
        (Operand::Register(d), Operand::Register(s)) => {
            emit_mov_reg_reg(buf, d, s);
            Ok(())
        },
        (Operand::Register(d), Operand::Immediate(imm)) => {
            proof {
                lemma_low32(imm);
            }
            emit_mov_reg_imm(buf, d, imm as u32);
            Ok(())
        },
        (Operand::Register(d), Operand::Direct(addr)) => {
            emit_mov_reg_direct(buf, d, addr);
            Ok(())
        },
        (Operand::Register(d), Operand::Indirect(base, disp)) => {
            emit_mov_load(buf, d, base, disp);
            Ok(())
        },
        (Operand::Indirect(base, disp), Operand::Register(s)) => {
            emit_mov_store(buf, base, disp, s);
            Ok(())
        },
        _ => Err(EncodeError::Unsupported),
    }
}

/// Encodes `movabs dst, imm`.
pub fn emit_movabs(buf: &mut Vec<u8>, dst: Operand, imm: u64) -> (r: Result<(), EncodeError>)
    ensures
        emitted(old(buf)@, final(buf)@, movabs_encoding(dst, imm), r),
{
    match dst {
        Operand::Immediate(_) => Err(EncodeError::InvalidDestination),
        Operand::Register(d) => {
            emit_movabs_reg(buf, d, imm);
            Ok(())
        },
        _ => Err(EncodeError::Unsupported),
    }
}

/// Encodes `op dst, src` for an arithmetic or logic operation.
pub fn emit_op(buf: &mut Vec<u8>, op: Operation, dst: Register, src: Operand) -> (r: Result<
    (),
    EncodeError,
>)
    ensures
        emitted(old(buf)@, final(buf)@, op_encoding(op, dst, src), r),
{
    match src {
        Operand::Immediate(imm) => {
            proof {
                lemma_low32(imm);
            }
            emit_op_reg_imm(buf, op, dst, imm as u32);
            Ok(())
        },
        Operand::Register(s) => {
            emit_op_reg_reg(buf, op, dst, s);
            Ok(())
        },
        _ => Err(EncodeError::Unsupported),
    }
}

/// Encodes `call target` through a register or the memory a register points
/// at.
pub fn emit_call(buf: &mut Vec<u8>, target: Operand) -> (r: Result<(), EncodeError>)
    ensures
        emitted(old(buf)@, final(buf)@, call_encoding(target), r),
{
    match target {
        Operand::Register(reg) => {
            emit_call_reg(buf, reg);
            Ok(())
        },
        Operand::Indirect(reg, disp) => {
            if disp == 0 {
                emit_call_indirect(buf, reg);
                Ok(())
            } else {
                Err(EncodeError::Unsupported)
            }
        },
        _ => Err(EncodeError::Unsupported),
    }
}

} // verus!
