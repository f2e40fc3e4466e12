//! The host instructions that the translator emits, and their encoding by
//! `iced_x86`.

use crate::codegen::register::Register;
use iced_x86::code_asm::registers::{gpr32, gpr64};
use iced_x86::code_asm::{
    bl, byte_ptr, qword_ptr, r14b, r14d, r14w, spl, CodeAssembler, CodeLabel,
};
use iced_x86::{Code, IcedError, Instruction, Register as HostReg};
use vstd::prelude::*;

verus! {

/// The operations between two 64-bit registers.
#[derive(Debug, Clone, Copy, PartialEq, Eq, Structural)]
pub enum BinaryOp {
    Mov,
    Add,
    And,
    Or,
    Xor,
    Cmp,
}

/// The operations on one 64-bit register.
#[derive(Debug, Clone, Copy, PartialEq, Eq, Structural)]
pub enum UnaryOp {
    Not,
    Push,
    Pop,
    Jmp,
    Call,
}

/// How the low bits of the scratch register `r14` are widened to 64 bits.
#[derive(Debug, Clone, Copy, PartialEq, Eq, Structural)]
pub enum Extension {
    SignByte,
    SignWord,
    SignDword,
    ZeroByte,
    ZeroWord,
}

/// One host instruction.
#[derive(Debug, Clone, Copy, PartialEq, Eq, Structural)]
pub enum HostInst {
    /// `op dst, src` on 64-bit registers.
    Binary(BinaryOp, Register, Register),
    /// `op reg` on a 64-bit register.
    Unary(UnaryOp, Register),
    /// `mov dst, imm64`
    MovImm(Register, u64),
    /// `mov dst32, imm32`
    MovImm32(Register, u32),
    /// `mov dst, qword ptr [base + disp]`
    Load(Register, Register, i32),
    /// `mov qword ptr [base + disp], src`
    Store(Register, i32, Register),
    /// `mov byte ptr [base], imm8`
    StoreByte(Register, u8),
    /// `and dst, imm32`, the immediate sign-extended
    AndImm(Register, i32),
    /// `add dst, imm32`
    AddImm(Register, u32),
    /// `sub dst, imm32`
    SubImm(Register, u32),
    /// `add dst32, src32`
    Add32(Register, Register),
    /// `movsx`, `movsxd` or `movzx` from the low bits of `r14` into `dst`
    Extend(Extension, Register),
    /// `mov bl, spl`
    SaveStackLow,
    /// `mov spl, bl`
    RestoreStackLow,
    /// `je label`
    Je(u64),
    /// The place that `label` names: the next instruction.
    Label(u64),
}

/// Why host code could not be produced.
#[derive(Debug, Clone, Copy, PartialEq, Eq, Structural)]
pub enum EncodingError {
    /// The encoder refused an instruction or the whole block.
    Encoder,
    /// A label other than the first of the block is used.
    Label,
}

#[verifier::external_type_specification]
#[verifier::external_body]
pub struct ExCodeAssembler(CodeAssembler);

#[verifier::external_type_specification]
#[verifier::external_body]
pub struct ExCodeLabel(CodeLabel);

#[verifier::external_type_specification]
#[verifier::external_body]
pub struct ExIcedError(IcedError);

/// The instructions that an assembler holds, in the order they were added.
pub uninterp spec fn asm_code(a: CodeAssembler) -> Seq<HostInst>;

/// How many labels an assembler has created.
pub uninterp spec fn asm_labels(a: CodeAssembler) -> nat;

/// The number by which instructions refer to a label.
pub uninterp spec fn label_number(l: CodeLabel) -> nat;

/// The machine code of a sequence of instructions placed at `ip`.
pub uninterp spec fn encoded(code: Seq<HostInst>, ip: u64) -> Seq<u8>;

/// Whether an assembler that holds `code` takes `inst` as the next
/// instruction: whether the call that adds it succeeds. An immediate that is
/// added to or subtracted from a 64-bit register is sign-extended from 32
/// bits and has to be below 2^31. A label has to have a number other than 0,
/// and cannot follow a label directly, since an instruction has one label at
/// most. Every other instruction is taken.
pub open spec fn takes(code: Seq<HostInst>, inst: HostInst) -> bool {
    match inst {
        HostInst::AddImm(_, imm) => imm <= 0x7fff_ffff,
        HostInst::SubImm(_, imm) => imm <= 0x7fff_ffff,
        HostInst::Label(number) => number != 0 && !(code.len() > 0 && code.last() is Label),
        _ => true,
    }
}

/// Whether the encoder has machine code for `code` placed at `ip`: whether
/// `CodeAssembler::assemble` succeeds.
pub uninterp spec fn encodes(code: Seq<HostInst>, ip: u64) -> bool;

/// No instructions.
pub open spec fn no_code() -> Seq<HostInst> {
    Seq::empty()
}

/// What adding an instruction owes: on success the assembler holds `inst`
/// behind what it held, on failure it holds what it held. Whether it
/// succeeds is what `takes` says.
pub open spec fn added(
    before: Seq<HostInst>,
    after: Seq<HostInst>,
    inst: HostInst,
    ok: bool,
) -> bool {
    after == if ok {
        before.push(inst)
    } else {
        before
    }
}

/// `CodeAssembler::new` for 64-bit code, which it accepts: an assembler
/// that holds no instruction and has created no label.
#[verifier::external_body]
fn asm_new() -> (r: Result<CodeAssembler, IcedError>)
    ensures
        r is Ok,
        r matches Ok(a) ==> asm_code(a) == no_code() && asm_labels(a) == 0,
{
    CodeAssembler::new(64)
}

/// `CodeAssembler::add_instruction` of `mov r/m64, r64`: one instruction
/// is added.
/// It succeeds exactly where `takes` says so.
#[verifier::external_body]
fn asm_mov(a: &mut CodeAssembler, dst: Register, src: Register) -> (r: Result<(), IcedError>)
    ensures
        added(
            asm_code(*old(a)),
            asm_code(*final(a)),
            HostInst::Binary(BinaryOp::Mov, dst, src),
            r is Ok,
        ),
        r is Ok <==> takes(asm_code(*old(a)), HostInst::Binary(BinaryOp::Mov, dst, src)),
{
    let (d, s) = (HostReg::RAX + u32::from(dst.number()), HostReg::RAX + u32::from(src.number()));
    a.add_instruction(Instruction::with2(Code::Mov_rm64_r64, d, s)?)
}

/// `CodeAssembler::add_instruction` of `add r/m64, r64`: one instruction
/// is added.
/// It succeeds exactly where `takes` says so.
#[verifier::external_body]
fn asm_add(a: &mut CodeAssembler, dst: Register, src: Register) -> (r: Result<(), IcedError>)
    ensures
        added(
            asm_code(*old(a)),
            asm_code(*final(a)),
            HostInst::Binary(BinaryOp::Add, dst, src),
            r is Ok,
        ),
        r is Ok <==> takes(asm_code(*old(a)), HostInst::Binary(BinaryOp::Add, dst, src)),
{
    let (d, s) = (HostReg::RAX + u32::from(dst.number()), HostReg::RAX + u32::from(src.number()));
    a.add_instruction(Instruction::with2(Code::Add_rm64_r64, d, s)?)
}

/// `CodeAssembler::add_instruction` of `and r/m64, r64`: one instruction
/// is added.
/// It succeeds exactly where `takes` says so.
#[verifier::external_body]
fn asm_and(a: &mut CodeAssembler, dst: Register, src: Register) -> (r: Result<(), IcedError>)
    ensures
        added(
            asm_code(*old(a)),
            asm_code(*final(a)),
            HostInst::Binary(BinaryOp::And, dst, src),
            r is Ok,
        ),
        r is Ok <==> takes(asm_code(*old(a)), HostInst::Binary(BinaryOp::And, dst, src)),
{
    let (d, s) = (HostReg::RAX + u32::from(dst.number()), HostReg::RAX + u32::from(src.number()));
    a.add_instruction(Instruction::with2(Code::And_rm64_r64, d, s)?)
}

/// `CodeAssembler::add_instruction` of `or r/m64, r64`: one instruction
/// is added.
/// It succeeds exactly where `takes` says so.
#[verifier::external_body]
fn asm_or(a: &mut CodeAssembler, dst: Register, src: Register) -> (r: Result<(), IcedError>)
    ensures
        added(
            asm_code(*old(a)),
            asm_code(*final(a)),
            HostInst::Binary(BinaryOp::Or, dst, src),
            r is Ok,
        ),
        r is Ok <==> takes(asm_code(*old(a)), HostInst::Binary(BinaryOp::Or, dst, src)),
{
    let (d, s) = (HostReg::RAX + u32::from(dst.number()), HostReg::RAX + u32::from(src.number()));
    a.add_instruction(Instruction::with2(Code::Or_rm64_r64, d, s)?)
}

/// `CodeAssembler::add_instruction` of `xor r/m64, r64`: one instruction
/// is added.
/// It succeeds exactly where `takes` says so.
#[verifier::external_body]
fn asm_xor(a: &mut CodeAssembler, dst: Register, src: Register) -> (r: Result<(), IcedError>)
    ensures
        added(
            asm_code(*old(a)),
            asm_code(*final(a)),
            HostInst::Binary(BinaryOp::Xor, dst, src),
            r is Ok,
        ),
        r is Ok <==> takes(asm_code(*old(a)), HostInst::Binary(BinaryOp::Xor, dst, src)),
{
    let (d, s) = (HostReg::RAX + u32::from(dst.number()), HostReg::RAX + u32::from(src.number()));
    a.add_instruction(Instruction::with2(Code::Xor_rm64_r64, d, s)?)
}

/// `CodeAssembler::add_instruction` of `cmp r/m64, r64`: one instruction
/// is added.
/// It succeeds exactly where `takes` says so.
#[verifier::external_body]
fn asm_compare(a: &mut CodeAssembler, dst: Register, src: Register) -> (r: Result<(), IcedError>)
    ensures
        added(
            asm_code(*old(a)),
            asm_code(*final(a)),
            HostInst::Binary(BinaryOp::Cmp, dst, src),
            r is Ok,
        ),
        r is Ok <==> takes(asm_code(*old(a)), HostInst::Binary(BinaryOp::Cmp, dst, src)),
{
    let (d, s) = (HostReg::RAX + u32::from(dst.number()), HostReg::RAX + u32::from(src.number()));
    a.add_instruction(Instruction::with2(Code::Cmp_rm64_r64, d, s)?)
}

/// `CodeAssembler::add_instruction` of `not r/m64`: one instruction is added.
/// It succeeds exactly where `takes` says so.
#[verifier::external_body]
fn asm_not(a: &mut CodeAssembler, reg: Register) -> (r: Result<(), IcedError>)
    ensures
        added(asm_code(*old(a)), asm_code(*final(a)), HostInst::Unary(UnaryOp::Not, reg), r is Ok),
        r is Ok <==> takes(asm_code(*old(a)), HostInst::Unary(UnaryOp::Not, reg)),
{
    a.add_instruction(Instruction::with1(Code::Not_rm64, HostReg::RAX + u32::from(reg.number()))?)
}

/// `CodeAssembler::add_instruction` of `push r64`: one instruction is added.
/// It succeeds exactly where `takes` says so.
#[verifier::external_body]
fn asm_push(a: &mut CodeAssembler, reg: Register) -> (r: Result<(), IcedError>)
    ensures
        added(asm_code(*old(a)), asm_code(*final(a)), HostInst::Unary(UnaryOp::Push, reg), r is Ok),
        r is Ok <==> takes(asm_code(*old(a)), HostInst::Unary(UnaryOp::Push, reg)),
{
    a.add_instruction(Instruction::with1(Code::Push_r64, HostReg::RAX + u32::from(reg.number()))?)
}

/// `CodeAssembler::add_instruction` of `pop r64`: one instruction is added.
/// It succeeds exactly where `takes` says so.
#[verifier::external_body]
fn asm_pop(a: &mut CodeAssembler, reg: Register) -> (r: Result<(), IcedError>)
    ensures
        added(asm_code(*old(a)), asm_code(*final(a)), HostInst::Unary(UnaryOp::Pop, reg), r is Ok),
        r is Ok <==> takes(asm_code(*old(a)), HostInst::Unary(UnaryOp::Pop, reg)),
{
    a.add_instruction(Instruction::with1(Code::Pop_r64, HostReg::RAX + u32::from(reg.number()))?)
}

/// `CodeAssembler::add_instruction` of `jmp r/m64`: one instruction is added.
/// It succeeds exactly where `takes` says so.
#[verifier::external_body]
fn asm_jmp(a: &mut CodeAssembler, reg: Register) -> (r: Result<(), IcedError>)
    ensures
        added(asm_code(*old(a)), asm_code(*final(a)), HostInst::Unary(UnaryOp::Jmp, reg), r is Ok),
        r is Ok <==> takes(asm_code(*old(a)), HostInst::Unary(UnaryOp::Jmp, reg)),
{
    a.add_instruction(Instruction::with1(Code::Jmp_rm64, HostReg::RAX + u32::from(reg.number()))?)
}

/// `CodeAssembler::add_instruction` of `call r/m64`: one instruction is added.
/// It succeeds exactly where `takes` says so.
#[verifier::external_body]
fn asm_call(a: &mut CodeAssembler, reg: Register) -> (r: Result<(), IcedError>)
    ensures
        added(asm_code(*old(a)), asm_code(*final(a)), HostInst::Unary(UnaryOp::Call, reg), r is Ok),
        r is Ok <==> takes(asm_code(*old(a)), HostInst::Unary(UnaryOp::Call, reg)),
{
    a.add_instruction(Instruction::with1(Code::Call_rm64, HostReg::RAX + u32::from(reg.number()))?)
}

/// `CodeAssembler::mov` of a 64-bit immediate into a register: one
/// instruction is added.
/// It succeeds exactly where `takes` says so.
#[verifier::external_body]
fn asm_mov_imm(a: &mut CodeAssembler, dst: Register, imm: u64) -> (r: Result<(), IcedError>)
    ensures
        added(asm_code(*old(a)), asm_code(*final(a)), HostInst::MovImm(dst, imm), r is Ok),
        r is Ok <==> takes(asm_code(*old(a)), HostInst::MovImm(dst, imm)),
{
    a.mov(gpr64::get_gpr64(HostReg::RAX + u32::from(dst.number())).unwrap(), imm)
}

/// `CodeAssembler::mov` of a 32-bit immediate into the low half of a
/// register: one instruction is added.
/// It succeeds exactly where `takes` says so.
#[verifier::external_body]
fn asm_mov_imm32(a: &mut CodeAssembler, dst: Register, imm: u32) -> (r: Result<(), IcedError>)
    ensures
        added(asm_code(*old(a)), asm_code(*final(a)), HostInst::MovImm32(dst, imm), r is Ok),
        r is Ok <==> takes(asm_code(*old(a)), HostInst::MovImm32(dst, imm)),
{
    a.mov(gpr32::get_gpr32(HostReg::EAX + u32::from(dst.number())).unwrap(), imm)
}

/// `CodeAssembler::mov` from memory into a register: one instruction is
/// added.
/// It succeeds exactly where `takes` says so.
#[verifier::external_body]
fn asm_load(a: &mut CodeAssembler, dst: Register, base: Register, disp: i32) -> (r: Result<
    (),
    IcedError,
>)
    ensures
        added(asm_code(*old(a)), asm_code(*final(a)), HostInst::Load(dst, base, disp), r is Ok),
        r is Ok <==> takes(asm_code(*old(a)), HostInst::Load(dst, base, disp)),
{
    let d = gpr64::get_gpr64(HostReg::RAX + u32::from(dst.number())).unwrap();
    let b = gpr64::get_gpr64(HostReg::RAX + u32::from(base.number())).unwrap();
    a.mov(d, qword_ptr(b + disp))
}

/// `CodeAssembler::mov` from a register into memory: one instruction is
/// added.
/// It succeeds exactly where `takes` says so.
#[verifier::external_body]
fn asm_store(a: &mut CodeAssembler, base: Register, disp: i32, src: Register) -> (r: Result<
    (),
    IcedError,
>)
    ensures
        added(asm_code(*old(a)), asm_code(*final(a)), HostInst::Store(base, disp, src), r is Ok),
        r is Ok <==> takes(asm_code(*old(a)), HostInst::Store(base, disp, src)),
{
    let s = gpr64::get_gpr64(HostReg::RAX + u32::from(src.number())).unwrap();
    let b = gpr64::get_gpr64(HostReg::RAX + u32::from(base.number())).unwrap();
    a.mov(qword_ptr(b + disp), s)
}

/// `CodeAssembler::mov` of an immediate into a byte of memory: one
/// instruction is added.
/// It succeeds exactly where `takes` says so.
#[verifier::external_body]
fn asm_store_byte(a: &mut CodeAssembler, base: Register, value: u8) -> (r: Result<(), IcedError>)
    ensures
        added(asm_code(*old(a)), asm_code(*final(a)), HostInst::StoreByte(base, value), r is Ok),
        r is Ok <==> takes(asm_code(*old(a)), HostInst::StoreByte(base, value)),
{
    let b = gpr64::get_gpr64(HostReg::RAX + u32::from(base.number())).unwrap();
    a.mov(byte_ptr(b), u32::from(value))
}

/// `CodeAssembler::and` of a sign-extended 32-bit immediate into a register:
/// one instruction is added.
/// It succeeds exactly where `takes` says so.
#[verifier::external_body]
fn asm_and_imm(a: &mut CodeAssembler, dst: Register, imm: i32) -> (r: Result<(), IcedError>)
    ensures
        added(asm_code(*old(a)), asm_code(*final(a)), HostInst::AndImm(dst, imm), r is Ok),
        r is Ok <==> takes(asm_code(*old(a)), HostInst::AndImm(dst, imm)),
{
    a.and(gpr64::get_gpr64(HostReg::RAX + u32::from(dst.number())).unwrap(), imm)
}

/// `CodeAssembler::add_instruction` of `add r/m64, imm32`: one instruction
/// is added.
/// It succeeds exactly where `takes` says so.
#[verifier::external_body]
fn asm_add_imm(a: &mut CodeAssembler, dst: Register, imm: u32) -> (r: Result<(), IcedError>)
    ensures
        added(asm_code(*old(a)), asm_code(*final(a)), HostInst::AddImm(dst, imm), r is Ok),
        r is Ok <==> takes(asm_code(*old(a)), HostInst::AddImm(dst, imm)),
{
    let d = HostReg::RAX + u32::from(dst.number());
    a.add_instruction(Instruction::with2(Code::Add_rm64_imm32, d, imm)?)
}

/// `CodeAssembler::add_instruction` of `sub r/m64, imm32`: one instruction
/// is added.
/// It succeeds exactly where `takes` says so.
#[verifier::external_body]
fn asm_sub_imm(a: &mut CodeAssembler, dst: Register, imm: u32) -> (r: Result<(), IcedError>)
    ensures
        added(asm_code(*old(a)), asm_code(*final(a)), HostInst::SubImm(dst, imm), r is Ok),
        r is Ok <==> takes(asm_code(*old(a)), HostInst::SubImm(dst, imm)),
{
    let d = HostReg::RAX + u32::from(dst.number());
    a.add_instruction(Instruction::with2(Code::Sub_rm64_imm32, d, imm)?)
}

/// `CodeAssembler::add_instruction` of `add r32, r/m32`: one instruction is
/// added.
/// It succeeds exactly where `takes` says so.
#[verifier::external_body]
fn asm_add32(a: &mut CodeAssembler, dst: Register, src: Register) -> (r: Result<(), IcedError>)
    ensures
        added(asm_code(*old(a)), asm_code(*final(a)), HostInst::Add32(dst, src), r is Ok),
        r is Ok <==> takes(asm_code(*old(a)), HostInst::Add32(dst, src)),
{
    let (d, s) = (HostReg::EAX + u32::from(dst.number()), HostReg::EAX + u32::from(src.number()));
    a.add_instruction(Instruction::with2(Code::Add_r32_rm32, d, s)?)
}

/// `CodeAssembler::movsx` from the low byte of `r14`, sign-extended: one
/// instruction is added.
/// It succeeds exactly where `takes` says so.
#[verifier::external_body]
fn asm_movsx_byte(a: &mut CodeAssembler, dst: Register) -> (r: Result<(), IcedError>)
    ensures
        added(asm_code(*old(a)), asm_code(*final(a)), HostInst::Extend(Extension::SignByte, dst), r is Ok),
        r is Ok <==> takes(asm_code(*old(a)), HostInst::Extend(Extension::SignByte, dst)),
{
    a.movsx(gpr64::get_gpr64(HostReg::RAX + u32::from(dst.number())).unwrap(), r14b)
}

/// `CodeAssembler::movsx` from the low word of `r14`, sign-extended: one
/// instruction is added.
/// It succeeds exactly where `takes` says so.
#[verifier::external_body]
fn asm_movsx_word(a: &mut CodeAssembler, dst: Register) -> (r: Result<(), IcedError>)
    ensures
        added(asm_code(*old(a)), asm_code(*final(a)), HostInst::Extend(Extension::SignWord, dst), r is Ok),
        r is Ok <==> takes(asm_code(*old(a)), HostInst::Extend(Extension::SignWord, dst)),
{
    a.movsx(gpr64::get_gpr64(HostReg::RAX + u32::from(dst.number())).unwrap(), r14w)
}

/// `CodeAssembler::movsxd` from the low half of `r14`, sign-extended: one
/// instruction is added.
/// It succeeds exactly where `takes` says so.
#[verifier::external_body]
fn asm_movsxd(a: &mut CodeAssembler, dst: Register) -> (r: Result<(), IcedError>)
    ensures
        added(asm_code(*old(a)), asm_code(*final(a)), HostInst::Extend(Extension::SignDword, dst), r is Ok),
        r is Ok <==> takes(asm_code(*old(a)), HostInst::Extend(Extension::SignDword, dst)),
{
    a.movsxd(gpr64::get_gpr64(HostReg::RAX + u32::from(dst.number())).unwrap(), r14d)
}

/// `CodeAssembler::movzx` from the low byte of `r14`, zero-extended: one
/// instruction is added.
/// It succeeds exactly where `takes` says so.
#[verifier::external_body]
fn asm_movzx_byte(a: &mut CodeAssembler, dst: Register) -> (r: Result<(), IcedError>)
    ensures
        added(asm_code(*old(a)), asm_code(*final(a)), HostInst::Extend(Extension::ZeroByte, dst), r is Ok),
        r is Ok <==> takes(asm_code(*old(a)), HostInst::Extend(Extension::ZeroByte, dst)),
{
    a.movzx(gpr64::get_gpr64(HostReg::RAX + u32::from(dst.number())).unwrap(), r14b)
}

/// `CodeAssembler::movzx` from the low word of `r14`, zero-extended: one
/// instruction is added.
/// It succeeds exactly where `takes` says so.
#[verifier::external_body]
fn asm_movzx_word(a: &mut CodeAssembler, dst: Register) -> (r: Result<(), IcedError>)
    ensures
        added(asm_code(*old(a)), asm_code(*final(a)), HostInst::Extend(Extension::ZeroWord, dst), r is Ok),
        r is Ok <==> takes(asm_code(*old(a)), HostInst::Extend(Extension::ZeroWord, dst)),
{
    a.movzx(gpr64::get_gpr64(HostReg::RAX + u32::from(dst.number())).unwrap(), r14w)
}

/// `CodeAssembler::mov` from `spl` into `bl`: one instruction is added.
/// It succeeds exactly where `takes` says so.
#[verifier::external_body]
fn asm_save_stack_low(a: &mut CodeAssembler) -> (r: Result<(), IcedError>)
    ensures
        added(asm_code(*old(a)), asm_code(*final(a)), HostInst::SaveStackLow, r is Ok),
        r is Ok <==> takes(asm_code(*old(a)), HostInst::SaveStackLow),
{
    a.mov(bl, spl)
}

/// `CodeAssembler::mov` from `bl` into `spl`: one instruction is added.
/// It succeeds exactly where `takes` says so.
#[verifier::external_body]
fn asm_restore_stack_low(a: &mut CodeAssembler) -> (r: Result<(), IcedError>)
    ensures
        added(asm_code(*old(a)), asm_code(*final(a)), HostInst::RestoreStackLow, r is Ok),
        r is Ok <==> takes(asm_code(*old(a)), HostInst::RestoreStackLow),
{
    a.mov(spl, bl)
}

/// `CodeAssembler::create_label`: a label with the next number. The
/// instructions stay.
#[verifier::external_body]
fn asm_create_label(a: &mut CodeAssembler) -> (l: CodeLabel)
    ensures
        label_number(l) == asm_labels(*old(a)) + 1,
        asm_labels(*final(a)) == label_number(l),
        asm_code(*final(a)) == asm_code(*old(a)),
{
    a.create_label()
}

/// `CodeAssembler::set_label`: the label names the next instruction.
/// It succeeds exactly where `takes` says so.
#[verifier::external_body]
fn asm_set_label(a: &mut CodeAssembler, label: CodeLabel) -> (r: Result<(), IcedError>)
    ensures
        added(
            asm_code(*old(a)),
            asm_code(*final(a)),
            HostInst::Label(label_number(label) as u64),
            r is Ok,
        ),
        r is Ok <==> takes(asm_code(*old(a)), HostInst::Label(label_number(label) as u64)),
{
    let mut label = label;
    a.set_label(&mut label)
}

/// `CodeAssembler::je` to a label: one instruction is added.
/// It succeeds exactly where `takes` says so.
#[verifier::external_body]
fn asm_je(a: &mut CodeAssembler, label: CodeLabel) -> (r: Result<(), IcedError>)
    ensures
        added(
            asm_code(*old(a)),
            asm_code(*final(a)),
            HostInst::Je(label_number(label) as u64),
            r is Ok,
        ),
        r is Ok <==> takes(asm_code(*old(a)), HostInst::Je(label_number(label) as u64)),
{
    a.je(label)
}

/// `CodeAssembler::assemble`: the machine code of the instructions that the
/// assembler holds, placed at `ip`.
/// It succeeds exactly where `encodes` says so.
#[verifier::external_body]
fn asm_assemble(a: &mut CodeAssembler, ip: u64) -> (r: Result<Vec<u8>, IcedError>)
    ensures
        r is Ok <==> encodes(asm_code(*old(a)), ip),
        r matches Ok(bytes) ==> bytes@ == encoded(asm_code(*old(a)), ip),
{
    a.assemble(ip)
}

/// Adds one instruction that is no label and no jump to a label.
fn add_plain(a: &mut CodeAssembler, inst: HostInst) -> (r: Result<(), IcedError>)
    requires
        !(inst is Je),
        !(inst is Label),
    ensures
        added(asm_code(*old(a)), asm_code(*final(a)), inst, r is Ok),
        r is Ok <==> takes(asm_code(*old(a)), inst),
{
    match inst {
        HostInst::Binary(op, dst, src) => match op {
            BinaryOp::Mov => asm_mov(a, dst, src),
            BinaryOp::Add => asm_add(a, dst, src),
            BinaryOp::And => asm_and(a, dst, src),
            BinaryOp::Or => asm_or(a, dst, src),
            BinaryOp::Xor => asm_xor(a, dst, src),
            BinaryOp::Cmp => asm_compare(a, dst, src),
        },
        HostInst::Unary(op, reg) => match op {
            UnaryOp::Not => asm_not(a, reg),
            UnaryOp::Push => asm_push(a, reg),
            UnaryOp::Pop => asm_pop(a, reg),
            UnaryOp::Jmp => asm_jmp(a, reg),
            UnaryOp::Call => asm_call(a, reg),
        },
        HostInst::MovImm(dst, imm) => asm_mov_imm(a, dst, imm),
        HostInst::MovImm32(dst, imm) => asm_mov_imm32(a, dst, imm),
        HostInst::Load(dst, base, disp) => asm_load(a, dst, base, disp),
        HostInst::Store(base, disp, src) => asm_store(a, base, disp, src),
        HostInst::StoreByte(base, value) => asm_store_byte(a, base, value),
        HostInst::AndImm(dst, imm) => asm_and_imm(a, dst, imm),
        HostInst::AddImm(dst, imm) => asm_add_imm(a, dst, imm),
        HostInst::SubImm(dst, imm) => asm_sub_imm(a, dst, imm),
        HostInst::Add32(dst, src) => asm_add32(a, dst, src),
        HostInst::Extend(how, dst) => match how {
            Extension::SignByte => asm_movsx_byte(a, dst),
            Extension::SignWord => asm_movsx_word(a, dst),
            Extension::SignDword => asm_movsxd(a, dst),
            Extension::ZeroByte => asm_movzx_byte(a, dst),
            Extension::ZeroWord => asm_movzx_word(a, dst),
        },
        HostInst::SaveStackLow => asm_save_stack_low(a),
        HostInst::RestoreStackLow => asm_restore_stack_low(a),
        HostInst::Je(_) => Ok(()),
        HostInst::Label(_) => Ok(()),
    }
}

/// Whether the instruction uses no label but the first of the block.
pub open spec fn label_ok(inst: HostInst) -> bool {
    match inst {
        HostInst::Je(label) => label == 1,
        HostInst::Label(label) => label == 1,
        _ => true,
    }
}

/// Whether every label that the code uses is the first label of the block.
pub open spec fn labels_ok(code: Seq<HostInst>) -> bool {
    forall|i: int| 0 <= i < code.len() ==> label_ok(#[trigger] code[i])
}

/// Whether the assembler takes the instruction at `i` behind those in front
/// of it.
pub open spec fn taken(code: Seq<HostInst>, i: int) -> bool {
    takes(code.take(i), code[i])
}

/// Whether the instruction at `i` uses no label but the first and is taken
/// behind those in front of it.
pub open spec fn fine(code: Seq<HostInst>, i: int) -> bool {
    label_ok(code[i]) && taken(code, i)
}

/// The first fault among the first `n` instructions of a block, if there is
/// one: an instruction that uses another label than the first, or one that
/// the assembler does not take behind those in front of it.
pub open spec fn fault(code: Seq<HostInst>, n: nat) -> Option<EncodingError>
    decreases n,
{
    if n == 0 {
        None
    } else {
        match fault(code, (n - 1) as nat) {
            Some(e) => Some(e),
            None => if !label_ok(code[n - 1]) {
                Some(EncodingError::Label)
            } else if !taken(code, n - 1) {
                Some(EncodingError::Encoder)
            } else {
                None
            },
        }
    }
}

/// The machine code of a block placed at address 0, or the first fault of
/// the block. A block without a fault that the encoder has no machine code
/// for is refused as well.
pub open spec fn assembly(code: Seq<HostInst>) -> Result<Seq<u8>, EncodingError> {
    match fault(code, code.len()) {
        Some(e) => Err(e),
        None => if encodes(code, 0) {
            Ok(encoded(code, 0))
        } else {
            Err(EncodingError::Encoder)
        },
    }
}

/// A fault stays the first fault when more instructions follow.
pub proof fn lemma_fault_stays(code: Seq<HostInst>, n: nat, m: nat)
    requires
        n <= m,
        fault(code, n) is Some,
    ensures
        fault(code, m) == fault(code, n),
    decreases m,
{
    if n < m {
        lemma_fault_stays(code, n, (m - 1) as nat);
    }
}

/// A block is encoded exactly if each of its instructions uses no label but
/// the first and is taken behind those in front of it, and the encoder has
/// machine code for the whole. Where it is refused for a label, some
/// instruction uses another label than the first.
pub proof fn lemma_assembly_succeeds(code: Seq<HostInst>)
    ensures
        assembly(code) is Ok <==> fine_below(code, code.len()) && encodes(code, 0),
        fine_below(code, code.len()) <==> labels_ok(code) && forall|i: int|
            0 <= i < code.len() ==> #[trigger] taken(code, i),
        assembly(code) == Err::<Seq<u8>, EncodingError>(EncodingError::Label) ==> !labels_ok(code),
{
    lemma_fault_free(code, code.len());
    if fault(code, code.len()) == Some(EncodingError::Label) {
        lemma_fault_labels(code, code.len());
    }
    if fine_below(code, code.len()) {
        assert forall|i: int| 0 <= i < code.len() implies label_ok(#[trigger] code[i]) by {
            assert(fine(code, i));
        }
        assert forall|i: int| 0 <= i < code.len() implies #[trigger] taken(code, i) by {
            assert(fine(code, i));
        }
    }
    if labels_ok(code) && (forall|i: int| 0 <= i < code.len() ==> #[trigger] taken(code, i)) {
        assert forall|i: int| 0 <= i < code.len() implies #[trigger] fine(code, i) by {
            assert(label_ok(code[i]));
            assert(taken(code, i));
        }
    }
}

/// Whether each of the first `n` instructions uses no label but the first
/// and is taken behind those in front of it.
pub open spec fn fine_below(code: Seq<HostInst>, n: nat) -> bool {
    forall|i: int| 0 <= i < n ==> #[trigger] fine(code, i)
}

/// The first `n` instructions are without fault exactly if each of them is.
pub proof fn lemma_fault_free(code: Seq<HostInst>, n: nat)
    requires
        n <= code.len(),
    ensures
        fault(code, n) is None <==> fine_below(code, n),
    decreases n,
{
    if n > 0 {
        let m = (n - 1) as nat;
        lemma_fault_free(code, m);
        if fault(code, n) is None {
            assert(fine(code, m as int));
            assert forall|i: int| 0 <= i < n implies #[trigger] fine(code, i) by {
                if i < m {
                    assert(fine_below(code, m));
                }
            }
        } else if fine_below(code, n) {
            assert(fine(code, m as int));
            assert forall|i: int| 0 <= i < m implies #[trigger] fine(code, i) by {
                assert(0 <= i < n);
            }
            assert(fine_below(code, m));
        }
    }
}

/// An instruction that uses no label but the first and that the assembler
/// takes can follow instructions of which the same holds.
pub proof fn lemma_fine_push(code: Seq<HostInst>, inst: HostInst)
    requires
        fine_below(code, code.len()),
        label_ok(inst),
        takes(code, inst),
    ensures
        fine_below(code.push(inst), code.len() + 1),
{
    let more = code.push(inst);
    assert forall|i: int| 0 <= i < more.len() implies #[trigger] fine(more, i) by {
        if i < code.len() {
            assert(fine(code, i));
            assert(more.take(i) =~= code.take(i));
        } else {
            assert(more.take(i) =~= code);
        }
    }
}

/// Where the first fault is a label, some instruction uses a wrong one.
proof fn lemma_fault_labels(code: Seq<HostInst>, n: nat)
    requires
        n <= code.len(),
        fault(code, n) == Some(EncodingError::Label),
    ensures
        !labels_ok(code),
    decreases n,
{
    if n > 0 {
        if fault(code, (n - 1) as nat) is Some {
            lemma_fault_labels(code, (n - 1) as nat);
        } else {
            assert(!label_ok(code[n - 1]));
        }
    }
}

/// Encodes a block of host instructions placed at address 0. The block may
/// use one label, with the number 1.
pub fn assemble(code: &[HostInst]) -> (r: Result<Vec<u8>, EncodingError>)
    ensures
        match assembly(code@) {
            Ok(bytes) => r matches Ok(v) && v@ == bytes,
            Err(e) => r == Err::<Vec<u8>, EncodingError>(e),
        },
{
    let mut a = match asm_new() {
        Ok(a) => a,
        Err(_) => {
            return Err(EncodingError::Encoder);
        },
    };
    let label = asm_create_label(&mut a);
    let mut i: usize = 0;
    while i < code.len()
        invariant
            i <= code@.len(),
            label_number(label) == 1,
            asm_code(a) == code@.take(i as int),
            fault(code@, i as nat) is None,
        decreases code@.len() - i,
    {
        let inst = code[i];
        let added = match inst {
            HostInst::Je(n) => {
                if n != 1 {
                    proof {
                        lemma_fault_stays(code@, (i + 1) as nat, code@.len());
                    }
                    return Err(EncodingError::Label);
                }
                asm_je(&mut a, label)
            },
            HostInst::Label(n) => {
                if n != 1 {
                    proof {
                        lemma_fault_stays(code@, (i + 1) as nat, code@.len());
                    }
                    return Err(EncodingError::Label);
                }
                asm_set_label(&mut a, label)
            },
            _ => add_plain(&mut a, inst),
        };
        if added.is_err() {
            proof {
                lemma_fault_stays(code@, (i + 1) as nat, code@.len());
            }
            return Err(EncodingError::Encoder);
        }
        proof {
            assert(code@.take(i as int + 1) =~= code@.take(i as int).push(inst));
        }
        i = i + 1;
    }
    proof {
        assert(code@.take(i as int) =~= code@);
    }
    match asm_assemble(&mut a, 0) {
        Ok(bytes) => Ok(bytes),
        Err(_) => Err(EncodingError::Encoder),
    }
}

} // verus!
