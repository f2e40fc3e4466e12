use wicked64::codegen::assembler::EncodeError;
use wicked64::jit::codegen::callable::{Callable, FunctionAddress};
use wicked64::jit::codegen::emitter::{AddressingMode, CallArg, Emitter};
use wicked64::jit::codegen::register::X64Gpr;

fn mov(dst: AddressingMode, src: AddressingMode) -> Vec<u8> {
    let mut buf = Vec::new();
    buf.emit_mov(dst, src).unwrap();
    buf
}

fn reg(r: X64Gpr) -> AddressingMode {
    AddressingMode::Register(r)
}

#[test]
fn it_should_get_the_right_callable_arguments_size() {
    fn a() {}
    fn b(_: u8) {}
    fn c(_: u8, _: u16) -> u8 {
        0
    }
    fn d(_: u8, _: u16, _: u32) -> String {
        String::new()
    }
    fn e(_: u8, _: u16, _: u32, _: Vec<u64>) -> &'static str {
        ""
    }

    let a = FunctionAddress::<0>::new(a as fn() as usize);
    let b = FunctionAddress::<1>::new(b as fn(u8) as usize);
    let c = FunctionAddress::<2>::new(c as fn(u8, u16) -> u8 as usize);
    let d = FunctionAddress::<3>::new(d as fn(u8, u16, u32) -> String as usize);
    let e = FunctionAddress::<4>::new(e as fn(u8, u16, u32, Vec<u64>) -> &'static str as usize);

    assert_eq!(0, Callable::nargs(&a));
    assert_eq!(1, Callable::nargs(&b));
    assert_eq!(2, Callable::nargs(&c));
    assert_eq!(3, Callable::nargs(&d));
    assert_eq!(4, Callable::nargs(&e));
}

#[test]
fn it_should_emit_mov_with_reg_reg_addressing_mode() {
    // mov rcx, r8
    let code = mov(reg(X64Gpr::Rcx), reg(X64Gpr::R8));
    assert_eq!(code, vec![0x4c, 0x89, 0xc1]);
    // mov r9, rax
    let code = mov(reg(X64Gpr::R9), reg(X64Gpr::Rax));
    assert_eq!(code, vec![0x49, 0x89, 0xc1]);
    // mov rcx, rbx
    let code = mov(reg(X64Gpr::Rcx), reg(X64Gpr::Rbx));
    assert_eq!(code, vec![0x48, 0x89, 0xd9]);
    // mov r9, r11
    let code = mov(reg(X64Gpr::R9), reg(X64Gpr::R11));
    assert_eq!(code, vec![0x4d, 0x89, 0xd9]);
}

#[test]
fn it_should_emit_mov_with_reg_immediate_addressing_mode() {
    // mov rcx, 0x3412
    let code = mov(reg(X64Gpr::Rcx), AddressingMode::Immediate(0x3412));
    assert_eq!(code, vec![0xb9, 0x12, 0x34, 0x00, 0x00]);
    // mov rbx, 0x3412
    let code = mov(reg(X64Gpr::Rbx), AddressingMode::Immediate(0x3412));
    assert_eq!(code, vec![0xbb, 0x12, 0x34, 0x00, 0x00]);
    // mov r9, 0x3412
    let code = mov(reg(X64Gpr::R9), AddressingMode::Immediate(0x3412));
    assert_eq!(code, vec![0x41, 0xb9, 0x12, 0x34, 0x00, 0x00]);
    // mov r11, 0x3412
    let code = mov(reg(X64Gpr::R11), AddressingMode::Immediate(0x3412));
    assert_eq!(code, vec![0x41, 0xbb, 0x12, 0x34, 0x00, 0x00]);
    // mov rax, 0x3412
    let code = mov(reg(X64Gpr::Rax), AddressingMode::Immediate(0x3412));
    assert_eq!(code, vec![0xb8, 0x12, 0x34, 0x00, 0x00]);
    // mov r8, 0x3412
    let code = mov(reg(X64Gpr::R8), AddressingMode::Immediate(0x3412));
    assert_eq!(code, vec![0x41, 0xb8, 0x12, 0x34, 0x00, 0x00]);
}

#[test]
fn it_should_emit_mov_with_reg_direct_addressing_mode() {
    // mov rcx, [0x78563412]
    let code = mov(reg(X64Gpr::Rcx), AddressingMode::Direct(0x78563412));
    assert_eq!(code, vec![0x48, 0x8b, 0x0c, 0x25, 0x12, 0x34, 0x56, 0x78]);
    // mov rbx, [0x78563412]
    let code = mov(reg(X64Gpr::Rbx), AddressingMode::Direct(0x78563412));
    assert_eq!(code, vec![0x48, 0x8b, 0x1c, 0x25, 0x12, 0x34, 0x56, 0x78]);
    // mov r9, [0x78563412]
    let code = mov(reg(X64Gpr::R9), AddressingMode::Direct(0x78563412));
    assert_eq!(code, vec![0x4c, 0x8b, 0x0c, 0x25, 0x12, 0x34, 0x56, 0x78]);
    // mov r11, [0x78563412]
    let code = mov(reg(X64Gpr::R11), AddressingMode::Direct(0x78563412));
    assert_eq!(code, vec![0x4c, 0x8b, 0x1c, 0x25, 0x12, 0x34, 0x56, 0x78]);
    // mov rax, [0x78563412]
    let code = mov(reg(X64Gpr::Rax), AddressingMode::Direct(0x78563412));
    assert_eq!(code, vec![0x48, 0x8b, 0x04, 0x25, 0x12, 0x34, 0x56, 0x78]);
    // mov r8, [0x78563412]
    let code = mov(reg(X64Gpr::R8), AddressingMode::Direct(0x78563412));
    assert_eq!(code, vec![0x4c, 0x8b, 0x04, 0x25, 0x12, 0x34, 0x56, 0x78]);
}

#[test]
fn it_should_emit_mov_with_reg_indirect_addressing_mode() {
    // mov rcx, [r8]
    let code = mov(reg(X64Gpr::Rcx), AddressingMode::Indirect(X64Gpr::R8));
    assert_eq!(code, vec![0x49, 0x8b, 0x08]);
    // mov r9, [rax]
    let code = mov(reg(X64Gpr::R9), AddressingMode::Indirect(X64Gpr::Rax));
    assert_eq!(code, vec![0x4c, 0x8b, 0x08]);
    // mov rcx, [rbx]
    let code = mov(reg(X64Gpr::Rcx), AddressingMode::Indirect(X64Gpr::Rbx));
    assert_eq!(code, vec![0x48, 0x8b, 0x0b]);
    // mov r9, [r11]
    let code = mov(reg(X64Gpr::R9), AddressingMode::Indirect(X64Gpr::R11));
    assert_eq!(code, vec![0x4d, 0x8b, 0x0b]);
    // mov rax, [r9]
    let code = mov(reg(X64Gpr::Rax), AddressingMode::Indirect(X64Gpr::R9));
    assert_eq!(code, vec![0x49, 0x8b, 0x01]);
}

#[test]
fn it_should_emit_mov_with_reg_indirect_displacement_addressing_mode() {
    // mov rcx, [r8 + 0x78563412]
    let code = mov(reg(X64Gpr::Rcx), AddressingMode::IndirectDisplacement(X64Gpr::R8, 0x78563412));
    assert_eq!(code, vec![0x49, 0x8b, 0x88, 0x12, 0x34, 0x56, 0x78]);
    // mov r9, [rax + 0x78563412]
    let code = mov(reg(X64Gpr::R9), AddressingMode::IndirectDisplacement(X64Gpr::Rax, 0x78563412));
    assert_eq!(code, vec![0x4c, 0x8b, 0x88, 0x12, 0x34, 0x56, 0x78]);
    // mov rcx, [rbx + 0x78563412]
    let code = mov(reg(X64Gpr::Rcx), AddressingMode::IndirectDisplacement(X64Gpr::Rbx, 0x78563412));
    assert_eq!(code, vec![0x48, 0x8b, 0x8b, 0x12, 0x34, 0x56, 0x78]);
    // mov r9, [r11 + 0x78563412]
    let code = mov(reg(X64Gpr::R9), AddressingMode::IndirectDisplacement(X64Gpr::R11, 0x78563412));
    assert_eq!(code, vec![0x4d, 0x8b, 0x8b, 0x12, 0x34, 0x56, 0x78]);
    // mov rax, [rsp + 0x78563412]
    let code = mov(reg(X64Gpr::Rax), AddressingMode::IndirectDisplacement(X64Gpr::Rsp, 0x78563412));
    assert_eq!(code, vec![0x48, 0x8b, 0x84, 0x24, 0x12, 0x34, 0x56, 0x78]);
    // mov rax, [rsi + 0x78563412]
    let code = mov(reg(X64Gpr::Rax), AddressingMode::IndirectDisplacement(X64Gpr::Rsi, 0x78563412));
    assert_eq!(code, vec![0x48, 0x8b, 0x86, 0x12, 0x34, 0x56, 0x78]);
}

#[test]
fn it_should_emit_mov_with_direct_reg_addressing_mode() {
    // a store to an absolute address is outside the supported subset
    let mut buf = Vec::new();
    let r = buf.emit_mov(AddressingMode::Direct(0x78563412), reg(X64Gpr::Rcx));
    assert_eq!(r, Err(EncodeError::Unsupported));
    assert!(buf.is_empty());
}

#[test]
fn mov_rejects_immediate_and_stack_pointer_destinations() {
    let mut buf = Vec::new();
    assert_eq!(
        buf.emit_mov(AddressingMode::Immediate(1), reg(X64Gpr::Rax)),
        Err(EncodeError::InvalidDestination)
    );
    assert_eq!(
        buf.emit_mov(reg(X64Gpr::Rsp), reg(X64Gpr::Rax)),
        Err(EncodeError::InvalidDestination)
    );
    assert!(buf.is_empty());
}

#[test]
fn indirect_operands_pick_the_shortest_displacement() {
    // mov rax, [rbp] needs a zero displacement byte
    let code = mov(reg(X64Gpr::Rax), AddressingMode::Indirect(X64Gpr::Rbp));
    assert_eq!(code, vec![0x48, 0x8b, 0x45, 0x00]);
    // mov rax, [r13]
    let code = mov(reg(X64Gpr::Rax), AddressingMode::Indirect(X64Gpr::R13));
    assert_eq!(code, vec![0x49, 0x8b, 0x45, 0x00]);
    // mov rax, [rsp]
    let code = mov(reg(X64Gpr::Rax), AddressingMode::Indirect(X64Gpr::Rsp));
    assert_eq!(code, vec![0x48, 0x8b, 0x04, 0x24]);
    // mov rcx, [rsi - 0x10]
    let code = mov(reg(X64Gpr::Rcx), AddressingMode::IndirectDisplacement(X64Gpr::Rsi, -0x10));
    assert_eq!(code, vec![0x48, 0x8b, 0x4e, 0xf0]);
    // mov rcx, [rsi - 128] still fits in one byte
    let code = mov(reg(X64Gpr::Rcx), AddressingMode::IndirectDisplacement(X64Gpr::Rsi, -128));
    assert_eq!(code, vec![0x48, 0x8b, 0x4e, 0x80]);
    // mov rcx, [rsi + 128] does not
    let code = mov(reg(X64Gpr::Rcx), AddressingMode::IndirectDisplacement(X64Gpr::Rsi, 128));
    assert_eq!(code, vec![0x48, 0x8b, 0x8e, 0x80, 0x00, 0x00, 0x00]);
    // mov [rsi + 8], r9
    let code = mov(AddressingMode::IndirectDisplacement(X64Gpr::Rsi, 8), reg(X64Gpr::R9));
    assert_eq!(code, vec![0x4c, 0x89, 0x4e, 0x08]);
}

#[test]
fn stack_and_immediate_instructions() {
    let mut buf = Vec::new();
    buf.emit_push_reg(X64Gpr::Rsi);
    buf.emit_push_reg(X64Gpr::R12);
    buf.emit_pop_reg(X64Gpr::R12);
    buf.emit_pop_reg(X64Gpr::Rsi);
    buf.emit_ret();
    assert_eq!(buf, vec![0x56, 0x41, 0x54, 0x41, 0x5c, 0x5e, 0xc3]);

    let mut buf = Vec::new();
    buf.emit_movabs_reg(X64Gpr::R10, 0x1122_3344_5566_7788);
    assert_eq!(buf, vec![0x49, 0xba, 0x88, 0x77, 0x66, 0x55, 0x44, 0x33, 0x22, 0x11]);

    let mut buf = Vec::new();
    buf.emit_mov_reg_immediate(X64Gpr::Rdx, 0x7fff_ffff);
    assert_eq!(buf, vec![0xba, 0xff, 0xff, 0xff, 0x7f]);
    let mut buf = Vec::new();
    buf.emit_mov_reg_immediate(X64Gpr::Rdx, 0x8000_0000);
    assert_eq!(buf, vec![0x48, 0xba, 0x00, 0x00, 0x00, 0x80, 0x00, 0x00, 0x00, 0x00]);
}

#[test]
fn arithmetic_instructions() {
    let mut buf = Vec::new();
    buf.emit_add_reg_reg(X64Gpr::Rcx, X64Gpr::R9);
    assert_eq!(buf, vec![0x4c, 0x01, 0xc9]);
    let mut buf = Vec::new();
    buf.emit_or_reg_reg(X64Gpr::R14, X64Gpr::Rax);
    assert_eq!(buf, vec![0x49, 0x09, 0xc6]);
    let mut buf = Vec::new();
    buf.emit_sub_reg_dword(X64Gpr::Rsp, 0x20);
    assert_eq!(buf, vec![0x48, 0x81, 0xec, 0x20, 0x00, 0x00, 0x00]);
    let mut buf = Vec::new();
    buf.emit_add_reg_dword(X64Gpr::Rax, 0x78563412);
    assert_eq!(buf, vec![0x48, 0x05, 0x12, 0x34, 0x56, 0x78]);
    let mut buf = Vec::new();
    buf.emit_xor_reg_dword(X64Gpr::R8, 1);
    assert_eq!(buf, vec![0x49, 0x81, 0xf0, 0x01, 0x00, 0x00, 0x00]);
    let mut buf = Vec::new();
    buf.emit_xor_reg_dword(X64Gpr::Rax, 1);
    assert_eq!(buf, vec![0x48, 0x35, 0x01, 0x00, 0x00, 0x00]);
}

#[test]
fn call_moves_arguments_and_spills_what_is_still_read() {
    let f = FunctionAddress::<2>::new(0x1000);
    // f(rsi, rdi): rdi is overwritten first, so it is spilled and read back
    let mut buf = Vec::new();
    buf.emit_call_safe(f, &[CallArg::Reg(X64Gpr::Rsi), CallArg::Reg(X64Gpr::Rdi)])
        .unwrap();
    assert_eq!(
        buf,
        vec![
            0x48, 0x81, 0xec, 0x10, 0x00, 0x00, 0x00, // sub rsp, 16
            0x48, 0x89, 0x7c, 0x24, 0x08, // mov [rsp + 8], rdi
            0x48, 0x89, 0xf7, // mov rdi, rsi
            0x48, 0x89, 0x34, 0x24, // mov [rsp], rsi
            0x48, 0x8b, 0x74, 0x24, 0x08, // mov rsi, [rsp + 8]
            0x48, 0xb8, 0x00, 0x10, 0x00, 0x00, 0x00, 0x00, 0x00, 0x00, // movabs rax, 0x1000
            0x53, // push rbx
            0x40, 0x88, 0xe3, // mov bl, spl
            0x48, 0x83, 0xe4, 0xf0, // and rsp, -16
            0xff, 0xd0, // call rax
            0x40, 0x88, 0xdc, // mov spl, bl
            0x5b, // pop rbx
            0x48, 0x81, 0xc4, 0x10, 0x00, 0x00, 0x00, // add rsp, 16
        ]
    );

    let g = FunctionAddress::<0>::new(0x2000);
    let mut buf = Vec::new();
    let five = [CallArg::Val(0); 5];
    assert_eq!(buf.emit_call(g, &five), Err(EncodeError::TooManyArguments));
    assert!(buf.is_empty());
}

#[test]
fn a_register_check_saves_what_the_checker_may_change() {
    let mut buf = Vec::new();
    buf.emit_assert_reg_eq(X64Gpr::Rdi, 0x1234, FunctionAddress::<3>::new(0x5000));
    let pushes = [0x50, 0x57, 0x56, 0x52, 0x51, 0x41, 0x50, 0x41, 0x51, 0x41, 0x52, 0x41, 0x53];
    let pops = [0x41, 0x5b, 0x41, 0x5a, 0x41, 0x59, 0x41, 0x58, 0x59, 0x5a, 0x5e, 0x5f, 0x58];
    assert_eq!(buf[..13], pushes);
    assert_eq!(buf[buf.len() - 13..], pops);
    // in between stands the call with the number of the register, the value
    // expected and the register itself
    let mut call = Vec::new();
    call.emit_call(
        FunctionAddress::<3>::new(0x5000),
        &[CallArg::Val(7), CallArg::Val(0x1234), CallArg::Reg(X64Gpr::Rdi)],
    )
    .unwrap();
    assert_eq!(buf[13..buf.len() - 13], call);
    // rdi takes the first argument before it is read as the third: it is
    // spilled, and read back from its slot
    assert_eq!(call[..7], [0x48, 0x81, 0xec, 0x08, 0x00, 0x00, 0x00]);
}
