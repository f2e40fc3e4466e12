use iced_x86::code_asm::registers::gpr64;
use iced_x86::code_asm::{qword_ptr, CodeAssembler};
use iced_x86::Register as Reference;
use wicked64::codegen::assembler::{
    emit_call, emit_mov, emit_movabs, emit_op, emit_pop, emit_push, emit_ret, EncodeError,
    Operand, Operation,
};
use wicked64::codegen::call::{emit_call_fn, CallArgument};
use wicked64::codegen::emitter::Emitter;
use wicked64::codegen::encoding::{ModRM, Rex};
use wicked64::codegen::parser::parse;
use wicked64::codegen::register::Register;
use wicked64::codegen::syntax::{emit_all, Bindings};

fn registers() -> Vec<Register> {
    (0..16u8).map(|n| Register::from_number(n).unwrap()).collect()
}

fn reference(reg: Register) -> iced_x86::code_asm::AsmRegister64 {
    gpr64::get_gpr64(Reference::RAX + u32::from(reg.number())).unwrap()
}

fn aligned_call(a: &mut CodeAssembler) {
    a.push(reference(Register::Rbx)).unwrap();
    a.add_instruction(
        iced_x86::Instruction::with2(iced_x86::Code::Mov_rm8_r8, Reference::BL, Reference::SPL)
            .unwrap(),
    )
    .unwrap();
    a.add_instruction(
        iced_x86::Instruction::with2(iced_x86::Code::And_rm64_imm8, Reference::RSP, -16i32)
            .unwrap(),
    )
    .unwrap();
    a.call(reference(Register::Rax)).unwrap();
    a.add_instruction(
        iced_x86::Instruction::with2(iced_x86::Code::Mov_rm8_r8, Reference::SPL, Reference::BL)
            .unwrap(),
    )
    .unwrap();
    a.pop(reference(Register::Rbx)).unwrap();
}

fn as_bytes(op: impl FnOnce(&mut Vec<u8>) -> Result<(), EncodeError>) -> Vec<u8> {
    let mut buf = Vec::new();
    op(&mut buf).unwrap();
    buf
}

#[test]
fn modrm_packs_its_fields() {
    assert_eq!(ModRM(0b11, 0b000, 0b001).value(), 0xc1);
    assert_eq!(ModRM(0b10, 0b001, 0b100).value(), 0x8c);
    // only the low bits of each field count
    assert_eq!(ModRM(0xff, 0xff, 0xff).value(), 0xff);
    assert_eq!(ModRM(0b111, 0b1010, 0b1101).value(), 0b11_010_101);
    let m = ModRM(5, 9, 12);
    assert_eq!((m.md(), m.reg(), m.rm()), (1, 1, 4));
}

#[test]
fn rex_packs_its_flags() {
    assert_eq!(Rex(false, false, false, false).value(), 0x40);
    assert_eq!(Rex(true, false, false, false).value(), 0x48);
    assert_eq!(Rex(true, true, false, false).value(), 0x4c);
    assert_eq!(Rex(true, false, true, false).value(), 0x4a);
    assert_eq!(Rex(true, false, false, true).value(), 0x49);
    assert_eq!(Rex(true, true, true, true).value(), 0x4f);
    let r = Rex(true, false, true, false);
    assert_eq!((r.w(), r.r(), r.x(), r.b()), (1, 0, 1, 0));
}

#[test]
fn registers_are_numbered_as_the_hardware_numbers_them() {
    let names = [
        "rax", "rcx", "rdx", "rbx", "rsp", "rbp", "rsi", "rdi", "r8", "r9", "r10", "r11", "r12",
        "r13", "r14", "r15",
    ];
    for (n, reg) in registers().into_iter().enumerate() {
        assert_eq!(reg.number() as usize, n);
        assert_eq!(reg.as_str(), names[n]);
        assert_eq!(reg.is_extended(), n >= 8);
        assert_eq!(reg.low_bits() as usize, n % 8);
    }
    assert_eq!(Register::from_number(16), None);
    assert!(Register::Rbx.is_callee_saved());
    assert!(Register::R12.is_callee_saved());
    assert!(!Register::Rax.is_callee_saved());
    assert!(!Register::R11.is_callee_saved());
}

#[test]
fn emitter_appends_little_endian_values() {
    let mut emitter = Emitter::new();
    emitter.emit_byte(0xaa);
    emitter.emit_word(0x1234);
    emitter.emit_dword(0x7856_3412);
    emitter.emit_qword(0x0807_0605_0403_0201);
    emitter.emit_raw(&[0xde, 0xad]);
    assert_eq!(
        emitter.as_slice(),
        &[
            0xaa, 0x34, 0x12, 0x12, 0x34, 0x56, 0x78, 0x01, 0x02, 0x03, 0x04, 0x05, 0x06, 0x07,
            0x08, 0xde, 0xad
        ]
    );
    assert_eq!(emitter.len(), 17);
    assert!(Emitter::default().as_slice().is_empty());
}

#[test]
fn encode_instruction_places_each_part() {
    // mov rax, [rsp + 0x78563412]
    let mut emitter = Emitter::new();
    emitter.encode_instruction(
        Some(Rex(true, false, false, false)),
        0x8b,
        Some(ModRM(0b10, 0, 4)),
        Some(0x24),
        Some(0x78563412),
        None,
    );
    assert_eq!(emitter.as_slice(), &[0x48, 0x8b, 0x84, 0x24, 0x12, 0x34, 0x56, 0x78]);

    // a displacement that fits in a byte takes one byte, also a negative one
    let mut emitter = Emitter::new();
    emitter.encode_instruction(None, 0x8b, Some(ModRM(0b01, 1, 6)), None, Some(-16), None);
    assert_eq!(emitter.as_slice(), &[0x8b, 0x4e, 0xf0]);
    let mut emitter = Emitter::new();
    emitter.encode_instruction(None, 0x8b, Some(ModRM(0b01, 1, 6)), None, Some(-128), None);
    assert_eq!(emitter.as_slice(), &[0x8b, 0x4e, 0x80]);
    let mut emitter = Emitter::new();
    emitter.encode_instruction(None, 0x8b, Some(ModRM(0b10, 1, 6)), None, Some(-129), None);
    assert_eq!(emitter.as_slice(), &[0x8b, 0x8e, 0x7f, 0xff, 0xff, 0xff]);

    // add ecx, 0x11223344
    let mut emitter = Emitter::new();
    emitter.encode_instruction(None, 0x81, Some(ModRM(3, 0, 1)), None, None, Some(0x11223344));
    assert_eq!(emitter.as_slice(), &[0x81, 0xc1, 0x44, 0x33, 0x22, 0x11]);
}

#[test]
fn mov_mov_reg_reg() {
    let mut emitter = Emitter::new();
    let env = Bindings {
        immediates: vec![],
        registers: vec![(b"rax".to_vec(), Register::Rax), (b"r9".to_vec(), Register::R9)],
    };
    let source = b"
        mov rcx, r8;
        mov r9, rax;
        mov rcx, rbx;
        mov r9, r11;
        mov r9, %rax;
        mov %r9, rax;
        mov %r9, %rax;
    ";
    let instructions = parse(source).unwrap();
    emit_all(&mut emitter, source, &env, &instructions).unwrap();

    assert_eq!(
        emitter.as_slice(),
        &[
            0x4c, 0x89, 0xc1, // mov rcx, r8
            0x49, 0x89, 0xc1, // mov r9,rax
            0x48, 0x89, 0xd9, // mov rcx, rbx
            0x4d, 0x89, 0xd9, // mov r9, r11
            0x49, 0x89, 0xc1, // mov r9,rax
            0x49, 0x89, 0xc1, // mov r9,rax
            0x49, 0x89, 0xc1, // mov r9,rax
        ],
    );
}

#[test]
fn mov_reg_immediate() {
    let mut emitter = Emitter::new();
    let env = Bindings {
        immediates: vec![(b"val".to_vec(), 0x3412)],
        registers: vec![(b"r11".to_vec(), Register::R11)],
    };
    let source = b"
        mov rcx, 0x3412;
        mov rbx, 0x3412;
        mov r9, 0x3412;
        mov r11, 0x3412;
        mov rax, 0x3412;
        mov r8, 0x3412;
        mov %r11, 0x3412;
        mov r11, $val;
    ";
    let instructions = parse(source).unwrap();
    emit_all(&mut emitter, source, &env, &instructions).unwrap();

    assert_eq!(
        emitter.as_slice(),
        &[
            0xb9, 0x12, 0x34, 0x00, 0x00, // mov rcx, 0x3412
            0xbb, 0x12, 0x34, 0x00, 0x00, // mov rbx, 0x3412
            0x41, 0xb9, 0x12, 0x34, 0x00, 0x00, // mov r9, 0x3412
            0x41, 0xbb, 0x12, 0x34, 0x00, 0x00, // mov r11, 0x3412
            0xb8, 0x12, 0x34, 0x00, 0x00, // mov rax, 0x3412
            0x41, 0xb8, 0x12, 0x34, 0x00, 0x00, // mov r8, 0x3412
            0x41, 0xbb, 0x12, 0x34, 0x00, 0x00, // mov r11, 0x3412
            0x41, 0xbb, 0x12, 0x34, 0x00, 0x00, // mov r11, 0x3412
        ]
    )
}

#[test]
fn mov_reg_reg() {
    for dst in registers() {
        for src in registers() {
            let code =
                as_bytes(|b| emit_mov(b, Operand::Register(dst), Operand::Register(src)));
            let mut a = CodeAssembler::new(64).unwrap();
            a.mov(reference(dst), reference(src)).unwrap();
            assert_eq!(code, a.assemble(0).unwrap(), "mov {dst:?}, {src:?}");
        }
    }
}

#[test]
fn mov_reg_imm() {
    let dword = 0xfeff26_u32;
    let qword = -0xf4a2_i64;
    for reg in registers() {
        let low = u8::try_from(reg.number() % 8).unwrap();
        let prefix: &[u8] = if reg.number() >= 8 { &[0x41] } else { &[] };
        let code = as_bytes(|b| {
            emit_mov(b, Operand::Register(reg), Operand::Immediate(u64::from(dword)))
        });
        let mut expected = prefix.to_vec();
        expected.push(0xb8 + low);
        expected.extend_from_slice(&dword.to_le_bytes());
        assert_eq!(code, expected);

        let code = as_bytes(|b| emit_movabs(b, Operand::Register(reg), qword as u64));
        let mut a = CodeAssembler::new(64).unwrap();
        a.mov(reference(reg), qword).unwrap();
        assert_eq!(code, a.assemble(0).unwrap(), "movabs {reg:?}");
    }
    // only the low 32 bits of an immediate are moved
    let code = as_bytes(|b| {
        emit_mov(b, Operand::Register(Register::Rdx), Operand::Immediate(0x1_2345_6789))
    });
    assert_eq!(code, vec![0xba, 0x89, 0x67, 0x45, 0x23]);
}

#[test]
fn mov_reg_dir() {
    let addr = 0x78563412;
    for reg in registers() {
        let code = as_bytes(|b| emit_mov(b, Operand::Register(reg), Operand::Direct(addr)));
        let rex = if reg.number() >= 8 { 0x4c } else { 0x48 };
        let modrm = (reg.number() % 8) << 3 | 0b100;
        assert_eq!(code, vec![rex, 0x8b, modrm, 0x25, 0x12, 0x34, 0x56, 0x78]);
    }
}

#[test]
fn mov_reg_ind() {
    let disp = 0x123456;
    for dst in registers() {
        for src in registers() {
            for d in [0, disp, -disp, 0x70, -0x70, 127, -128, 128, -129] {
                let code = as_bytes(|b| {
                    emit_mov(b, Operand::Register(dst), Operand::Indirect(src, d))
                });
                let mut a = CodeAssembler::new(64).unwrap();
                a.mov(reference(dst), qword_ptr(reference(src) + d)).unwrap();
                assert_eq!(code, a.assemble(0).unwrap(), "mov {dst:?}, [{src:?} + {d}]");
            }
        }
    }
}

#[test]
fn mov_ind_reg() {
    let disp32 = 0x123456;
    let disp8 = 0x70;
    for dst in registers() {
        for src in registers() {
            for d in [0, disp32, -disp8, disp8, -disp32] {
                let code = as_bytes(|b| {
                    emit_mov(b, Operand::Indirect(dst, d), Operand::Register(src))
                });
                let mut a = CodeAssembler::new(64).unwrap();
                a.mov(qword_ptr(reference(dst) + d), reference(src)).unwrap();
                assert_eq!(code, a.assemble(0).unwrap(), "mov [{dst:?} + {d}], {src:?}");
            }
        }
    }
}

#[test]
fn mov_refuses_what_it_cannot_encode() {
    let mut buf = vec![0x90];
    assert_eq!(
        emit_mov(&mut buf, Operand::Immediate(1), Operand::Register(Register::Rax)),
        Err(EncodeError::InvalidDestination)
    );
    assert_eq!(
        emit_mov(&mut buf, Operand::Indirect(Register::Rax, 0), Operand::Immediate(1)),
        Err(EncodeError::Unsupported)
    );
    assert_eq!(
        emit_mov(&mut buf, Operand::Direct(16), Operand::Register(Register::Rax)),
        Err(EncodeError::Unsupported)
    );
    assert_eq!(
        emit_mov(
            &mut buf,
            Operand::Indirect(Register::Rax, 0),
            Operand::Indirect(Register::Rcx, 0)
        ),
        Err(EncodeError::Unsupported)
    );
    assert_eq!(
        emit_movabs(&mut buf, Operand::Immediate(1), 2),
        Err(EncodeError::InvalidDestination)
    );
    assert_eq!(emit_movabs(&mut buf, Operand::Direct(1), 2), Err(EncodeError::Unsupported));
    assert_eq!(buf, vec![0x90]);
}

#[test]
fn add_reg_reg() {
    for dst in registers() {
        for src in registers() {
            let code = as_bytes(|b| emit_op(b, Operation::Add, dst, Operand::Register(src)));
            let mut a = CodeAssembler::new(64).unwrap();
            a.add(reference(dst), reference(src)).unwrap();
            assert_eq!(code, a.assemble(0).unwrap(), "add {dst:?}, {src:?}");
        }
    }
}

#[test]
fn add_reg_imm() {
    let val = 0x78563412;
    for dst in registers() {
        let code = as_bytes(|b| emit_op(b, Operation::Add, dst, Operand::Immediate(val)));
        let mut a = CodeAssembler::new(64).unwrap();
        a.add(reference(dst), val as i32).unwrap();
        assert_eq!(code, a.assemble(0).unwrap(), "add {dst:?}, {val:#x}");
    }
}

#[test]
fn sub_reg_reg() {
    for dst in registers() {
        for src in registers() {
            let code = as_bytes(|b| emit_op(b, Operation::Sub, dst, Operand::Register(src)));
            let mut a = CodeAssembler::new(64).unwrap();
            a.sub(reference(dst), reference(src)).unwrap();
            assert_eq!(code, a.assemble(0).unwrap(), "sub {dst:?}, {src:?}");
        }
    }
}

#[test]
fn sub_reg_imm() {
    let val = 0x78563412;
    for dst in registers() {
        let code = as_bytes(|b| emit_op(b, Operation::Sub, dst, Operand::Immediate(val)));
        let mut a = CodeAssembler::new(64).unwrap();
        a.sub(reference(dst), val as i32).unwrap();
        assert_eq!(code, a.assemble(0).unwrap(), "sub {dst:?}, {val:#x}");
    }
}

#[test]
fn or_and_xor_follow_the_same_forms() {
    for dst in registers() {
        for src in registers() {
            let code = as_bytes(|b| emit_op(b, Operation::Or, dst, Operand::Register(src)));
            let mut a = CodeAssembler::new(64).unwrap();
            a.or(reference(dst), reference(src)).unwrap();
            assert_eq!(code, a.assemble(0).unwrap(), "or {dst:?}, {src:?}");
            let code = as_bytes(|b| emit_op(b, Operation::Xor, dst, Operand::Register(src)));
            let mut a = CodeAssembler::new(64).unwrap();
            a.xor(reference(dst), reference(src)).unwrap();
            assert_eq!(code, a.assemble(0).unwrap(), "xor {dst:?}, {src:?}");
        }
    }
    let mut buf = Vec::new();
    assert_eq!(
        emit_op(&mut buf, Operation::Or, Register::Rax, Operand::Direct(0)),
        Err(EncodeError::Unsupported)
    );
    assert_eq!(
        emit_op(&mut buf, Operation::Or, Register::Rax, Operand::Indirect(Register::Rax, 0)),
        Err(EncodeError::Unsupported)
    );
    assert!(buf.is_empty());
}

#[test]
fn push_pop_call_and_ret_match_the_reference() {
    for reg in registers() {
        let mut code = Vec::new();
        emit_push(&mut code, reg);
        emit_pop(&mut code, reg);
        emit_call(&mut code, Operand::Register(reg)).unwrap();
        emit_call(&mut code, Operand::Indirect(reg, 0)).unwrap();
        emit_ret(&mut code);
        let mut a = CodeAssembler::new(64).unwrap();
        a.push(reference(reg)).unwrap();
        a.pop(reference(reg)).unwrap();
        a.call(reference(reg)).unwrap();
        a.call(qword_ptr(reference(reg))).unwrap();
        a.ret().unwrap();
        assert_eq!(code, a.assemble(0).unwrap(), "{reg:?}");
    }
    let mut buf = Vec::new();
    assert_eq!(emit_call(&mut buf, Operand::Immediate(0)), Err(EncodeError::Unsupported));
    assert_eq!(emit_call(&mut buf, Operand::Direct(0)), Err(EncodeError::Unsupported));
    assert_eq!(
        emit_call(&mut buf, Operand::Indirect(Register::Rax, 8)),
        Err(EncodeError::Unsupported)
    );
    assert!(buf.is_empty());
}

#[test]
fn call_zero() {
    let mut code = Vec::new();
    emit_call_fn(&mut code, 0x1122_3344_5566_7788, &[]).unwrap();
    emit_ret(&mut code);
    assert_eq!(
        code,
        vec![
            0x50, // push rax
            0x48, 0xb8, 0x88, 0x77, 0x66, 0x55, 0x44, 0x33, 0x22, 0x11, // movabs rax, f
            0x53, // push rbx
            0x40, 0x88, 0xe3, // mov bl, spl
            0x48, 0x83, 0xe4, 0xf0, // and rsp, -16
            0xff, 0xd0, // call rax
            0x40, 0x88, 0xdc, // mov spl, bl
            0x5b, // pop rbx
            0x58, // pop rax
            0xc3, // ret
        ]
    );
}

#[test]
fn call_many() {
    // primitives(rsi, -0x21f0): one register argument and one constant
    let mut code = Vec::new();
    emit_push(&mut code, Register::Rsi);
    emit_mov(&mut code, Operand::Register(Register::Rsi), Operand::Immediate(0xfe)).unwrap();
    let pb = -0x21f0_i32 as i64 as u64;
    emit_call_fn(
        &mut code,
        0x1000,
        &[CallArgument::Register(Register::Rsi), CallArgument::Value(pb)],
    )
    .unwrap();
    emit_pop(&mut code, Register::Rsi);
    let mut a = CodeAssembler::new(64).unwrap();
    let (rax, rdi, rsi, rsp) = (
        reference(Register::Rax),
        reference(Register::Rdi),
        reference(Register::Rsi),
        reference(Register::Rsp),
    );
    a.push(rsi).unwrap();
    a.mov(iced_x86::code_asm::esi, 0xfe_u32).unwrap();
    a.push(rax).unwrap();
    a.add_instruction(
        iced_x86::Instruction::with2(iced_x86::Code::Sub_rm64_imm32, Reference::RSP, 8).unwrap(),
    )
    .unwrap();
    a.mov(rdi, rsi).unwrap();
    // rsi is overwritten by the second argument while the first still reads
    // it: it is spilled first
    a.mov(qword_ptr(rsp), rsi).unwrap();
    a.mov(rsi, pb).unwrap();
    a.mov(rax, 0x1000_u64).unwrap();
    aligned_call(&mut a);
    a.add_instruction(
        iced_x86::Instruction::with2(iced_x86::Code::Add_rm64_imm32, Reference::RSP, 8).unwrap(),
    )
    .unwrap();
    a.pop(rax).unwrap();
    a.pop(rsi).unwrap();
    assert_eq!(code, a.assemble(0).unwrap());

    // three constants need no stack at all
    let mut code = Vec::new();
    emit_call_fn(
        &mut code,
        0x2000,
        &[CallArgument::Value(1), CallArgument::Value(2), CallArgument::Value(3)],
    )
    .unwrap();
    let mut a = CodeAssembler::new(64).unwrap();
    a.push(rax).unwrap();
    a.mov(rdi, 1_u64).unwrap();
    a.mov(rsi, 2_u64).unwrap();
    a.mov(reference(Register::Rdx), 3_u64).unwrap();
    a.mov(rax, 0x2000_u64).unwrap();
    aligned_call(&mut a);
    a.pop(rax).unwrap();
    assert_eq!(code, a.assemble(0).unwrap());

    // six arguments are one too many
    let mut code = Vec::new();
    assert_eq!(
        emit_call_fn(&mut code, 0, &[CallArgument::Value(0); 6]),
        Err(EncodeError::TooManyArguments)
    );
    assert!(code.is_empty());
    assert!(emit_call_fn(&mut code, 0, &[CallArgument::Value(0); 5]).is_ok());
}

#[test]
fn call_fn_reads_a_spilled_register_from_its_slot() {
    // f(rsi, rdi): rdi is spilled before it takes rsi, rsi before it takes
    // what rdi held
    let mut code = Vec::new();
    emit_call_fn(
        &mut code,
        0x3000,
        &[CallArgument::Register(Register::Rsi), CallArgument::Register(Register::Rdi)],
    )
    .unwrap();
    let mut a = CodeAssembler::new(64).unwrap();
    let (rax, rdi, rsi, rsp) = (
        reference(Register::Rax),
        reference(Register::Rdi),
        reference(Register::Rsi),
        reference(Register::Rsp),
    );
    a.push(rax).unwrap();
    a.add_instruction(
        iced_x86::Instruction::with2(iced_x86::Code::Sub_rm64_imm32, Reference::RSP, 16).unwrap(),
    )
    .unwrap();
    a.mov(qword_ptr(rsp + 8), rdi).unwrap();
    a.mov(rdi, rsi).unwrap();
    a.mov(qword_ptr(rsp), rsi).unwrap();
    a.mov(rsi, qword_ptr(rsp + 8)).unwrap();
    a.mov(rax, 0x3000_u64).unwrap();
    aligned_call(&mut a);
    a.add_instruction(
        iced_x86::Instruction::with2(iced_x86::Code::Add_rm64_imm32, Reference::RSP, 16).unwrap(),
    )
    .unwrap();
    a.pop(rax).unwrap();
    assert_eq!(code, a.assemble(0).unwrap());
}
