use wicked64::codegen::assembler::EncodeError;
use wicked64::codegen::emitter::Emitter;
use wicked64::codegen::parser::{
    emit_text, find_word_end, parse, parse_call_args, parse_number, skip_spaces, EmitError,
    ParseError, ParseErrorKind,
};
use wicked64::codegen::register::Register;
use wicked64::codegen::syntax::{
    emit, emit_all, AddrDirect, AddrImmediate, AddrIndirect, AddrRegister, AddressingMode,
    Argument, Bindings, CallArgs, Ident, Instruction,
};
use wicked64::codegen::words::{is_ref, mnemonic_at, register_at, word_is, Mnemonic};

fn no_bindings() -> Bindings {
    Bindings { immediates: Vec::new(), registers: Vec::new() }
}

fn bytes_of(text: &str, env: &Bindings) -> Vec<u8> {
    let source = text.as_bytes();
    let instructions = parse(source).unwrap();
    let mut buf = Emitter::new();
    emit_all(&mut buf, source, env, &instructions).unwrap();
    buf.into_bytes()
}

fn failure_of(text: &str) -> ParseError {
    parse(text.as_bytes()).unwrap_err()
}

#[test]
fn written_moves_between_registers_are_encoded() {
    let env = no_bindings();
    assert_eq!(bytes_of("mov rcx, r8;", &env), [0x4c, 0x89, 0xc1]);
    assert_eq!(bytes_of("mov rcx, rbx;", &env), [0x48, 0x89, 0xd9]);
    assert_eq!(bytes_of("mov r9, r11;", &env), [0x4d, 0x89, 0xd9]);
}

#[test]
fn written_moves_of_numbers_are_encoded() {
    let env = no_bindings();
    assert_eq!(bytes_of("mov rcx, 0x3412;", &env), [0xb9, 0x12, 0x34, 0x00, 0x00]);
    assert_eq!(bytes_of("mov r11, 0x3412;", &env), [0x41, 0xbb, 0x12, 0x34, 0x00, 0x00]);
}

#[test]
fn written_loads_are_encoded() {
    let env = no_bindings();
    assert_eq!(
        bytes_of("mov rcx, [0x78563412];", &env),
        [0x48, 0x8b, 0x0c, 0x25, 0x12, 0x34, 0x56, 0x78]
    );
    assert_eq!(
        bytes_of("mov rax, [rsp + 0x78563412];", &env),
        [0x48, 0x8b, 0x84, 0x24, 0x12, 0x34, 0x56, 0x78]
    );
}

#[test]
fn a_text_of_several_instructions_is_encoded_in_order() {
    let env = no_bindings();
    assert_eq!(
        bytes_of("  push rbx;\n\tpop r12;\r\n ret ;  ", &env),
        [0x53, 0x41, 0x5c, 0xc3]
    );
    assert_eq!(bytes_of("", &env), [0u8; 0]);
    assert_eq!(bytes_of(" \n ", &env), [0u8; 0]);
}

#[test]
fn variables_stand_for_what_they_are_bound_to() {
    let env = Bindings {
        immediates: vec![(b"value".to_vec(), 0x3412), (b"value".to_vec(), 7)],
        registers: vec![(b"dst".to_vec(), Register::R11), (b"src".to_vec(), Register::Rbx)],
    };
    assert_eq!(bytes_of("mov %dst, $value;", &env), [0x41, 0xbb, 0x12, 0x34, 0x00, 0x00]);
    assert_eq!(bytes_of("mov % dst, $ value;", &env), [0x41, 0xbb, 0x12, 0x34, 0x00, 0x00]);
    assert_eq!(bytes_of("mov rcx, %src;", &env), [0x48, 0x89, 0xd9]);
    assert_eq!(bytes_of("mov rcx, [$value];", &env), bytes_of("mov rcx, [0x3412];", &env));
    assert_eq!(
        bytes_of("mov rcx, [%src + $value];", &env),
        bytes_of("mov rcx, [rbx + 0x3412];", &env)
    );
}

#[test]
fn an_unbound_variable_is_refused_and_nothing_is_written() {
    let env = Bindings {
        immediates: vec![(b"value".to_vec(), 1)],
        registers: vec![(b"dst".to_vec(), Register::Rax)],
    };
    let source = b"ret; mov %dst, $other; ret;";
    let instructions = parse(source).unwrap();
    assert_eq!(instructions.len(), 3);
    let mut buf = Emitter::new();
    assert_eq!(
        emit_all(&mut buf, source, &env, &instructions),
        Err((1, EncodeError::Unbound))
    );
    assert_eq!(buf.as_slice(), [0xc3]);

    let mut one = Emitter::new();
    assert_eq!(emit(&mut one, source, &env, &instructions[1]), Err(EncodeError::Unbound));
    assert!(one.as_slice().is_empty());

    // a register is no number, and a number no register
    let crossed = b"mov %value, $dst;";
    let parsed = parse(crossed).unwrap();
    let mut buf = Emitter::new();
    assert_eq!(emit(&mut buf, crossed, &env, &parsed[0]), Err(EncodeError::Unbound));
}

#[test]
fn a_subtracted_displacement_is_negated() {
    let env = no_bindings();
    // mov rax, [rbx - 8]  =>  REX.W 8b /r, mod 01, disp8 -8
    assert_eq!(bytes_of("mov rax, [rbx - 8];", &env), [0x48, 0x8b, 0x43, 0xf8]);
    assert_eq!(bytes_of("mov rax, [rbx + 8];", &env), [0x48, 0x8b, 0x43, 0x08]);
    assert_eq!(bytes_of("mov rax, [rbx-8];", &env), [0x48, 0x8b, 0x43, 0xf8]);
}

#[test]
fn operands_are_read_into_their_forms() {
    let parsed = parse(b"add %a, [rbx - 8];").unwrap();
    assert_eq!(
        parsed,
        vec![Instruction::Add(
            AddrRegister::Var(Ident { start: 5, end: 6 }),
            AddressingMode::Indirect(AddrIndirect {
                reg: AddrRegister::Lit(Register::Rbx),
                disp: Some((true, AddrImmediate::Lit(8))),
            }),
        )]
    );
    let parsed = parse(b"mov [$addr], r15; movabs rax, 0xffff_ffff_ffff_ffff;").unwrap();
    assert_eq!(
        parsed,
        vec![
            Instruction::Mov(
                AddressingMode::Direct(AddrDirect {
                    addr: AddrImmediate::Var(Ident { start: 6, end: 10 }),
                }),
                AddressingMode::Register(AddrRegister::Lit(Register::R15)),
            ),
            Instruction::Movabs(
                AddressingMode::Register(AddrRegister::Lit(Register::Rax)),
                AddrImmediate::Lit(u64::MAX),
            ),
        ]
    );
    let parsed = parse(b"or rax, 1; xor rcx, rdx; sub rsp, 8; call [rax]; call rax;").unwrap();
    assert_eq!(
        parsed,
        vec![
            Instruction::Or(Register::Rax, AddressingMode::Immediate(AddrImmediate::Lit(1))),
            Instruction::Xor(
                Register::Rcx,
                AddressingMode::Register(AddrRegister::Lit(Register::Rdx)),
            ),
            Instruction::Sub(
                AddrRegister::Lit(Register::Rsp),
                AddressingMode::Immediate(AddrImmediate::Lit(8)),
            ),
            Instruction::Call(AddressingMode::Indirect(AddrIndirect {
                reg: AddrRegister::Lit(Register::Rax),
                disp: None,
            })),
            Instruction::Call(AddressingMode::Register(AddrRegister::Lit(Register::Rax))),
        ]
    );
}

#[test]
fn numbers_are_read_in_four_bases() {
    assert_eq!(parse_number(b"1234", 0), Ok((1234, 4)));
    assert_eq!(parse_number(b"0", 0), Ok((0, 1)));
    assert_eq!(parse_number(b"0xFf", 0), Ok((255, 4)));
    assert_eq!(parse_number(b"0X10", 0), Ok((16, 4)));
    assert_eq!(parse_number(b"0o17", 0), Ok((15, 4)));
    assert_eq!(parse_number(b"0b1010", 0), Ok((10, 6)));
    assert_eq!(parse_number(b"1_000_000", 0), Ok((1_000_000, 9)));
    assert_eq!(parse_number(b"0x_ff_", 0), Ok((255, 6)));
    assert_eq!(parse_number(b"x 42;", 2), Ok((42, 4)));
    assert_eq!(parse_number(b"18446744073709551615", 0), Ok((u64::MAX, 20)));
    assert_eq!(parse_number(b"0xffffffffffffffff", 0), Ok((u64::MAX, 18)));
}

#[test]
fn numbers_that_cannot_be_read_are_refused() {
    let invalid = |at| Err(ParseError { kind: ParseErrorKind::InvalidNumber, at });
    assert_eq!(parse_number(b"18446744073709551616", 0), invalid(0));
    assert_eq!(parse_number(b"0x10000000000000000", 0), invalid(0));
    assert_eq!(parse_number(b"99999999999999999999999999", 0), invalid(0));
    assert_eq!(parse_number(b"0x", 0), invalid(0));
    assert_eq!(parse_number(b"0x_", 0), invalid(0));
    assert_eq!(parse_number(b"12ab", 0), invalid(0));
    assert_eq!(parse_number(b"0b102", 0), invalid(0));
    assert_eq!(parse_number(b"0o8", 0), invalid(0));
    assert_eq!(parse_number(b"5u64", 0), invalid(0));
    assert_eq!(parse_number(b" 0xg", 1), invalid(1));
}

#[test]
fn each_fault_of_a_text_is_named_with_its_place() {
    let fault = |kind, at| ParseError { kind, at };
    assert_eq!(failure_of(";"), fault(ParseErrorKind::ExpectedIdentifier, 0));
    assert_eq!(failure_of("mov %, rax;"), fault(ParseErrorKind::ExpectedIdentifier, 5));
    assert_eq!(failure_of("jmp rax;"), fault(ParseErrorKind::UnknownInstruction, 0));
    assert_eq!(failure_of("ret; MOV rax, rbx;"), fault(ParseErrorKind::UnknownInstruction, 5));
    assert_eq!(failure_of("mov ;"), fault(ParseErrorKind::ExpectedOperand, 4));
    assert_eq!(failure_of("mov rax rbx;"), fault(ParseErrorKind::ExpectedComma, 8));
    assert_eq!(failure_of("ret"), fault(ParseErrorKind::ExpectedSemicolon, 3));
    assert_eq!(failure_of("ret rax;"), fault(ParseErrorKind::ExpectedSemicolon, 4));
    assert_eq!(failure_of("mov rax, [rbx;"), fault(ParseErrorKind::ExpectedBracket, 13));
    assert_eq!(failure_of("call_fn f;"), fault(ParseErrorKind::ExpectedParenthesis, 9));
    assert_eq!(failure_of("push foo;"), fault(ParseErrorKind::InvalidRegister, 5));
    assert_eq!(failure_of("push 5;"), fault(ParseErrorKind::ExpectedRegister, 5));
    assert_eq!(failure_of("or %a, 1;"), fault(ParseErrorKind::ExpectedRegister, 3));
    assert_eq!(failure_of("movabs rax, rbx;"), fault(ParseErrorKind::ExpectedImmediate, 12));
    assert_eq!(failure_of("mov rax, 0x;"), fault(ParseErrorKind::InvalidNumber, 9));
    assert_eq!(failure_of("call_fn f(rax rbx);"), fault(ParseErrorKind::ExpectedComma, 14));
    assert_eq!(failure_of("call_fn f(rax"), fault(ParseErrorKind::ExpectedComma, 13));
}

#[test]
fn the_arguments_of_a_call_are_read() {
    let text = b"( rax , $n, 7,ref slot , %r )";
    let (args, end) = parse_call_args(text, 0).unwrap();
    assert_eq!(end, text.len());
    assert_eq!(
        args,
        CallArgs(vec![
            Argument::Register(AddrRegister::Lit(Register::Rax)),
            Argument::Immediate(AddrImmediate::Var(Ident { start: 9, end: 10 })),
            Argument::Immediate(AddrImmediate::Lit(7)),
            Argument::Ref(Ident { start: 18, end: 22 }),
            Argument::Register(AddrRegister::Var(Ident { start: 26, end: 27 })),
        ])
    );
    assert_eq!(parse_call_args(b"()", 0), Ok((CallArgs(vec![]), 2)));
    assert_eq!(
        parse_call_args(b"(rax,)", 0),
        Ok((CallArgs(vec![Argument::Register(AddrRegister::Lit(Register::Rax))]), 6))
    );
    // a name that only starts like the word is a register
    assert_eq!(
        parse_call_args(b"(refs)", 0),
        Err(ParseError { kind: ParseErrorKind::InvalidRegister, at: 1 })
    );
}

#[test]
fn a_written_call_is_the_call_sequence() {
    let env = Bindings {
        immediates: vec![(b"f".to_vec(), 0x1122_3344_5566_7788), (b"slot".to_vec(), 0x40)],
        registers: vec![],
    };
    let source = b"call_fn f(rsi, ref slot, 3);";
    let written = bytes_of("call_fn f(rsi, ref slot, 3);", &env);
    let mut direct = Vec::new();
    wicked64::codegen::call::emit_call_fn(
        &mut direct,
        0x1122_3344_5566_7788,
        &[
            wicked64::codegen::call::CallArgument::Register(Register::Rsi),
            wicked64::codegen::call::CallArgument::Value(0x40),
            wicked64::codegen::call::CallArgument::Value(3),
        ],
    )
    .unwrap();
    assert!(!written.is_empty());
    assert_eq!(written, direct);

    let six = b"call_fn f(1, 2, 3, 4, 5, 6);";
    let parsed = parse(six).unwrap();
    let mut buf = Emitter::new();
    assert_eq!(emit(&mut buf, six, &env, &parsed[0]), Err(EncodeError::TooManyArguments));
    assert!(buf.as_slice().is_empty());
    let _ = source;
}

#[test]
fn xor_is_read_but_not_encoded() {
    let source = b"xor rax, rax;";
    let parsed = parse(source).unwrap();
    let mut buf = Emitter::new();
    assert_eq!(emit(&mut buf, source, &no_bindings(), &parsed[0]), Err(EncodeError::Unsupported));
}

#[test]
fn words_are_told_apart() {
    let text = b"mov movabs call_fn CALL r10 r1 ref rax_";
    assert_eq!(mnemonic_at(text, 0, 3), Some(Mnemonic::Mov));
    assert_eq!(mnemonic_at(text, 4, 10), Some(Mnemonic::Movabs));
    assert_eq!(mnemonic_at(text, 4, 7), Some(Mnemonic::Mov));
    assert_eq!(mnemonic_at(text, 11, 18), Some(Mnemonic::CallFn));
    assert_eq!(mnemonic_at(text, 11, 15), Some(Mnemonic::Call));
    assert_eq!(mnemonic_at(text, 19, 23), None);
    assert_eq!(register_at(text, 24, 27), Some(Register::R10));
    assert_eq!(register_at(text, 28, 30), None);
    assert_eq!(register_at(text, 35, 38), Some(Register::Rax));
    assert_eq!(register_at(text, 35, 39), None);
    assert!(is_ref(text, 31, 34));
    assert!(!is_ref(text, 31, 35));
    assert!(word_is(text, 0, 3, b"mov"));
    assert!(!word_is(text, 0, 3, b"mo"));
    assert_eq!(skip_spaces(b"  \t\n x", 0), 5);
    assert_eq!(skip_spaces(b"   ", 1), 3);
    assert_eq!(find_word_end(b"ab_9+c", 0), 4);
    assert_eq!(find_word_end(b"+", 0), 0);
}

#[test]
fn every_register_is_read_by_its_name() {
    for n in 0..16u8 {
        let reg = Register::from_number(n).unwrap();
        let text = format!("push {};", reg.as_str());
        assert_eq!(
            parse(text.as_bytes()).unwrap(),
            vec![Instruction::Push(AddrRegister::Lit(reg))]
        );
    }
}

#[test]
fn a_text_is_read_and_encoded_in_one_go() {
    let env = Bindings {
        immediates: vec![(b"val".to_vec(), 0x3412)],
        registers: vec![(b"dst".to_vec(), Register::R11)],
    };
    let mut buf = Emitter::new();
    assert_eq!(emit_text(&mut buf, b"mov rcx, r8; mov %dst, $val; ret;", &env), Ok(()));
    assert_eq!(
        buf.as_slice(),
        [0x4c, 0x89, 0xc1, 0x41, 0xbb, 0x12, 0x34, 0x00, 0x00, 0xc3]
    );

    // a text that cannot be read leaves nothing, wherever the fault is
    let mut buf = Emitter::new();
    assert_eq!(
        emit_text(&mut buf, b"mov rcx, r8; mov rcx r8;", &env),
        Err(EmitError::Parse(ParseError { kind: ParseErrorKind::ExpectedComma, at: 21 }))
    );
    assert!(buf.as_slice().is_empty());

    // one that can be read is encoded up to the instruction that cannot be
    let mut buf = Emitter::new();
    assert_eq!(
        emit_text(&mut buf, b"ret; push %nobody; ret;", &env),
        Err(EmitError::Encode(1, EncodeError::Unbound))
    );
    assert_eq!(buf.as_slice(), [0xc3]);
}
