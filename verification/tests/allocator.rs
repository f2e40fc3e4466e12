use wicked64::codegen::register::Register;
use wicked64::jit::register::{is_reserved, GuestRegister, InsertError, Registers};

fn allocatable() -> Vec<Register> {
    (0..16u8)
        .map(|n| Register::from_number(n).unwrap())
        .filter(|r| !is_reserved(*r))
        .collect()
}

#[test]
fn reserved_registers_are_never_handed_out() {
    for reg in [Register::Rsi, Register::Rsp, Register::Rbp, Register::Rbx] {
        assert!(is_reserved(reg));
    }
    assert_eq!(allocatable().len(), 12);
    let mut regs = Registers::new();
    let mut seen = Vec::new();
    for i in 0..12u8 {
        let (host, evicted) = regs.insert(GuestRegister::cpu(i)).unwrap();
        assert_eq!(evicted, None);
        assert!(!is_reserved(host));
        assert!(!seen.contains(&host), "{host:?} handed out twice");
        seen.push(host);
    }
    assert_eq!(seen, allocatable());
}

#[test]
fn insert_takes_the_lowest_free_register_first() {
    let mut regs = Registers::with_registers(&[Register::R9, Register::Rcx, Register::Rsi]);
    assert_eq!(regs.insert(GuestRegister::pc()), Ok((Register::Rcx, None)));
    assert_eq!(regs.insert(GuestRegister::cpu(3)), Ok((Register::R9, None)));
    assert_eq!(regs.peek(GuestRegister::pc()), Some(Register::Rcx));
    assert_eq!(regs.peek(GuestRegister::cpu(3)), Some(Register::R9));
    assert_eq!(regs.peek(GuestRegister::cpu(4)), None);
}

#[test]
fn insert_of_a_bound_register_is_refused() {
    let mut regs = Registers::new();
    regs.insert(GuestRegister::cpu(1)).unwrap();
    assert_eq!(regs.insert(GuestRegister::cpu(1)), Err(InsertError::AlreadyReserved));
    assert_eq!(regs.iter(), vec![(GuestRegister::Cpu(1), Register::Rax)]);
}

#[test]
fn insert_without_any_register_is_refused() {
    let mut regs = Registers::with_registers(&[Register::Rsi, Register::Rsp]);
    assert_eq!(regs.insert(GuestRegister::cpu(1)), Err(InsertError::NoRegisters));
    assert!(regs.is_empty());
}

#[test]
fn a_full_allocator_evicts_the_binding_used_longest_ago() {
    let mut regs = Registers::with_registers(&[Register::Rax, Register::Rcx, Register::Rdx]);
    assert_eq!(regs.insert(GuestRegister::cpu(1)), Ok((Register::Rax, None)));
    assert_eq!(regs.insert(GuestRegister::cpu(2)), Ok((Register::Rcx, None)));
    assert_eq!(regs.insert(GuestRegister::cpu(3)), Ok((Register::Rdx, None)));
    // every insert past the number of registers evicts the oldest binding
    assert_eq!(
        regs.insert(GuestRegister::cpu(4)),
        Ok((Register::Rax, Some(GuestRegister::Cpu(1))))
    );
    assert_eq!(
        regs.insert(GuestRegister::cpu(5)),
        Ok((Register::Rcx, Some(GuestRegister::Cpu(2))))
    );
    // a use makes a binding the youngest
    assert_eq!(regs.get(GuestRegister::cpu(3)), Some(Register::Rdx));
    assert_eq!(
        regs.insert(GuestRegister::cpu(6)),
        Ok((Register::Rax, Some(GuestRegister::Cpu(4))))
    );
    assert_eq!(
        regs.insert(GuestRegister::pc()),
        Ok((Register::Rcx, Some(GuestRegister::Cpu(5))))
    );
    assert_eq!(
        regs.insert(GuestRegister::cpu(7)),
        Ok((Register::Rdx, Some(GuestRegister::Cpu(3))))
    );
    // the evicted bindings are gone, and no register is bound twice
    assert_eq!(
        regs.iter(),
        vec![
            (GuestRegister::Cpu(6), Register::Rax),
            (GuestRegister::Cpu(7), Register::Rdx),
            (GuestRegister::Pc, Register::Rcx),
        ]
    );
    assert_eq!(regs.peek(GuestRegister::cpu(1)), None);
}

#[test]
fn free_then_insert_reuses_the_freed_register() {
    let mut regs = Registers::with_registers(&[Register::Rax, Register::Rcx, Register::Rdx]);
    regs.insert(GuestRegister::cpu(1)).unwrap();
    regs.insert(GuestRegister::cpu(2)).unwrap();
    regs.insert(GuestRegister::cpu(3)).unwrap();
    assert_eq!(
        regs.free(GuestRegister::cpu(2)),
        Some((GuestRegister::Cpu(2), Register::Rcx))
    );
    assert_eq!(regs.free(GuestRegister::cpu(2)), None);
    assert_eq!(regs.insert(GuestRegister::cpu(9)), Ok((Register::Rcx, None)));
}

#[test]
fn the_borrow_counter_starts_over_once_nothing_is_bound() {
    let mut regs = Registers::with_registers(&[Register::Rax, Register::Rcx]);
    regs.insert(GuestRegister::cpu(1)).unwrap();
    regs.insert(GuestRegister::cpu(2)).unwrap();
    regs.get(GuestRegister::cpu(1));
    regs.free(GuestRegister::cpu(1));
    assert!(!regs.is_empty());
    regs.free(GuestRegister::cpu(2));
    assert!(regs.is_empty());
    // with the counter back at zero the bindings age in the order they are
    // made again
    regs.insert(GuestRegister::cpu(5)).unwrap();
    regs.insert(GuestRegister::cpu(6)).unwrap();
    assert_eq!(
        regs.insert(GuestRegister::cpu(7)),
        Ok((Register::Rax, Some(GuestRegister::Cpu(5))))
    );
}

#[test]
fn get_of_an_unbound_register_changes_nothing() {
    let mut regs = Registers::new();
    assert_eq!(regs.get(GuestRegister::cpu(1)), None);
    assert!(regs.is_empty());
    assert_eq!(regs.insert(GuestRegister::cpu(1)), Ok((Register::Rax, None)));
}

#[test]
fn find_by_host_names_the_guest_register() {
    let mut regs = Registers::new();
    regs.insert(GuestRegister::cpu(7)).unwrap();
    regs.insert(GuestRegister::pc()).unwrap();
    assert_eq!(
        regs.find_by_host(Register::Rax),
        Some((GuestRegister::Cpu(7), Register::Rax))
    );
    assert_eq!(regs.find_by_host(Register::Rcx), Some((GuestRegister::Pc, Register::Rcx)));
    assert_eq!(regs.find_by_host(Register::Rdx), None);
    assert_eq!(regs.find_by_host(Register::Rsi), None);
}

#[test]
fn an_excluded_register_is_not_handed_out() {
    let mut regs = Registers::with_registers(&[Register::Rax, Register::Rcx, Register::Rdx]);
    assert_eq!(regs.exclude_register(Register::Rax), None);
    assert_eq!(regs.exclude_register(Register::R15), None);
    assert_eq!(regs.insert(GuestRegister::cpu(1)), Ok((Register::Rcx, None)));
    assert_eq!(regs.insert(GuestRegister::cpu(2)), Ok((Register::Rdx, None)));
    assert_eq!(
        regs.insert(GuestRegister::cpu(3)),
        Ok((Register::Rcx, Some(GuestRegister::Cpu(1))))
    );
    // excluding a register that is in use drops the binding as well
    assert_eq!(
        regs.exclude_register(Register::Rdx),
        Some((GuestRegister::Cpu(2), Register::Rdx))
    );
    assert_eq!(regs.peek(GuestRegister::cpu(2)), None);
    assert_eq!(regs.peek(GuestRegister::cpu(3)), Some(Register::Rcx));
    // and the register is not handed out again: the next guest register
    // takes the place of the one that is left
    assert_eq!(
        regs.insert(GuestRegister::cpu(4)),
        Ok((Register::Rcx, Some(GuestRegister::Cpu(3))))
    );
    assert_eq!(regs.free(GuestRegister::cpu(4)), Some((GuestRegister::Cpu(4), Register::Rcx)));
    assert!(regs.is_empty());
    assert_eq!(regs.insert(GuestRegister::cpu(5)), Ok((Register::Rcx, None)));
    // excluding it once more changes nothing
    assert_eq!(regs.exclude_register(Register::Rdx), None);
    assert_eq!(regs.exclude_register(Register::Rcx), Some((GuestRegister::Cpu(5), Register::Rcx)));
    assert_eq!(regs.insert(GuestRegister::cpu(6)), Err(InsertError::NoRegisters));
}

#[test]
fn guest_registers_have_their_codes() {
    assert_eq!(GuestRegister::cpu(0).to_code(), 0);
    assert_eq!(GuestRegister::cpu(31).to_code(), 31);
    assert_eq!(GuestRegister::cpu(255).to_code(), 255);
    assert_eq!(GuestRegister::pc().to_code(), 256);
    assert_eq!(GuestRegister::from_code(17), GuestRegister::Cpu(17));
    assert_eq!(GuestRegister::from_code(256), GuestRegister::Pc);
}

#[test]
fn get_or_insert_binds_what_is_not_bound() {
    let mut regs = Registers::with_registers(&[Register::Rdx, Register::Rcx]);
    assert_eq!(regs.get_or_insert(GuestRegister::Cpu(4)), Ok((Register::Rcx, None)));
    assert_eq!(regs.get_or_insert(GuestRegister::Cpu(4)), Ok((Register::Rcx, None)));
    assert_eq!(regs.get_or_insert(GuestRegister::Pc), Ok((Register::Rdx, None)));
    // asking for the first again makes the other the one used longest ago
    assert_eq!(regs.get_or_insert(GuestRegister::Cpu(4)), Ok((Register::Rcx, None)));
    assert_eq!(
        regs.get_or_insert(GuestRegister::Cpu(9)),
        Ok((Register::Rdx, Some(GuestRegister::Pc)))
    );
    assert_eq!(regs.peek(GuestRegister::Pc), None);
    assert_eq!(regs.peek(GuestRegister::Cpu(4)), Some(Register::Rcx));
    assert_eq!(regs.peek(GuestRegister::Cpu(9)), Some(Register::Rdx));
}
