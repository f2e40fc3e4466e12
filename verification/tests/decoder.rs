use wicked64::cpu::instruction::{
    Cop0RS, DecodeError, ImmediateType, Instruction, JumpType, RegisterType,
};

#[test]
fn words_are_cut_into_their_fields() {
    // addiu $29, $29, -24
    assert_eq!(
        ImmediateType::new(0x27bd_ffe8),
        ImmediateType { opcode: 0b001001, rs: 29, rt: 29, imm: 0xffe8 }
    );
    // jal 0x0000_4000
    assert_eq!(JumpType::new(0x0c00_4000), JumpType { opcode: 0b000011, target: 0x4000 });
    // the target has 26 bits
    assert_eq!(JumpType::new(0x0bff_ffff), JumpType { opcode: 0b000010, target: 0x3ff_ffff });
    // or $3, $1, $2 with a shift amount that a real word would not have
    assert_eq!(
        RegisterType::new(0x0022_1965),
        RegisterType { opcode: 0, rs: 1, rt: 2, rd: 3, shift_amount: 5, funct: 0b100101 }
    );
}

#[test]
fn the_zero_word_is_a_nop() {
    assert_eq!(Instruction::decode(0), Ok(Instruction::NOP));
}

#[test]
fn immediate_and_jump_instructions_are_told_by_their_opcode() {
    let imm = |word: u32| ImmediateType::new(word);
    assert_eq!(Instruction::decode(0x3c01_1234), Ok(Instruction::LUI(imm(0x3c01_1234))));
    assert_eq!(Instruction::decode(0x3421_5678), Ok(Instruction::ORI(imm(0x3421_5678))));
    assert_eq!(Instruction::decode(0x3021_00ff), Ok(Instruction::ANDI(imm(0x3021_00ff))));
    assert_eq!(Instruction::decode(0x3821_00ff), Ok(Instruction::XORI(imm(0x3821_00ff))));
    assert_eq!(Instruction::decode(0x2021_0001), Ok(Instruction::ADDI(imm(0x2021_0001))));
    assert_eq!(Instruction::decode(0x2421_0001), Ok(Instruction::ADDIU(imm(0x2421_0001))));
    assert_eq!(Instruction::decode(0xac62_0000), Ok(Instruction::SW(imm(0xac62_0000))));
    assert_eq!(Instruction::decode(0x8c62_0004), Ok(Instruction::LW(imm(0x8c62_0004))));
    assert_eq!(Instruction::decode(0x8062_0004), Ok(Instruction::LB(imm(0x8062_0004))));
    assert_eq!(Instruction::decode(0x9062_0004), Ok(Instruction::LBU(imm(0x9062_0004))));
    assert_eq!(Instruction::decode(0x8462_0004), Ok(Instruction::LH(imm(0x8462_0004))));
    assert_eq!(Instruction::decode(0x9462_0004), Ok(Instruction::LHU(imm(0x9462_0004))));
    assert_eq!(Instruction::decode(0x9c62_0004), Ok(Instruction::LWU(imm(0x9c62_0004))));
    assert_eq!(Instruction::decode(0x1422_fffd), Ok(Instruction::BNE(imm(0x1422_fffd))));
    assert_eq!(Instruction::decode(0x1022_fffd), Ok(Instruction::BEQ(imm(0x1022_fffd))));
    assert_eq!(
        Instruction::decode(0x0800_4000),
        Ok(Instruction::J(JumpType { opcode: 2, target: 0x4000 }))
    );
    assert_eq!(
        Instruction::decode(0x0c00_4000),
        Ok(Instruction::JAL(JumpType { opcode: 3, target: 0x4000 }))
    );
}

#[test]
fn special_instructions_are_told_by_their_function() {
    let reg = |word: u32| RegisterType::new(word);
    assert_eq!(Instruction::decode(0x0022_1824), Ok(Instruction::SpecialAND(reg(0x0022_1824))));
    assert_eq!(Instruction::decode(0x0022_1825), Ok(Instruction::SpecialOR(reg(0x0022_1825))));
    assert_eq!(Instruction::decode(0x0022_1826), Ok(Instruction::SpecialXOR(reg(0x0022_1826))));
    assert_eq!(Instruction::decode(0x0022_1827), Ok(Instruction::SpecialNOR(reg(0x0022_1827))));
    assert_eq!(Instruction::decode(0x0022_1820), Ok(Instruction::SpecialADD(reg(0x0022_1820))));
    assert_eq!(Instruction::decode(0x03e0_0008), Ok(Instruction::SpecialJR(reg(0x03e0_0008))));
    assert_eq!(Instruction::decode(0x0001_0840), Ok(Instruction::SpecialSLL(reg(0x0001_0840))));
    assert_eq!(
        Instruction::decode_special(0x0000_003f),
        Ok(Instruction::SpecialDSRA32(reg(0x0000_003f)))
    );
    assert_eq!(
        Instruction::decode(0x0000_0001),
        Err(DecodeError::UnknownSpecial(0x0000_0001))
    );
    assert_eq!(
        Instruction::decode_special(0x0000_0035),
        Err(DecodeError::UnknownSpecial(0x0000_0035))
    );
}

#[test]
fn coprocessor_instructions_are_told_by_rs_or_function() {
    let reg = |word: u32| RegisterType::new(word);
    // mtc0 $1, $12
    assert_eq!(Instruction::decode(0x4081_6000), Ok(Instruction::Cop0MTC0(reg(0x4081_6000))));
    // mfc0 $1, $12
    assert_eq!(Instruction::decode(0x4001_6000), Ok(Instruction::Cop0MFC0(reg(0x4001_6000))));
    assert_eq!(Instruction::decode(0x4021_6000), Ok(Instruction::Cop0DMFC0(reg(0x4021_6000))));
    assert_eq!(Instruction::decode(0x40a1_6000), Ok(Instruction::Cop0DMTC0(reg(0x40a1_6000))));
    // eret
    assert_eq!(Instruction::decode(0x4200_0018), Ok(Instruction::Cop0ERET(reg(0x4200_0018))));
    assert_eq!(Instruction::decode(0x4200_0008), Ok(Instruction::Cop0TLBP(reg(0x4200_0008))));
    assert_eq!(Instruction::decode(0x4200_0001), Ok(Instruction::Cop0TLBR(reg(0x4200_0001))));
    assert_eq!(Instruction::decode(0x4200_0002), Ok(Instruction::Cop0TLBWI(reg(0x4200_0002))));
    assert_eq!(Instruction::decode(0x4200_0006), Ok(Instruction::Cop0TLBWR(reg(0x4200_0006))));
    assert_eq!(Instruction::decode(0x4200_0003), Err(DecodeError::UnknownCop0(0x4200_0003)));
    assert_eq!(Instruction::decode_cop0(0x4041_6000), Err(DecodeError::UnknownCop0(0x4041_6000)));
}

#[test]
fn other_opcodes_are_unhandled_or_unknown() {
    // sb is an instruction of the guest that the decoder does not handle
    assert_eq!(
        Instruction::decode(0xa062_0000),
        Err(DecodeError::UnhandledOpcode(0xa062_0000))
    );
    // regimm
    assert_eq!(
        Instruction::decode(0x0400_0000),
        Err(DecodeError::UnhandledOpcode(0x0400_0000))
    );
    // no instruction has the opcode 0b010010
    assert_eq!(
        Instruction::decode(0x4800_0000),
        Err(DecodeError::UnknownInstruction(0x4800_0000))
    );
    assert_eq!(
        Instruction::decode(0xec00_0000),
        Err(DecodeError::UnknownInstruction(0xec00_0000))
    );
}

#[test]
fn every_instruction_takes_five_clocks() {
    assert_eq!(Instruction::NOP.cycles(), 5);
    assert_eq!(Instruction::decode(0x3c01_1234).unwrap().cycles(), 5);
}

#[test]
fn coprocessor_moves_have_their_bits() {
    for rs in [Cop0RS::DMFC0, Cop0RS::DMTC0, Cop0RS::MFC0, Cop0RS::MTC0] {
        assert_eq!(Cop0RS::try_from_primitive(rs.into_primitive()), Ok(rs));
    }
    assert_eq!(Cop0RS::DMFC0.into_primitive(), 1);
    assert_eq!(Cop0RS::MTC0.into_primitive(), 4);
    assert_eq!(Cop0RS::try_from_primitive(2), Err(2));
}
