//! The guest's instruction words: their three formats and the instruction
//! each word stands for.

use vstd::prelude::*;

verus! {

/// An instruction in the immediate format: `op rs rt immediate`.
#[derive(Debug, Clone, Copy, PartialEq, Eq, Structural)]
pub struct ImmediateType {
    /// 6 bits
    pub opcode: u8,
    /// 5 bits
    pub rs: u8,
    /// 5 bits
    pub rt: u8,
    /// 16 bits
    pub imm: u16,
}

/// An instruction in the jump format: `op target`.
#[derive(Debug, Clone, Copy, PartialEq, Eq, Structural)]
pub struct JumpType {
    /// 6 bits
    pub opcode: u8,
    /// 26 bits
    pub target: u32,
}

/// An instruction in the register format: `op rs rt rd sa funct`.
#[derive(Debug, Clone, Copy, PartialEq, Eq, Structural)]
pub struct RegisterType {
    /// 6 bits
    pub opcode: u8,
    /// 5 bits
    pub rs: u8,
    /// 5 bits
    pub rt: u8,
    /// 5 bits
    pub rd: u8,
    /// 5 bits
    pub shift_amount: u8,
    /// 6 bits
    pub funct: u8,
}

/// The fields of a word read in the immediate format.
pub open spec fn immediate_fields(word: u32) -> ImmediateType {
    ImmediateType {
        opcode: (word / 0x400_0000) as u8,
        rs: (word / 0x20_0000 % 32) as u8,
        rt: (word / 0x1_0000 % 32) as u8,
        imm: (word % 0x1_0000) as u16,
    }
}

/// The fields of a word read in the jump format.
pub open spec fn jump_fields(word: u32) -> JumpType {
    JumpType { opcode: (word / 0x400_0000) as u8, target: (word % 0x400_0000) as u32 }
}

/// The fields of a word read in the register format.
pub open spec fn register_fields(word: u32) -> RegisterType {
    RegisterType {
        opcode: (word / 0x400_0000) as u8,
        rs: (word / 0x20_0000 % 32) as u8,
        rt: (word / 0x1_0000 % 32) as u8,
        rd: (word / 0x800 % 32) as u8,
        shift_amount: (word / 0x40 % 32) as u8,
        funct: (word % 0x40) as u8,
    }
}

/// How shifts and masks cut a word into its fields.
pub proof fn lemma_fields(word: u32)
    ensures
        (word >> 26) as u8 == (word / 0x400_0000) as u8,
        word >> 26 < 64,
        ((word >> 21) & 0x1f) as u8 == (word / 0x20_0000 % 32) as u8,
        ((word >> 16) & 0x1f) as u8 == (word / 0x1_0000 % 32) as u8,
        ((word >> 11) & 0x1f) as u8 == (word / 0x800 % 32) as u8,
        ((word >> 6) & 0x1f) as u8 == (word / 0x40 % 32) as u8,
        (word & 0x3f) as u8 == (word % 0x40) as u8,
        word as u16 == (word % 0x1_0000) as u16,
        word & 0x3ff_ffff == word % 0x400_0000,
{
    assert((word >> 26) as u8 == (word / 0x400_0000) as u8 && word >> 26 < 64) by (bit_vector);
    assert(((word >> 21) & 0x1f) as u8 == (word / 0x20_0000 % 32) as u8 && ((word >> 16) & 0x1f) as u8
        == (word / 0x1_0000 % 32) as u8) by (bit_vector);
    assert(((word >> 11) & 0x1f) as u8 == (word / 0x800 % 32) as u8 && ((word >> 6) & 0x1f) as u8
        == (word / 0x40 % 32) as u8) by (bit_vector);
    assert((word & 0x3f) as u8 == (word % 0x40) as u8 && word as u16 == (word % 0x1_0000) as u16
        && word & 0x3ff_ffff == word % 0x400_0000) by (bit_vector);
}

impl ImmediateType {
    pub fn new(instruction: u32) -> (i: ImmediateType)
        ensures
            i == immediate_fields(instruction),
    {
        proof {
            lemma_fields(instruction);
        }
        Self {
            opcode: (instruction >> 26) as u8,
            rs: ((instruction >> 21) & 0x1f) as u8,
            rt: ((instruction >> 16) & 0x1f) as u8,
            imm: instruction as u16,
        }
    }
}

impl JumpType {
    pub fn new(instruction: u32) -> (j: JumpType)
        ensures
            j == jump_fields(instruction),
    {
        proof {
            lemma_fields(instruction);
        }
        Self { opcode: (instruction >> 26) as u8, target: instruction & 0x3ff_ffff }
    }
}

impl RegisterType {
    pub fn new(instruction: u32) -> (r: RegisterType)
        ensures
            r == register_fields(instruction),
    {
        proof {
            lemma_fields(instruction);
        }
        Self {
            opcode: (instruction >> 26) as u8,
            rs: ((instruction >> 21) & 0x1f) as u8,
            rt: ((instruction >> 16) & 0x1f) as u8,
            rd: ((instruction >> 11) & 0x1f) as u8,
            shift_amount: ((instruction >> 6) & 0x1f) as u8,
            funct: (instruction & 0x3f) as u8,
        }
    }
}

/// The `rs` field of the coprocessor 0 moves.
#[derive(Debug, Clone, Copy, PartialEq, Eq, Structural)]
pub enum Cop0RS {
    DMFC0,
    DMTC0,
    MFC0,
    MTC0,
}

impl Cop0RS {
    /// The five bits that stand for the move.
    pub open spec fn bits(self) -> u8 {
        match self {
            Cop0RS::DMFC0 => 1,
            Cop0RS::DMTC0 => 5,
            Cop0RS::MFC0 => 0,
            Cop0RS::MTC0 => 4,
        }
    }

    /// The move that `n` stands for, or `n` back where it stands for none.
    pub open spec fn of_bits(n: u8) -> Result<Cop0RS, u8> {
        if n == 1 {
            Ok(Cop0RS::DMFC0)
        } else if n == 5 {
            Ok(Cop0RS::DMTC0)
        } else if n == 0 {
            Ok(Cop0RS::MFC0)
        } else if n == 4 {
            Ok(Cop0RS::MTC0)
        } else {
            Err(n)
        }
    }

    pub fn into_primitive(self) -> (n: u8)
        ensures
            n == self.bits(),
    {
        match self {
            Cop0RS::DMFC0 => 1,
            Cop0RS::DMTC0 => 5,
            Cop0RS::MFC0 => 0,
            Cop0RS::MTC0 => 4,
        }
    }

    /// The move that `n` stands for, or `n` back where it stands for none.
    pub fn try_from_primitive(n: u8) -> (r: Result<Cop0RS, u8>)
        ensures
            r == Cop0RS::of_bits(n),
    {
        match n {
            1 => Ok(Cop0RS::DMFC0),
            5 => Ok(Cop0RS::DMTC0),
            0 => Ok(Cop0RS::MFC0),
            4 => Ok(Cop0RS::MTC0),
            _ => Err(n),
        }
    }
}

/// A word that stands for no instruction the decoder knows.
#[derive(Debug, Clone, Copy, PartialEq, Eq, Structural)]
pub enum DecodeError {
    /// The opcode is `SPECIAL` and no instruction has the function field.
    UnknownSpecial(u32),
    /// The opcode is `COP0` and no instruction has the fields.
    UnknownCop0(u32),
    /// The opcode is one of the guest's, and the decoder does not handle it.
    UnhandledOpcode(u32),
    /// No instruction of the guest has the opcode.
    UnknownInstruction(u32),
}

/// A decoded guest instruction.
#[allow(non_camel_case_types)]
#[derive(Debug, Clone, Copy, PartialEq, Eq, Structural)]
pub enum Instruction {
    NOP,
    ADDI(ImmediateType),
    ADDIU(ImmediateType),
    ANDI(ImmediateType),
    ORI(ImmediateType),
    XORI(ImmediateType),
    BNE(ImmediateType),
    BEQ(ImmediateType),
    BLEZ(ImmediateType),
    BGTZ(ImmediateType),
    BEQL(ImmediateType),
    BNEL(ImmediateType),
    BLEZL(ImmediateType),
    BGTZL(ImmediateType),
    SW(ImmediateType),
    LUI(ImmediateType),
    LW(ImmediateType),
    LB(ImmediateType),
    LH(ImmediateType),
    LWL(ImmediateType),
    LBU(ImmediateType),
    LHU(ImmediateType),
    LWR(ImmediateType),
    LWU(ImmediateType),
    J(JumpType),
    JAL(JumpType),
    SpecialSLL(RegisterType),
    SpecialSRL(RegisterType),
    SpecialSRA(RegisterType),
    SpecialSLLV(RegisterType),
    SpecialSRLV(RegisterType),
    SpecialSRAV(RegisterType),
    SpecialJR(RegisterType),
    SpecialJALR(RegisterType),
    SpecialSYSCALL(RegisterType),
    SpecialBREAK(RegisterType),
    SpecialSYNC(RegisterType),
    SpecialMFHI(RegisterType),
    SpecialMTHI(RegisterType),
    SpecialMFLO(RegisterType),
    SpecialMTLO(RegisterType),
    SpecialDSLLV(RegisterType),
    SpecialDSRLV(RegisterType),
    SpecialDSRAV(RegisterType),
    SpecialMULT(RegisterType),
    SpecialMULTU(RegisterType),
    SpecialDIV(RegisterType),
    SpecialDIVU(RegisterType),
    SpecialDMULT(RegisterType),
    SpecialDMULTU(RegisterType),
    SpecialDDIV(RegisterType),
    SpecialDDIVU(RegisterType),
    SpecialADD(RegisterType),
    SpecialADDU(RegisterType),
    SpecialSUB(RegisterType),
    SpecialSUBU(RegisterType),
    SpecialAND(RegisterType),
    SpecialOR(RegisterType),
    SpecialXOR(RegisterType),
    SpecialNOR(RegisterType),
    SpecialSLT(RegisterType),
    SpecialSLTU(RegisterType),
    SpecialDADD(RegisterType),
    SpecialDADDU(RegisterType),
    SpecialDSUB(RegisterType),
    SpecialDSUBU(RegisterType),
    SpecialTGE(RegisterType),
    SpecialTGEU(RegisterType),
    SpecialTLT(RegisterType),
    SpecialTLTU(RegisterType),
    SpecialTEQ(RegisterType),
    SpecialTNE(RegisterType),
    SpecialDSLL(RegisterType),
    SpecialDSRL(RegisterType),
    SpecialDSRA(RegisterType),
    SpecialDSLL32(RegisterType),
    SpecialDSRL32(RegisterType),
    SpecialDSRA32(RegisterType),
    Cop0DMFC0(RegisterType),
    Cop0DMTC0(RegisterType),
    Cop0MFC0(RegisterType),
    Cop0MTC0(RegisterType),
    Cop0ERET(RegisterType),
    Cop0TLBP(RegisterType),
    Cop0TLBR(RegisterType),
    Cop0TLBWI(RegisterType),
    Cop0TLBWR(RegisterType),
}

/// The `SPECIAL` instruction that a word stands for: the function field
/// selects it.
pub open spec fn special_decoding(word: u32) -> Result<Instruction, DecodeError> {
    let r = register_fields(word);
    if r.funct == 0 {
        Ok(Instruction::SpecialSLL(r))
    } else if r.funct == 2 {
        Ok(Instruction::SpecialSRL(r))
    } else if r.funct == 3 {
        Ok(Instruction::SpecialSRA(r))
    } else if r.funct == 4 {
        Ok(Instruction::SpecialSLLV(r))
    } else if r.funct == 6 {
        Ok(Instruction::SpecialSRLV(r))
    } else if r.funct == 7 {
        Ok(Instruction::SpecialSRAV(r))
    } else if r.funct == 8 {
        Ok(Instruction::SpecialJR(r))
    } else if r.funct == 9 {
        Ok(Instruction::SpecialJALR(r))
    } else if r.funct == 12 {
        Ok(Instruction::SpecialSYSCALL(r))
    } else if r.funct == 13 {
        Ok(Instruction::SpecialBREAK(r))
    } else if r.funct == 15 {
        Ok(Instruction::SpecialSYNC(r))
    } else if r.funct == 16 {
        Ok(Instruction::SpecialMFHI(r))
    } else if r.funct == 17 {
        Ok(Instruction::SpecialMTHI(r))
    } else if r.funct == 18 {
        Ok(Instruction::SpecialMFLO(r))
    } else if r.funct == 19 {
        Ok(Instruction::SpecialMTLO(r))
    } else if r.funct == 20 {
        Ok(Instruction::SpecialDSLLV(r))
    } else if r.funct == 22 {
        Ok(Instruction::SpecialDSRLV(r))
    } else if r.funct == 23 {
        Ok(Instruction::SpecialDSRAV(r))
    } else if r.funct == 24 {
        Ok(Instruction::SpecialMULT(r))
    } else if r.funct == 25 {
        Ok(Instruction::SpecialMULTU(r))
    } else if r.funct == 26 {
        Ok(Instruction::SpecialDIV(r))
    } else if r.funct == 27 {
        Ok(Instruction::SpecialDIVU(r))
    } else if r.funct == 28 {
        Ok(Instruction::SpecialDMULT(r))
    } else if r.funct == 29 {
        Ok(Instruction::SpecialDMULTU(r))
    } else if r.funct == 30 {
        Ok(Instruction::SpecialDDIV(r))
    } else if r.funct == 31 {
        Ok(Instruction::SpecialDDIVU(r))
    } else if r.funct == 32 {
        Ok(Instruction::SpecialADD(r))
    } else if r.funct == 33 {
        Ok(Instruction::SpecialADDU(r))
    } else if r.funct == 34 {
        Ok(Instruction::SpecialSUB(r))
    } else if r.funct == 35 {
        Ok(Instruction::SpecialSUBU(r))
    } else if r.funct == 36 {
        Ok(Instruction::SpecialAND(r))
    } else if r.funct == 37 {
        Ok(Instruction::SpecialOR(r))
    } else if r.funct == 38 {
        Ok(Instruction::SpecialXOR(r))
    } else if r.funct == 39 {
        Ok(Instruction::SpecialNOR(r))
    } else if r.funct == 42 {
        Ok(Instruction::SpecialSLT(r))
    } else if r.funct == 43 {
        Ok(Instruction::SpecialSLTU(r))
    } else if r.funct == 44 {
        Ok(Instruction::SpecialDADD(r))
    } else if r.funct == 45 {
        Ok(Instruction::SpecialDADDU(r))
    } else if r.funct == 46 {
        Ok(Instruction::SpecialDSUB(r))
    } else if r.funct == 47 {
        Ok(Instruction::SpecialDSUBU(r))
    } else if r.funct == 48 {
        Ok(Instruction::SpecialTGE(r))
    } else if r.funct == 49 {
        Ok(Instruction::SpecialTGEU(r))
    } else if r.funct == 50 {
        Ok(Instruction::SpecialTLT(r))
    } else if r.funct == 51 {
        Ok(Instruction::SpecialTLTU(r))
    } else if r.funct == 52 {
        Ok(Instruction::SpecialTEQ(r))
    } else if r.funct == 54 {
        Ok(Instruction::SpecialTNE(r))
    } else if r.funct == 56 {
        Ok(Instruction::SpecialDSLL(r))
    } else if r.funct == 58 {
        Ok(Instruction::SpecialDSRL(r))
    } else if r.funct == 59 {
        Ok(Instruction::SpecialDSRA(r))
    } else if r.funct == 60 {
        Ok(Instruction::SpecialDSLL32(r))
    } else if r.funct == 62 {
        Ok(Instruction::SpecialDSRL32(r))
    } else if r.funct == 63 {
        Ok(Instruction::SpecialDSRA32(r))
    } else {
        Err(DecodeError::UnknownSpecial(word))
    }
}

/// The `COP0` instruction that a word stands for: with bit 4 of `rs` set the
/// function field selects it, else `rs` does.
pub open spec fn cop0_decoding(word: u32) -> Result<Instruction, DecodeError> {
    let r = register_fields(word);
    if r.rs >= 16 {
        if r.funct == 24 {
            Ok(Instruction::Cop0ERET(r))
        } else if r.funct == 8 {
            Ok(Instruction::Cop0TLBP(r))
        } else if r.funct == 1 {
            Ok(Instruction::Cop0TLBR(r))
        } else if r.funct == 2 {
            Ok(Instruction::Cop0TLBWI(r))
        } else if r.funct == 6 {
            Ok(Instruction::Cop0TLBWR(r))
        } else {
            Err(DecodeError::UnknownCop0(word))
        }
    } else {
        if r.rs == 1 {
            Ok(Instruction::Cop0DMFC0(r))
        } else if r.rs == 5 {
            Ok(Instruction::Cop0DMTC0(r))
        } else if r.rs == 0 {
            Ok(Instruction::Cop0MFC0(r))
        } else if r.rs == 4 {
            Ok(Instruction::Cop0MTC0(r))
        } else {
            Err(DecodeError::UnknownCop0(word))
        }
    }
}

/// Whether no instruction of the guest has the opcode.
pub open spec fn unused_opcode(opcode: u8) -> bool {
    opcode == 18 || opcode == 19 || opcode == 28 || opcode == 29 || opcode == 30 || opcode == 31
        || opcode == 51 || opcode == 59
}

/// The instruction that a word stands for.
pub open spec fn decoding(word: u32) -> Result<Instruction, DecodeError> {
    let opcode = (word / 0x400_0000) as u8;
    if word == 0 {
        Ok(Instruction::NOP)
    } else if opcode == 8 {
        Ok(Instruction::ADDI(immediate_fields(word)))
    } else if opcode == 9 {
        Ok(Instruction::ADDIU(immediate_fields(word)))
    } else if opcode == 12 {
        Ok(Instruction::ANDI(immediate_fields(word)))
    } else if opcode == 13 {
        Ok(Instruction::ORI(immediate_fields(word)))
    } else if opcode == 14 {
        Ok(Instruction::XORI(immediate_fields(word)))
    } else if opcode == 5 {
        Ok(Instruction::BNE(immediate_fields(word)))
    } else if opcode == 4 {
        Ok(Instruction::BEQ(immediate_fields(word)))
    } else if opcode == 6 {
        Ok(Instruction::BLEZ(immediate_fields(word)))
    } else if opcode == 7 {
        Ok(Instruction::BGTZ(immediate_fields(word)))
    } else if opcode == 20 {
        Ok(Instruction::BEQL(immediate_fields(word)))
    } else if opcode == 21 {
        Ok(Instruction::BNEL(immediate_fields(word)))
    } else if opcode == 22 {
        Ok(Instruction::BLEZL(immediate_fields(word)))
    } else if opcode == 23 {
        Ok(Instruction::BGTZL(immediate_fields(word)))
    } else if opcode == 43 {
        Ok(Instruction::SW(immediate_fields(word)))
    } else if opcode == 15 {
        Ok(Instruction::LUI(immediate_fields(word)))
    } else if opcode == 35 {
        Ok(Instruction::LW(immediate_fields(word)))
    } else if opcode == 32 {
        Ok(Instruction::LB(immediate_fields(word)))
    } else if opcode == 33 {
        Ok(Instruction::LH(immediate_fields(word)))
    } else if opcode == 34 {
        Ok(Instruction::LWL(immediate_fields(word)))
    } else if opcode == 36 {
        Ok(Instruction::LBU(immediate_fields(word)))
    } else if opcode == 37 {
        Ok(Instruction::LHU(immediate_fields(word)))
    } else if opcode == 38 {
        Ok(Instruction::LWR(immediate_fields(word)))
    } else if opcode == 39 {
        Ok(Instruction::LWU(immediate_fields(word)))
    } else if opcode == 2 {
        Ok(Instruction::J(jump_fields(word)))
    } else if opcode == 3 {
        Ok(Instruction::JAL(jump_fields(word)))
    } else if opcode == 0 {
        special_decoding(word)
    } else if opcode == 16 {
        cop0_decoding(word)
    } else if unused_opcode(opcode) {
        Err(DecodeError::UnknownInstruction(word))
    } else {
        Err(DecodeError::UnhandledOpcode(word))
    }
}

impl Instruction {
    /// Decodes a `SPECIAL` instruction.
    pub fn decode_special(instruction: u32) -> (r: Result<Instruction, DecodeError>)
        ensures
            r == special_decoding(instruction),
    {
        let rtype = RegisterType::new(instruction);
        match rtype.funct {
            0 => Ok(Instruction::SpecialSLL(rtype)),
            2 => Ok(Instruction::SpecialSRL(rtype)),
            3 => Ok(Instruction::SpecialSRA(rtype)),
            4 => Ok(Instruction::SpecialSLLV(rtype)),
            6 => Ok(Instruction::SpecialSRLV(rtype)),
            7 => Ok(Instruction::SpecialSRAV(rtype)),
            8 => Ok(Instruction::SpecialJR(rtype)),
            9 => Ok(Instruction::SpecialJALR(rtype)),
            12 => Ok(Instruction::SpecialSYSCALL(rtype)),
            13 => Ok(Instruction::SpecialBREAK(rtype)),
            15 => Ok(Instruction::SpecialSYNC(rtype)),
            16 => Ok(Instruction::SpecialMFHI(rtype)),
            17 => Ok(Instruction::SpecialMTHI(rtype)),
            18 => Ok(Instruction::SpecialMFLO(rtype)),
            19 => Ok(Instruction::SpecialMTLO(rtype)),
            20 => Ok(Instruction::SpecialDSLLV(rtype)),
            22 => Ok(Instruction::SpecialDSRLV(rtype)),
            23 => Ok(Instruction::SpecialDSRAV(rtype)),
            24 => Ok(Instruction::SpecialMULT(rtype)),
            25 => Ok(Instruction::SpecialMULTU(rtype)),
            26 => Ok(Instruction::SpecialDIV(rtype)),
            27 => Ok(Instruction::SpecialDIVU(rtype)),
            28 => Ok(Instruction::SpecialDMULT(rtype)),
            29 => Ok(Instruction::SpecialDMULTU(rtype)),
            30 => Ok(Instruction::SpecialDDIV(rtype)),
            31 => Ok(Instruction::SpecialDDIVU(rtype)),
            32 => Ok(Instruction::SpecialADD(rtype)),
            33 => Ok(Instruction::SpecialADDU(rtype)),
            34 => Ok(Instruction::SpecialSUB(rtype)),
            35 => Ok(Instruction::SpecialSUBU(rtype)),
            36 => Ok(Instruction::SpecialAND(rtype)),
            37 => Ok(Instruction::SpecialOR(rtype)),
            38 => Ok(Instruction::SpecialXOR(rtype)),
            39 => Ok(Instruction::SpecialNOR(rtype)),
            42 => Ok(Instruction::SpecialSLT(rtype)),
            43 => Ok(Instruction::SpecialSLTU(rtype)),
            44 => Ok(Instruction::SpecialDADD(rtype)),
            45 => Ok(Instruction::SpecialDADDU(rtype)),
            46 => Ok(Instruction::SpecialDSUB(rtype)),
            47 => Ok(Instruction::SpecialDSUBU(rtype)),
            48 => Ok(Instruction::SpecialTGE(rtype)),
            49 => Ok(Instruction::SpecialTGEU(rtype)),
            50 => Ok(Instruction::SpecialTLT(rtype)),
            51 => Ok(Instruction::SpecialTLTU(rtype)),
            52 => Ok(Instruction::SpecialTEQ(rtype)),
            54 => Ok(Instruction::SpecialTNE(rtype)),
            56 => Ok(Instruction::SpecialDSLL(rtype)),
            58 => Ok(Instruction::SpecialDSRL(rtype)),
            59 => Ok(Instruction::SpecialDSRA(rtype)),
            60 => Ok(Instruction::SpecialDSLL32(rtype)),
            62 => Ok(Instruction::SpecialDSRL32(rtype)),
            63 => Ok(Instruction::SpecialDSRA32(rtype)),
            _ => Err(DecodeError::UnknownSpecial(instruction)),
        }
    }

    /// Decodes a `COP0` instruction.
    pub fn decode_cop0(instruction: u32) -> (r: Result<Instruction, DecodeError>)
        ensures
            r == cop0_decoding(instruction),
    {
        let rtype = RegisterType::new(instruction);
        let rs = rtype.rs;
        proof {
            assert(rs & 0x10 == 0x10 <==> rs >= 16) by (bit_vector)
                requires
                    rs < 32,
            ;
        }
        if rs & 0x10 == 0x10 {
            match rtype.funct {
                24 => Ok(Instruction::Cop0ERET(rtype)),
                8 => Ok(Instruction::Cop0TLBP(rtype)),
                1 => Ok(Instruction::Cop0TLBR(rtype)),
                2 => Ok(Instruction::Cop0TLBWI(rtype)),
                6 => Ok(Instruction::Cop0TLBWR(rtype)),
                _ => Err(DecodeError::UnknownCop0(instruction)),
            }
        } else {
            match Cop0RS::try_from_primitive(rtype.rs) {
                Ok(Cop0RS::DMFC0) => Ok(Instruction::Cop0DMFC0(rtype)),
                Ok(Cop0RS::DMTC0) => Ok(Instruction::Cop0DMTC0(rtype)),
                Ok(Cop0RS::MFC0) => Ok(Instruction::Cop0MFC0(rtype)),
                Ok(Cop0RS::MTC0) => Ok(Instruction::Cop0MTC0(rtype)),
                Err(_) => Err(DecodeError::UnknownCop0(instruction)),
            }
        }
    }

    /// Decodes an instruction word.
    pub fn decode(instruction: u32) -> (r: Result<Instruction, DecodeError>)
        ensures
            r == decoding(instruction),
    {
        if instruction == 0 {
            return Ok(Instruction::NOP);
        }
        proof {
            lemma_fields(instruction);
        }
        let opcode = (instruction >> 26) as u8;
        match opcode {
            8 => Ok(Instruction::ADDI(ImmediateType::new(instruction))),
            9 => Ok(Instruction::ADDIU(ImmediateType::new(instruction))),
            12 => Ok(Instruction::ANDI(ImmediateType::new(instruction))),
            13 => Ok(Instruction::ORI(ImmediateType::new(instruction))),
            14 => Ok(Instruction::XORI(ImmediateType::new(instruction))),
            5 => Ok(Instruction::BNE(ImmediateType::new(instruction))),
            4 => Ok(Instruction::BEQ(ImmediateType::new(instruction))),
            6 => Ok(Instruction::BLEZ(ImmediateType::new(instruction))),
            7 => Ok(Instruction::BGTZ(ImmediateType::new(instruction))),
            20 => Ok(Instruction::BEQL(ImmediateType::new(instruction))),
            21 => Ok(Instruction::BNEL(ImmediateType::new(instruction))),
            22 => Ok(Instruction::BLEZL(ImmediateType::new(instruction))),
            23 => Ok(Instruction::BGTZL(ImmediateType::new(instruction))),
            43 => Ok(Instruction::SW(ImmediateType::new(instruction))),
            15 => Ok(Instruction::LUI(ImmediateType::new(instruction))),
            35 => Ok(Instruction::LW(ImmediateType::new(instruction))),
            32 => Ok(Instruction::LB(ImmediateType::new(instruction))),
            33 => Ok(Instruction::LH(ImmediateType::new(instruction))),
            34 => Ok(Instruction::LWL(ImmediateType::new(instruction))),
            36 => Ok(Instruction::LBU(ImmediateType::new(instruction))),
            37 => Ok(Instruction::LHU(ImmediateType::new(instruction))),
            38 => Ok(Instruction::LWR(ImmediateType::new(instruction))),
            39 => Ok(Instruction::LWU(ImmediateType::new(instruction))),
            2 => Ok(Instruction::J(JumpType::new(instruction))),
            3 => Ok(Instruction::JAL(JumpType::new(instruction))),
            0 => Instruction::decode_special(instruction),
            16 => Instruction::decode_cop0(instruction),
            18 | 19 | 28 | 29 | 30 | 31 | 51 | 59 => Err(
                DecodeError::UnknownInstruction(instruction),
            ),
            _ => Err(DecodeError::UnhandledOpcode(instruction)),
        }
    }

    /// The clock cycles that the instruction takes.
    pub fn cycles(&self) -> (n: usize)
        ensures
            n == 5,
    {
        5
    }
}

} // verus!
