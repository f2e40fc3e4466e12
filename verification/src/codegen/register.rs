//! The sixteen 64-bit general purpose registers of the host.

use vstd::prelude::*;

verus! {

/// A general purpose register, in hardware numbering order.
#[derive(Debug, Copy, Clone, PartialEq, Eq, Structural, Hash)]
pub enum Register {
    Rax,
    Rcx,
    Rdx,
    Rbx,
    Rsp,
    Rbp,
    Rsi,
    Rdi,
    R8,
    R9,
    R10,
    R11,
    R12,
    R13,
    R14,
    R15,
}

/// The register that the hardware numbers `n`, for `n < 16`.
pub open spec fn register_of(n: int) -> Register {
    if n == 0 {
        Register::Rax
    } else if n == 1 {
        Register::Rcx
    } else if n == 2 {
        Register::Rdx
    } else if n == 3 {
        Register::Rbx
    } else if n == 4 {
        Register::Rsp
    } else if n == 5 {
        Register::Rbp
    } else if n == 6 {
        Register::Rsi
    } else if n == 7 {
        Register::Rdi
    } else if n == 8 {
        Register::R8
    } else if n == 9 {
        Register::R9
    } else if n == 10 {
        Register::R10
    } else if n == 11 {
        Register::R11
    } else if n == 12 {
        Register::R12
    } else if n == 13 {
        Register::R13
    } else if n == 14 {
        Register::R14
    } else {
        Register::R15
    }
}

/// The registers that a callee must hand back unchanged.
pub open spec fn callee_saved(reg: Register) -> bool {
    reg == Register::Rbx || reg == Register::Rsi || reg == Register::Rbp || reg == Register::R12
        || reg == Register::R13 || reg == Register::R14 || reg == Register::R15
}

impl Register {
    /// The hardware number of the register, `0..=15`.
    pub open spec fn num(self) -> int {
        match self {
            Register::Rax => 0,
            Register::Rcx => 1,
            Register::Rdx => 2,
            Register::Rbx => 3,
            Register::Rsp => 4,
            Register::Rbp => 5,
            Register::Rsi => 6,
            Register::Rdi => 7,
            Register::R8 => 8,
            Register::R9 => 9,
            Register::R10 => 10,
            Register::R11 => 11,
            Register::R12 => 12,
            Register::R13 => 13,
            Register::R14 => 14,
            Register::R15 => 15,
        }
    }

    /// The low three bits of the number, as a ModR/M or opcode field holds them.
    pub open spec fn low(self) -> u8 {
        (self.num() % 8) as u8
    }

    /// Whether the number needs an extension bit in the REX prefix.
    pub open spec fn extended(self) -> bool {
        self.num() >= 8
    }

    pub fn number(&self) -> (n: u8)
        ensures
            n == self.num(),
            n < 16,
    {
        match self {
            Register::Rax => 0,
            Register::Rcx => 1,
            Register::Rdx => 2,
            Register::Rbx => 3,
            Register::Rsp => 4,
            Register::Rbp => 5,
            Register::Rsi => 6,
            Register::Rdi => 7,
            Register::R8 => 8,
            Register::R9 => 9,
            Register::R10 => 10,
            Register::R11 => 11,
            Register::R12 => 12,
            Register::R13 => 13,
            Register::R14 => 14,
            Register::R15 => 15,
        }
    }

    /// The register with the given hardware number, if there is one.
    pub fn from_number(n: u8) -> (r: Option<Register>)
        ensures
            n < 16 ==> r == Some(register_of(n as int)) && register_of(n as int).num() == n,
            n >= 16 ==> r is None,
    {
        match n {
            0 => Some(Register::Rax),
            1 => Some(Register::Rcx),
            2 => Some(Register::Rdx),
            3 => Some(Register::Rbx),
            4 => Some(Register::Rsp),
            5 => Some(Register::Rbp),
            6 => Some(Register::Rsi),
            7 => Some(Register::Rdi),
            8 => Some(Register::R8),
            9 => Some(Register::R9),
            10 => Some(Register::R10),
            11 => Some(Register::R11),
            12 => Some(Register::R12),
            13 => Some(Register::R13),
            14 => Some(Register::R14),
            15 => Some(Register::R15),
            _ => None,
        }
    }

    pub fn is_extended(&self) -> (b: bool)
        ensures
            b == self.extended(),
    {
        self.number() >= 8
    }

    pub fn low_bits(&self) -> (n: u8)
        ensures
            n == self.low(),
            n < 8,
    {
        self.number() % 8
    }

    pub fn is_callee_saved(&self) -> (b: bool)
        ensures
            b == callee_saved(*self),
    {
        match self {
            Register::Rbx
            | Register::Rsi
            | Register::Rbp
            | Register::R12
            | Register::R13
            | Register::R14
            | Register::R15 => true,
            _ => false,
        }
    }

    /// The assembler name of the register.
    pub open spec fn name(self) -> Seq<char> {
        match self {
            Register::Rax => "rax"@,
            Register::Rcx => "rcx"@,
            Register::Rdx => "rdx"@,
            Register::Rbx => "rbx"@,
            Register::Rsp => "rsp"@,
            Register::Rbp => "rbp"@,
            Register::Rsi => "rsi"@,
            Register::Rdi => "rdi"@,
            Register::R8 => "r8"@,
            Register::R9 => "r9"@,
            Register::R10 => "r10"@,
            Register::R11 => "r11"@,
            Register::R12 => "r12"@,
            Register::R13 => "r13"@,
            Register::R14 => "r14"@,
            Register::R15 => "r15"@,
        }
    }

    pub fn as_str(&self) -> (s: &'static str)
        ensures
            s@ == self.name(),
    {
        match self {
            Register::Rax => "rax",
            Register::Rcx => "rcx",
            Register::Rdx => "rdx",
            Register::Rbx => "rbx",
            Register::Rsp => "rsp",
            Register::Rbp => "rbp",
            Register::Rsi => "rsi",
            Register::Rdi => "rdi",
            Register::R8 => "r8",
            Register::R9 => "r9",
            Register::R10 => "r10",
            Register::R11 => "r11",
            Register::R12 => "r12",
            Register::R13 => "r13",
            Register::R14 => "r14",
            Register::R15 => "r15",
        }
    }
}

/// Every register is the one its own number names.
pub proof fn lemma_register_of_num(reg: Register)
    ensures
        register_of(reg.num()) == reg,
        0 <= reg.num() < 16,
{
}

} // verus!
