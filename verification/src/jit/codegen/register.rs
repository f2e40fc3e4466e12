//! The host's general purpose registers, as the translator names them.

use crate::codegen::register::Register;
use vstd::prelude::*;

verus! {

/// A 64-bit general purpose register of the host.
#[derive(Clone, Copy, PartialEq, Eq, Structural, Debug, Hash)]
pub enum X64Gpr {
    Rax,
    Rbx,
    Rcx,
    Rdx,
    Rsi,
    Rdi,
    Rsp,
    Rbp,
    R8,
    R9,
    R10,
    R11,
    R12,
    R13,
    R14,
    R15,
}

impl X64Gpr {
    /// The same register, as the encoder names it.
    pub open spec fn register(self) -> Register {
        match self {
            X64Gpr::Rax => Register::Rax,
            X64Gpr::Rbx => Register::Rbx,
            X64Gpr::Rcx => Register::Rcx,
            X64Gpr::Rdx => Register::Rdx,
            X64Gpr::Rsi => Register::Rsi,
            X64Gpr::Rdi => Register::Rdi,
            X64Gpr::Rsp => Register::Rsp,
            X64Gpr::Rbp => Register::Rbp,
            X64Gpr::R8 => Register::R8,
            X64Gpr::R9 => Register::R9,
            X64Gpr::R10 => Register::R10,
            X64Gpr::R11 => Register::R11,
            X64Gpr::R12 => Register::R12,
            X64Gpr::R13 => Register::R13,
            X64Gpr::R14 => Register::R14,
            X64Gpr::R15 => Register::R15,
        }
    }

    /// The hardware number of the register.
    pub open spec fn num(self) -> int {
        self.register().num()
    }

    pub fn to_register(&self) -> (r: Register)
        ensures
            r == self.register(),
    {
        match self {
            X64Gpr::Rax => Register::Rax,
            X64Gpr::Rbx => Register::Rbx,
            X64Gpr::Rcx => Register::Rcx,
            X64Gpr::Rdx => Register::Rdx,
            X64Gpr::Rsi => Register::Rsi,
            X64Gpr::Rdi => Register::Rdi,
            X64Gpr::Rsp => Register::Rsp,
            X64Gpr::Rbp => Register::Rbp,
            X64Gpr::R8 => Register::R8,
            X64Gpr::R9 => Register::R9,
            X64Gpr::R10 => Register::R10,
            X64Gpr::R11 => Register::R11,
            X64Gpr::R12 => Register::R12,
            X64Gpr::R13 => Register::R13,
            X64Gpr::R14 => Register::R14,
            X64Gpr::R15 => Register::R15,
        }
    }

    pub fn number(&self) -> (n: u8)
        ensures
            n == self.num(),
            n < 16,
    {
        self.to_register().number()
    }

    /// The register with the given hardware number, or the number back where
    /// no register has it.
    pub fn try_from_primitive(n: u8) -> (r: Result<X64Gpr, u8>)
        ensures
            n < 16 ==> r is Ok && r->Ok_0.num() == n,
            n >= 16 ==> r == Err::<X64Gpr, u8>(n),
    {
        match n {
            0 => Ok(X64Gpr::Rax),
            1 => Ok(X64Gpr::Rcx),
            2 => Ok(X64Gpr::Rdx),
            3 => Ok(X64Gpr::Rbx),
            4 => Ok(X64Gpr::Rsp),
            5 => Ok(X64Gpr::Rbp),
            6 => Ok(X64Gpr::Rsi),
            7 => Ok(X64Gpr::Rdi),
            8 => Ok(X64Gpr::R8),
            9 => Ok(X64Gpr::R9),
            10 => Ok(X64Gpr::R10),
            11 => Ok(X64Gpr::R11),
            12 => Ok(X64Gpr::R12),
            13 => Ok(X64Gpr::R13),
            14 => Ok(X64Gpr::R14),
            15 => Ok(X64Gpr::R15),
            _ => Err(n),
        }
    }

    /// Whether the register is one of `rsi`, `rdi`, `rsp`, `rbp`.
    pub open spec fn reserved(self) -> bool {
        self == X64Gpr::Rsi || self == X64Gpr::Rdi || self == X64Gpr::Rsp || self == X64Gpr::Rbp
    }

    pub fn is_reserved(&self) -> (b: bool)
        ensures
            b == self.reserved(),
    {
        match self {
            X64Gpr::Rsi | X64Gpr::Rdi | X64Gpr::Rsp | X64Gpr::Rbp => true,
            _ => false,
        }
    }
}

/// Two names are the same register exactly when their numbers agree.
pub proof fn lemma_gpr_number_injective(a: X64Gpr, b: X64Gpr)
    ensures
        a.num() == b.num() <==> a == b,
        a.register() == b.register() <==> a == b,
{
}

} // verus!
