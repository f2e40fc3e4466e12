//! The two bit-packed bytes that steer operand decoding: ModR/M and REX.

use vstd::prelude::*;

verus! {

/// The fields of a ModR/M byte: addressing mode, register and register/memory
/// operand. Only the low bits of each field are encoded.
#[derive(Debug, Clone, Copy, PartialEq, Eq)]
pub struct ModRM(pub u8, pub u8, pub u8);

/// The byte `mm rrr bbb` that holds the low 2, 3 and 3 bits of the fields.
pub open spec fn modrm_byte(md: u8, reg: u8, rm: u8) -> u8 {
    ((md % 4) * 64 + (reg % 8) * 8 + (rm % 8)) as u8
}

/// The byte `0100 wrxb`.
pub open spec fn rex_byte(w: bool, r: bool, x: bool, b: bool) -> u8 {
    (0x40 + (if w { 8int } else { 0 }) + (if r { 4int } else { 0 }) + (if x { 2int } else { 0 })
        + (if b { 1int } else { 0 })) as u8
}

/// How shifts and masks pack a ModR/M byte.
pub proof fn lemma_modrm_bits(md: u8, reg: u8, rm: u8)
    ensures
        md & 3 == md % 4,
        reg & 7 == reg % 8,
        rm & 7 == rm % 8,
        (((md & 3) << 6) | ((reg & 7) << 3) | (rm & 7)) == modrm_byte(md, reg, rm),
{
    assert(md & 3 == md % 4) by (bit_vector);
    assert(reg & 7 == reg % 8) by (bit_vector);
    assert(rm & 7 == rm % 8) by (bit_vector);
    assert((((md & 3) << 6) | ((reg & 7) << 3) | (rm & 7)) == (((md % 4) * 64 + (reg % 8) * 8 + (rm
        % 8)) as u8)) by (bit_vector);
}

impl ModRM {
    pub fn md(&self) -> (r: u8)
        ensures
            r == self.0 % 4,
    {
        proof {
            lemma_modrm_bits(self.0, self.1, self.2);
        }
        self.0 & 0b11
    }

    pub fn reg(&self) -> (r: u8)
        ensures
            r == self.1 % 8,
    {
        proof {
            lemma_modrm_bits(self.0, self.1, self.2);
        }
        self.1 & 0b111
    }

    pub fn rm(&self) -> (r: u8)
        ensures
            r == self.2 % 8,
    {
        proof {
            lemma_modrm_bits(self.0, self.1, self.2);
        }
        self.2 & 0b111
    }

    pub fn value(&self) -> (r: u8)
        ensures
            r == modrm_byte(self.0, self.1, self.2),
    {
        proof {
            lemma_modrm_bits(self.0, self.1, self.2);
        }
        (self.md() << 6) | (self.reg() << 3) | self.rm()
    }
}

/// The four flags of a REX prefix: 64-bit operand size and the extension bits
/// of the ModR/M register, SIB index and ModR/M base fields.
#[derive(Debug, Clone, Copy, PartialEq, Eq)]
pub struct Rex(pub bool, pub bool, pub bool, pub bool);

/// How shifts pack a REX prefix.
pub proof fn lemma_rex_bits(w: u8, r: u8, x: u8, b: u8)
    requires
        w <= 1,
        r <= 1,
        x <= 1,
        b <= 1,
    ensures
        ((0b0100u8 << 4) | (w << 3) | (r << 2) | (x << 1) | b) == 0x40 + 8 * w + 4 * r + 2 * x + b,
{
    assert(((0b0100u8 << 4) | (w << 3) | (r << 2) | (x << 1) | b) == 0x40 + 8 * w + 4 * r + 2 * x
        + b) by (bit_vector)
        requires
            w <= 1,
            r <= 1,
            x <= 1,
            b <= 1,
    ;
}

impl Rex {
    pub fn w(&self) -> (r: u8)
        ensures
            r == if self.0 { 1u8 } else { 0u8 },
    {
        if self.0 {
            1
        } else {
            0
        }
    }

    pub fn r(&self) -> (r: u8)
        ensures
            r == if self.1 { 1u8 } else { 0u8 },
    {
        if self.1 {
            1
        } else {
            0
        }
    }

    pub fn x(&self) -> (r: u8)
        ensures
            r == if self.2 { 1u8 } else { 0u8 },
    {
        if self.2 {
            1
        } else {
            0
        }
    }

    pub fn b(&self) -> (r: u8)
        ensures
            r == if self.3 { 1u8 } else { 0u8 },
    {
        if self.3 {
            1
        } else {
            0
        }
    }

    pub fn value(&self) -> (r: u8)
        ensures
            r == rex_byte(self.0, self.1, self.2, self.3),
    {
        let w = self.w();
        let r = self.r();
        let x = self.x();
        let b = self.b();
        proof {
            lemma_rex_bits(w, r, x, b);
        }
        (0b0100 << 4) | (w << 3) | (r << 2) | (x << 1) | b
    }
}

} // verus!
