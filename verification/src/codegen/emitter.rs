//! The growing buffer of host bytes that instructions are encoded into.

use crate::codegen::encoding::{modrm_byte, rex_byte, ModRM, Rex};
use crate::endian::{le16, le32, le64, le_bytes_u16, le_bytes_u32, le_bytes_u64};
use vstd::prelude::*;

verus! {

/// A buffer of emitted machine code.
pub struct Emitter {
    pub buffer: Vec<u8>,
}

impl View for Emitter {
    type V = Seq<u8>;

    open spec fn view(&self) -> Seq<u8> {
        self.buffer@
    }
}

/// The low eight bits of `d`, as a displacement byte holds them.
pub open spec fn disp8(d: i32) -> u8 {
    (if d < 0 {
        d + 256
    } else {
        d as int
    }) as u8
}

/// The 32 bits of `d` in two's complement.
pub open spec fn disp32(d: i32) -> u32 {
    (if d < 0 {
        d + 0x1_0000_0000
    } else {
        d as int
    }) as u32
}

/// Whether a displacement fits in one signed byte.
pub open spec fn fits_i8(d: i32) -> bool {
    -128 <= d <= 127
}

/// A displacement in its shortest form: one byte where it fits, else four.
pub open spec fn disp_bytes(d: i32) -> Seq<u8> {
    if fits_i8(d) {
        seq![disp8(d)]
    } else {
        le32(disp32(d))
    }
}

/// The byte of a part that is one byte long, where the part is present.
pub open spec fn optional_byte(part: Option<u8>) -> Seq<u8> {
    match part {
        Some(b) => seq![b],
        None => seq![],
    }
}

/// The REX prefix, where there is one.
pub open spec fn rex_part(rex: Option<Rex>) -> Option<u8> {
    match rex {
        Some(r) => Some(rex_byte(r.0, r.1, r.2, r.3)),
        None => None,
    }
}

/// The ModR/M byte, where there is one.
pub open spec fn modrm_part(mod_rm: Option<ModRM>) -> Option<u8> {
    match mod_rm {
        Some(m) => Some(modrm_byte(m.0, m.1, m.2)),
        None => None,
    }
}

/// The displacement, where there is one, in its shortest form.
pub open spec fn disp_part(disp: Option<i32>) -> Seq<u8> {
    match disp {
        Some(d) => disp_bytes(d),
        None => seq![],
    }
}

/// The 32-bit immediate, where there is one.
pub open spec fn imm_part(imm: Option<u32>) -> Seq<u8> {
    match imm {
        Some(i) => le32(i),
        None => seq![],
    }
}

/// The bytes of one instruction given by its parts, each part present or not:
/// REX prefix, opcode, ModR/M, SIB, displacement, immediate.
pub open spec fn instruction_bytes(
    rex: Option<Rex>,
    opcode: u8,
    mod_rm: Option<ModRM>,
    sib: Option<u8>,
    disp: Option<i32>,
    imm: Option<u32>,
) -> Seq<u8> {
    optional_byte(rex_part(rex)) + seq![opcode] + optional_byte(modrm_part(mod_rm)) + optional_byte(
        sib,
    ) + disp_part(disp) + imm_part(imm)
}

/// The two's complement bits of a displacement, as executable casts give them.
pub proof fn lemma_disp_casts(d: i32)
    ensures
        d as u32 == disp32(d),
        fits_i8(d) ==> d as u8 == disp8(d),
{
    assert(d as u32 == (if d < 0 {
        d + 0x1_0000_0000
    } else {
        d as int
    }) as u32) by (bit_vector);
    if fits_i8(d) {
        assert(d as u8 == (if d < 0 {
            d + 256
        } else {
            d as int
        }) as u8) by (bit_vector)
            requires
                -128 <= d <= 127,
        ;
    }
}

/// Appends one byte.
pub fn push_byte(buf: &mut Vec<u8>, byte: u8)
    ensures
        final(buf)@ == old(buf)@ + seq![byte],
{
    buf.push(byte);
    assert(buf@ =~= old(buf)@ + seq![byte]);
}

/// Appends the two bytes of `word`, least significant first.
pub fn push_word(buf: &mut Vec<u8>, word: u16)
    ensures
        final(buf)@ == old(buf)@ + le16(word),
{
    let b = le_bytes_u16(word);
    buf.extend_from_slice(b.as_slice());
}

/// Appends the four bytes of `dword`, least significant first.
pub fn push_dword(buf: &mut Vec<u8>, dword: u32)
    ensures
        final(buf)@ == old(buf)@ + le32(dword),
{
    let b = le_bytes_u32(dword);
    buf.extend_from_slice(b.as_slice());
}

/// Appends the eight bytes of `qword`, least significant first.
pub fn push_qword(buf: &mut Vec<u8>, qword: u64)
    ensures
        final(buf)@ == old(buf)@ + le64(qword),
{
    let b = le_bytes_u64(qword);
    buf.extend_from_slice(b.as_slice());
}

impl Emitter {
    pub fn new() -> (e: Emitter)
        ensures
            e@ == Seq::<u8>::empty(),
    {
        Emitter { buffer: Vec::new() }
    }

    pub fn as_slice(&self) -> (s: &[u8])
        ensures
            s@ == self@,
    {
        self.buffer.as_slice()
    }

    /// Hands the emitted bytes over.
    pub fn into_bytes(self) -> (v: Vec<u8>)
        ensures
            v@ == self@,
    {
        self.buffer
    }

    pub fn len(&self) -> (n: usize)
        ensures
            n == self@.len(),
    {
        self.buffer.len()
    }

    pub fn emit_raw(&mut self, raw_bytes: &[u8])
        ensures
            final(self)@ == old(self)@ + raw_bytes@,
    {
        self.buffer.extend_from_slice(raw_bytes);
    }

    pub fn emit_byte(&mut self, byte: u8)
        ensures
            final(self)@ == old(self)@ + seq![byte],
    {
        push_byte(&mut self.buffer, byte);
    }

    pub fn emit_word(&mut self, word: u16)
        ensures
            final(self)@ == old(self)@ + le16(word),
    {
        push_word(&mut self.buffer, word);
    }

    pub fn emit_dword(&mut self, dword: u32)
        ensures
            final(self)@ == old(self)@ + le32(dword),
    {
        push_dword(&mut self.buffer, dword);
    }

    pub fn emit_qword(&mut self, qword: u64)
        ensures
            final(self)@ == old(self)@ + le64(qword),
    {
        push_qword(&mut self.buffer, qword);
    }

    /// Emits a displacement in its shortest form.
    pub fn emit_disp(&mut self, disp: i32)
        ensures
            final(self)@ == old(self)@ + disp_bytes(disp),
    {
        proof {
            lemma_disp_casts(disp);
        }
        if disp >= -128 && disp <= 127 {
            self.emit_byte(disp as u8);
        } else {
            self.emit_dword(disp as u32);
        }
    }

    /// Emits a part that is one byte long, where the part is present.
    fn emit_optional_byte(&mut self, part: Option<u8>)
        ensures
            final(self)@ == old(self)@ + optional_byte(part),
    {
        if let Some(b) = part {
            self.emit_byte(b);
        }
        assert(self@ =~= old(self)@ + optional_byte(part));
    }

    /// Emits a displacement, where there is one.
    fn emit_optional_disp(&mut self, disp: Option<i32>)
        ensures
            final(self)@ == old(self)@ + disp_part(disp),
    {
        if let Some(d) = disp {
            self.emit_disp(d);
        }
        assert(self@ =~= old(self)@ + disp_part(disp));
    }

    /// Emits a 32-bit immediate, where there is one.
    fn emit_optional_imm(&mut self, imm: Option<u32>)
        ensures
            final(self)@ == old(self)@ + imm_part(imm),
    {
        if let Some(i) = imm {
            self.emit_dword(i);
        }
        assert(self@ =~= old(self)@ + imm_part(imm));
    }

    pub fn encode_instruction(
        &mut self,
        rex: Option<Rex>,
        opcode: u8,
        mod_rm: Option<ModRM>,
        sib: Option<u8>,
        disp: Option<i32>,
        imm: Option<u32>,
    )
        ensures
            final(self)@ == old(self)@ + instruction_bytes(rex, opcode, mod_rm, sib, disp, imm),
    {
        let rex_value = match rex {
            Some(r) => Some(r.value()),
            None => None,
        };
        let modrm_value = match mod_rm {
            Some(m) => Some(m.value()),
            None => None,
        };
        self.emit_optional_byte(rex_value);
        self.emit_byte(opcode);
        self.emit_optional_byte(modrm_value);
        self.emit_optional_byte(sib);
        self.emit_optional_disp(disp);
        self.emit_optional_imm(imm);
        assert(self@ =~= old(self)@ + instruction_bytes(rex, opcode, mod_rm, sib, disp, imm));
    }
}

impl Default for Emitter {
    fn default() -> (e: Emitter)
        ensures
            e@ == Seq::<u8>::empty(),
    {
        Emitter::new()
    }
}

} // verus!
