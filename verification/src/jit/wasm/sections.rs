//! The sections of a WebAssembly module.

use crate::jit::wasm::leb128::{sleb128, write_i32};
use vstd::prelude::*;

verus! {

/// A 32-bit number read as a signed one.
pub open spec fn as_i32(n: u32) -> int {
    if n >= 0x8000_0000 {
        n - 0x1_0000_0000
    } else {
        n as int
    }
}

/// The bytes of a section: its id, the length of what follows, the number of
/// its entries and its content, the two numbers in signed LEB128.
pub open spec fn section_bytes(id: u8, cont: u32, buffer: Seq<u8>) -> Seq<u8> {
    seq![id] + sleb128((buffer.len() + sleb128(as_i32(cont)).len()) as int) + sleb128(
        as_i32(cont),
    ) + buffer
}

/// A 32-bit number as a signed one, as a cast gives it.
pub fn to_i32(n: u32) -> (r: i32)
    ensures
        r == as_i32(n),
{
    proof {
        assert(n as i32 == (if n >= 0x8000_0000u32 {
            n - 0x1_0000_0000
        } else {
            n as int
        })) by (bit_vector);
    }
    n as i32
}

/// A section of a module under construction: the number of its entries and
/// their bytes.
pub trait WasmSection: Sized {
    /// The number of entries.
    spec fn number(&self) -> u32;

    /// The bytes of the entries.
    spec fn content(&self) -> Seq<u8>;

    /// The id of the kind of section.
    spec fn kind() -> u8;

    fn new(n: u32) -> (s: Self)
        ensures
            s.number() == n,
            s.content() == Seq::<u8>::empty(),
    ;

    fn id() -> (i: u8)
        ensures
            i == Self::kind(),
    ;

    fn buffer(&self) -> (b: &Vec<u8>)
        ensures
            b@ == self.content(),
    ;

    fn cont(&self) -> (n: u32)
        ensures
            n == self.number(),
    ;

    /// The bytes of the finished section, unless it is longer than the
    /// format can say.
    fn build(self) -> (r: Option<Vec<u8>>)
        ensures
            match r {
                Some(bytes) => bytes@ == section_bytes(
                    Self::kind(),
                    self.number(),
                    self.content(),
                ) && self.content().len() + sleb128(as_i32(self.number())).len() <= i32::MAX,
                None => self.content().len() + sleb128(as_i32(self.number())).len() > i32::MAX,
            },
    {
        let mut cont_section: Vec<u8> = Vec::new();
        let cont_len = write_i32(&mut cont_section, to_i32(self.cont()));
        let buffer = self.buffer();
        if cont_len > (i32::MAX as usize) || buffer.len() > (i32::MAX as usize) - cont_len {
            return None;
        }
        let block_len = buffer.len() + cont_len;
        let mut final_block: Vec<u8> = Vec::new();
        final_block.push(Self::id());
        write_i32(&mut final_block, block_len as i32);
        final_block.extend_from_slice(cont_section.as_slice());
        final_block.extend_from_slice(buffer.as_slice());
        proof {
            assert(cont_section@ =~= sleb128(as_i32(self.number())));
            assert(final_block@ =~= section_bytes(Self::kind(), self.number(), self.content()));
        }
        Some(final_block)
    }
}

pub struct TypeSection {
    cont: u32,
    block: Vec<u8>,
}

impl WasmSection for TypeSection {
    closed spec fn number(&self) -> u32 {
        self.cont
    }

    closed spec fn content(&self) -> Seq<u8> {
        self.block@
    }

    open spec fn kind() -> u8 {
        1
    }

    fn new(n: u32) -> (s: Self) {
        Self { cont: n, block: Vec::new() }
    }

    fn id() -> (i: u8) {
        1
    }

    fn cont(&self) -> (n: u32) {
        self.cont
    }

    fn buffer(&self) -> (b: &Vec<u8>) {
        &self.block
    }
}

impl TypeSection {
    /// Appends raw bytes to the content of the section.
    pub fn extend(&mut self, bytes: &[u8])
        ensures
            final(self).content() == old(self).content() + bytes@,
            final(self).number() == old(self).number(),
    {
        self.block.extend_from_slice(bytes);
    }
}

pub struct ImportSection {
    cont: u32,
    block: Vec<u8>,
}

impl WasmSection for ImportSection {
    closed spec fn number(&self) -> u32 {
        self.cont
    }

    closed spec fn content(&self) -> Seq<u8> {
        self.block@
    }

    open spec fn kind() -> u8 {
        2
    }

    fn new(n: u32) -> (s: Self) {
        Self { cont: n, block: Vec::new() }
    }

    fn id() -> (i: u8) {
        2
    }

    fn cont(&self) -> (n: u32) {
        self.cont
    }

    fn buffer(&self) -> (b: &Vec<u8>) {
        &self.block
    }
}

impl ImportSection {
    /// Appends raw bytes to the content of the section.
    pub fn extend(&mut self, bytes: &[u8])
        ensures
            final(self).content() == old(self).content() + bytes@,
            final(self).number() == old(self).number(),
    {
        self.block.extend_from_slice(bytes);
    }
}

pub struct FunctionSection {
    cont: u32,
    block: Vec<u8>,
}

impl WasmSection for FunctionSection {
    closed spec fn number(&self) -> u32 {
        self.cont
    }

    closed spec fn content(&self) -> Seq<u8> {
        self.block@
    }

    open spec fn kind() -> u8 {
        3
    }

    fn new(n: u32) -> (s: Self) {
        Self { cont: n, block: Vec::new() }
    }

    fn id() -> (i: u8) {
        3
    }

    fn cont(&self) -> (n: u32) {
        self.cont
    }

    fn buffer(&self) -> (b: &Vec<u8>) {
        &self.block
    }
}

impl FunctionSection {
    /// Appends raw bytes to the content of the section.
    pub fn extend(&mut self, bytes: &[u8])
        ensures
            final(self).content() == old(self).content() + bytes@,
            final(self).number() == old(self).number(),
    {
        self.block.extend_from_slice(bytes);
    }
}

pub struct GlobalSection {
    cont: u32,
    block: Vec<u8>,
}

impl WasmSection for GlobalSection {
    closed spec fn number(&self) -> u32 {
        self.cont
    }

    closed spec fn content(&self) -> Seq<u8> {
        self.block@
    }

    open spec fn kind() -> u8 {
        6
    }

    fn new(n: u32) -> (s: Self) {
        Self { cont: n, block: Vec::new() }
    }

    fn id() -> (i: u8) {
        6
    }

    fn cont(&self) -> (n: u32) {
        self.cont
    }

    fn buffer(&self) -> (b: &Vec<u8>) {
        &self.block
    }
}

impl GlobalSection {
    /// Appends raw bytes to the content of the section.
    pub fn extend(&mut self, bytes: &[u8])
        ensures
            final(self).content() == old(self).content() + bytes@,
            final(self).number() == old(self).number(),
    {
        self.block.extend_from_slice(bytes);
    }
}

pub struct ExportSection {
    cont: u32,
    block: Vec<u8>,
}

impl WasmSection for ExportSection {
    closed spec fn number(&self) -> u32 {
        self.cont
    }

    closed spec fn content(&self) -> Seq<u8> {
        self.block@
    }

    open spec fn kind() -> u8 {
        7
    }

    fn new(n: u32) -> (s: Self) {
        Self { cont: n, block: Vec::new() }
    }

    fn id() -> (i: u8) {
        7
    }

    fn cont(&self) -> (n: u32) {
        self.cont
    }

    fn buffer(&self) -> (b: &Vec<u8>) {
        &self.block
    }
}

impl ExportSection {
    /// Appends raw bytes to the content of the section.
    pub fn extend(&mut self, bytes: &[u8])
        ensures
            final(self).content() == old(self).content() + bytes@,
            final(self).number() == old(self).number(),
    {
        self.block.extend_from_slice(bytes);
    }
}

pub struct CodeSection {
    cont: u32,
    block: Vec<u8>,
}

impl WasmSection for CodeSection {
    closed spec fn number(&self) -> u32 {
        self.cont
    }

    closed spec fn content(&self) -> Seq<u8> {
        self.block@
    }

    open spec fn kind() -> u8 {
        10
    }

    fn new(n: u32) -> (s: Self) {
        Self { cont: n, block: Vec::new() }
    }

    fn id() -> (i: u8) {
        10
    }

    fn cont(&self) -> (n: u32) {
        self.cont
    }

    fn buffer(&self) -> (b: &Vec<u8>) {
        &self.block
    }
}

impl CodeSection {
    /// Appends raw bytes to the content of the section.
    pub fn extend(&mut self, bytes: &[u8])
        ensures
            final(self).content() == old(self).content() + bytes@,
            final(self).number() == old(self).number(),
    {
        self.block.extend_from_slice(bytes);
    }
}

impl CodeSection {
    /// Appends the body of a function, preceded by its length in signed
    /// LEB128. A body that is longer than the format can say is not
    /// appended; the result tells whether it was.
    pub fn push_function(&mut self, bytes: &[u8]) -> (done: bool)
        ensures
            final(self).number() == old(self).number(),
            done == (bytes@.len() <= i32::MAX),
            final(self).content() == if done {
                old(self).content() + sleb128(bytes@.len() as int) + bytes@
            } else {
                old(self).content()
            },
    {
        if bytes.len() > i32::MAX as usize {
            return false;
        }
        write_i32(&mut self.block, bytes.len() as i32);
        self.block.extend_from_slice(bytes);
        true
    }
}

} // verus!
