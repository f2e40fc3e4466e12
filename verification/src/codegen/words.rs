//! The words of the instruction language: the mnemonics, the names of the
//! registers and the keyword `ref`.

use crate::codegen::register::Register;
use vstd::prelude::*;

verus! {

/// The mnemonics of the instruction language.
#[derive(Debug, Clone, Copy, PartialEq, Eq, Structural)]
pub enum Mnemonic {
    Mov,
    Movabs,
    Push,
    Pop,
    Add,
    Or,
    Sub,
    Xor,
    Call,
    CallFn,
    Ret,
}

impl Mnemonic {
    /// The word that stands for the mnemonic.
    pub open spec fn word(self) -> Seq<u8> {
        match self {
            Mnemonic::Mov => seq![0x6du8, 0x6fu8, 0x76u8],
            Mnemonic::Movabs => seq![0x6du8, 0x6fu8, 0x76u8, 0x61u8, 0x62u8, 0x73u8],
            Mnemonic::Push => seq![0x70u8, 0x75u8, 0x73u8, 0x68u8],
            Mnemonic::Pop => seq![0x70u8, 0x6fu8, 0x70u8],
            Mnemonic::Add => seq![0x61u8, 0x64u8, 0x64u8],
            Mnemonic::Or => seq![0x6fu8, 0x72u8],
            Mnemonic::Sub => seq![0x73u8, 0x75u8, 0x62u8],
            Mnemonic::Xor => seq![0x78u8, 0x6fu8, 0x72u8],
            Mnemonic::Call => seq![0x63u8, 0x61u8, 0x6cu8, 0x6cu8],
            Mnemonic::CallFn => seq![0x63u8, 0x61u8, 0x6cu8, 0x6cu8, 0x5fu8, 0x66u8, 0x6eu8],
            Mnemonic::Ret => seq![0x72u8, 0x65u8, 0x74u8],
        }
    }
}

/// The mnemonic that a word stands for.
pub open spec fn mnemonic_of(word: Seq<u8>) -> Option<Mnemonic> {
    if word == Mnemonic::Mov.word() {
        Some(Mnemonic::Mov)
    } else if word == Mnemonic::Movabs.word() {
        Some(Mnemonic::Movabs)
    } else if word == Mnemonic::Push.word() {
        Some(Mnemonic::Push)
    } else if word == Mnemonic::Pop.word() {
        Some(Mnemonic::Pop)
    } else if word == Mnemonic::Add.word() {
        Some(Mnemonic::Add)
    } else if word == Mnemonic::Or.word() {
        Some(Mnemonic::Or)
    } else if word == Mnemonic::Sub.word() {
        Some(Mnemonic::Sub)
    } else if word == Mnemonic::Xor.word() {
        Some(Mnemonic::Xor)
    } else if word == Mnemonic::Call.word() {
        Some(Mnemonic::Call)
    } else if word == Mnemonic::CallFn.word() {
        Some(Mnemonic::CallFn)
    } else if word == Mnemonic::Ret.word() {
        Some(Mnemonic::Ret)
    } else {
        None
    }
}

/// The name of a register, in bytes.
pub open spec fn register_word(reg: Register) -> Seq<u8> {
    match reg {
        Register::Rax => seq![0x72u8, 0x61u8, 0x78u8],
        Register::Rcx => seq![0x72u8, 0x63u8, 0x78u8],
        Register::Rdx => seq![0x72u8, 0x64u8, 0x78u8],
        Register::Rbx => seq![0x72u8, 0x62u8, 0x78u8],
        Register::Rsp => seq![0x72u8, 0x73u8, 0x70u8],
        Register::Rbp => seq![0x72u8, 0x62u8, 0x70u8],
        Register::Rsi => seq![0x72u8, 0x73u8, 0x69u8],
        Register::Rdi => seq![0x72u8, 0x64u8, 0x69u8],
        Register::R8 => seq![0x72u8, 0x38u8],
        Register::R9 => seq![0x72u8, 0x39u8],
        Register::R10 => seq![0x72u8, 0x31u8, 0x30u8],
        Register::R11 => seq![0x72u8, 0x31u8, 0x31u8],
        Register::R12 => seq![0x72u8, 0x31u8, 0x32u8],
        Register::R13 => seq![0x72u8, 0x31u8, 0x33u8],
        Register::R14 => seq![0x72u8, 0x31u8, 0x34u8],
        Register::R15 => seq![0x72u8, 0x31u8, 0x35u8],
    }
}

/// The register that a word names.
pub open spec fn register_of_word(word: Seq<u8>) -> Option<Register> {
    if word == register_word(Register::Rax) {
        Some(Register::Rax)
    } else if word == register_word(Register::Rcx) {
        Some(Register::Rcx)
    } else if word == register_word(Register::Rdx) {
        Some(Register::Rdx)
    } else if word == register_word(Register::Rbx) {
        Some(Register::Rbx)
    } else if word == register_word(Register::Rsp) {
        Some(Register::Rsp)
    } else if word == register_word(Register::Rbp) {
        Some(Register::Rbp)
    } else if word == register_word(Register::Rsi) {
        Some(Register::Rsi)
    } else if word == register_word(Register::Rdi) {
        Some(Register::Rdi)
    } else if word == register_word(Register::R8) {
        Some(Register::R8)
    } else if word == register_word(Register::R9) {
        Some(Register::R9)
    } else if word == register_word(Register::R10) {
        Some(Register::R10)
    } else if word == register_word(Register::R11) {
        Some(Register::R11)
    } else if word == register_word(Register::R12) {
        Some(Register::R12)
    } else if word == register_word(Register::R13) {
        Some(Register::R13)
    } else if word == register_word(Register::R14) {
        Some(Register::R14)
    } else if word == register_word(Register::R15) {
        Some(Register::R15)
    } else {
        None
    }
}

/// The keyword `ref`.
pub open spec fn ref_word() -> Seq<u8> {
    seq![0x72u8, 0x65u8, 0x66u8]
}

/// Tells whether the bytes of `input` from `start` up to `end` are `word`.
pub fn word_is(input: &[u8], start: usize, end: usize, word: &[u8]) -> (b: bool)
    requires
        start <= end <= input@.len(),
    ensures
        b == (input@.subrange(start as int, end as int) == word@),
{
    if end - start != word.len() {
        return false;
    }
    let mut i: usize = 0;
    while i < word.len()
        invariant
            i <= word@.len(),
            start <= end <= input@.len(),
            end - start == word@.len(),
            forall|j: int| 0 <= j < i ==> input@[start + j] == word@[j],
        decreases word@.len() - i,
    {
        if input[start + i] != word[i] {
            proof {
                assert(input@.subrange(start as int, end as int)[i as int] == input@[start + i]);
            }
            return false;
        }
        i = i + 1;
    }
    proof {
        assert(input@.subrange(start as int, end as int) =~= word@);
    }
    true
}

/// The mnemonic that the bytes of `input` from `start` up to `end` stand
/// for.
pub fn mnemonic_at(input: &[u8], start: usize, end: usize) -> (r: Option<Mnemonic>)
    requires
        start <= end <= input@.len(),
    ensures
        r == mnemonic_of(input@.subrange(start as int, end as int)),
{
    let word = [0x6du8, 0x6fu8, 0x76u8];
    proof {
        assert(word@ =~= Mnemonic::Mov.word());
    }
    if word_is(input, start, end, word.as_slice()) {
        return Some(Mnemonic::Mov);
    }
    let word = [0x6du8, 0x6fu8, 0x76u8, 0x61u8, 0x62u8, 0x73u8];
    proof {
        assert(word@ =~= Mnemonic::Movabs.word());
    }
    if word_is(input, start, end, word.as_slice()) {
        return Some(Mnemonic::Movabs);
    }
    let word = [0x70u8, 0x75u8, 0x73u8, 0x68u8];
    proof {
        assert(word@ =~= Mnemonic::Push.word());
    }
    if word_is(input, start, end, word.as_slice()) {
        return Some(Mnemonic::Push);
    }
    let word = [0x70u8, 0x6fu8, 0x70u8];
    proof {
        assert(word@ =~= Mnemonic::Pop.word());
    }
    if word_is(input, start, end, word.as_slice()) {
        return Some(Mnemonic::Pop);
    }
    let word = [0x61u8, 0x64u8, 0x64u8];
    proof {
        assert(word@ =~= Mnemonic::Add.word());
    }
    if word_is(input, start, end, word.as_slice()) {
        return Some(Mnemonic::Add);
    }
    let word = [0x6fu8, 0x72u8];
    proof {
        assert(word@ =~= Mnemonic::Or.word());
    }
    if word_is(input, start, end, word.as_slice()) {
        return Some(Mnemonic::Or);
    }
    let word = [0x73u8, 0x75u8, 0x62u8];
    proof {
        assert(word@ =~= Mnemonic::Sub.word());
    }
    if word_is(input, start, end, word.as_slice()) {
        return Some(Mnemonic::Sub);
    }
    let word = [0x78u8, 0x6fu8, 0x72u8];
    proof {
        assert(word@ =~= Mnemonic::Xor.word());
    }
    if word_is(input, start, end, word.as_slice()) {
        return Some(Mnemonic::Xor);
    }
    let word = [0x63u8, 0x61u8, 0x6cu8, 0x6cu8];
    proof {
        assert(word@ =~= Mnemonic::Call.word());
    }
    if word_is(input, start, end, word.as_slice()) {
        return Some(Mnemonic::Call);
    }
    let word = [0x63u8, 0x61u8, 0x6cu8, 0x6cu8, 0x5fu8, 0x66u8, 0x6eu8];
    proof {
        assert(word@ =~= Mnemonic::CallFn.word());
    }
    if word_is(input, start, end, word.as_slice()) {
        return Some(Mnemonic::CallFn);
    }
    let word = [0x72u8, 0x65u8, 0x74u8];
    proof {
        assert(word@ =~= Mnemonic::Ret.word());
    }
    if word_is(input, start, end, word.as_slice()) {
        return Some(Mnemonic::Ret);
    }
    None
}

/// The register that the bytes of `input` from `start` up to `end` name.
pub fn register_at(input: &[u8], start: usize, end: usize) -> (r: Option<Register>)
    requires
        start <= end <= input@.len(),
    ensures
        r == register_of_word(input@.subrange(start as int, end as int)),
{
    let word = [0x72u8, 0x61u8, 0x78u8];
    proof {
        assert(word@ =~= register_word(Register::Rax));
    }
    if word_is(input, start, end, word.as_slice()) {
        return Some(Register::Rax);
    }
    let word = [0x72u8, 0x63u8, 0x78u8];
    proof {
        assert(word@ =~= register_word(Register::Rcx));
    }
    if word_is(input, start, end, word.as_slice()) {
        return Some(Register::Rcx);
    }
    let word = [0x72u8, 0x64u8, 0x78u8];
    proof {
        assert(word@ =~= register_word(Register::Rdx));
    }
    if word_is(input, start, end, word.as_slice()) {
        return Some(Register::Rdx);
    }
    let word = [0x72u8, 0x62u8, 0x78u8];
    proof {
        assert(word@ =~= register_word(Register::Rbx));
    }
    if word_is(input, start, end, word.as_slice()) {
        return Some(Register::Rbx);
    }
    let word = [0x72u8, 0x73u8, 0x70u8];
    proof {
        assert(word@ =~= register_word(Register::Rsp));
    }
    if word_is(input, start, end, word.as_slice()) {
        return Some(Register::Rsp);
    }
    let word = [0x72u8, 0x62u8, 0x70u8];
    proof {
        assert(word@ =~= register_word(Register::Rbp));
    }
    if word_is(input, start, end, word.as_slice()) {
        return Some(Register::Rbp);
    }
    let word = [0x72u8, 0x73u8, 0x69u8];
    proof {
        assert(word@ =~= register_word(Register::Rsi));
    }
    if word_is(input, start, end, word.as_slice()) {
        return Some(Register::Rsi);
    }
    let word = [0x72u8, 0x64u8, 0x69u8];
    proof {
        assert(word@ =~= register_word(Register::Rdi));
    }
    if word_is(input, start, end, word.as_slice()) {
        return Some(Register::Rdi);
    }
    let word = [0x72u8, 0x38u8];
    proof {
        assert(word@ =~= register_word(Register::R8));
    }
    if word_is(input, start, end, word.as_slice()) {
        return Some(Register::R8);
    }
    let word = [0x72u8, 0x39u8];
    proof {
        assert(word@ =~= register_word(Register::R9));
    }
    if word_is(input, start, end, word.as_slice()) {
        return Some(Register::R9);
    }
    let word = [0x72u8, 0x31u8, 0x30u8];
    proof {
        assert(word@ =~= register_word(Register::R10));
    }
    if word_is(input, start, end, word.as_slice()) {
        return Some(Register::R10);
    }
    let word = [0x72u8, 0x31u8, 0x31u8];
    proof {
        assert(word@ =~= register_word(Register::R11));
    }
    if word_is(input, start, end, word.as_slice()) {
        return Some(Register::R11);
    }
    let word = [0x72u8, 0x31u8, 0x32u8];
    proof {
        assert(word@ =~= register_word(Register::R12));
    }
    if word_is(input, start, end, word.as_slice()) {
        return Some(Register::R12);
    }
    let word = [0x72u8, 0x31u8, 0x33u8];
    proof {
        assert(word@ =~= register_word(Register::R13));
    }
    if word_is(input, start, end, word.as_slice()) {
        return Some(Register::R13);
    }
    let word = [0x72u8, 0x31u8, 0x34u8];
    proof {
        assert(word@ =~= register_word(Register::R14));
    }
    if word_is(input, start, end, word.as_slice()) {
        return Some(Register::R14);
    }
    let word = [0x72u8, 0x31u8, 0x35u8];
    proof {
        assert(word@ =~= register_word(Register::R15));
    }
    if word_is(input, start, end, word.as_slice()) {
        return Some(Register::R15);
    }
    None
}

/// Tells whether the bytes of `input` from `start` up to `end` are the
/// keyword `ref`.
pub fn is_ref(input: &[u8], start: usize, end: usize) -> (b: bool)
    requires
        start <= end <= input@.len(),
    ensures
        b == (input@.subrange(start as int, end as int) == ref_word()),
{
    let word = [0x72u8, 0x65u8, 0x66u8];
    proof {
        assert(word@ =~= ref_word());
    }
    word_is(input, start, end, word.as_slice())
}

/// Every register is the one that its name names.
pub proof fn lemma_register_words(reg: Register)
    ensures
        register_of_word(register_word(reg)) == Some(reg),
{
    assert(register_word(Register::Rcx)[1] != register_word(Register::Rax)[1]);
    assert(register_word(Register::Rdx)[1] != register_word(Register::Rax)[1]);
    assert(register_word(Register::Rdx)[1] != register_word(Register::Rcx)[1]);
    assert(register_word(Register::Rbx)[1] != register_word(Register::Rax)[1]);
    assert(register_word(Register::Rbx)[1] != register_word(Register::Rcx)[1]);
    assert(register_word(Register::Rbx)[1] != register_word(Register::Rdx)[1]);
    assert(register_word(Register::Rsp)[1] != register_word(Register::Rax)[1]);
    assert(register_word(Register::Rsp)[1] != register_word(Register::Rcx)[1]);
    assert(register_word(Register::Rsp)[1] != register_word(Register::Rdx)[1]);
    assert(register_word(Register::Rsp)[1] != register_word(Register::Rbx)[1]);
    assert(register_word(Register::Rbp)[1] != register_word(Register::Rax)[1]);
    assert(register_word(Register::Rbp)[1] != register_word(Register::Rcx)[1]);
    assert(register_word(Register::Rbp)[1] != register_word(Register::Rdx)[1]);
    assert(register_word(Register::Rbp)[2] != register_word(Register::Rbx)[2]);
    assert(register_word(Register::Rbp)[1] != register_word(Register::Rsp)[1]);
    assert(register_word(Register::Rsi)[1] != register_word(Register::Rax)[1]);
    assert(register_word(Register::Rsi)[1] != register_word(Register::Rcx)[1]);
    assert(register_word(Register::Rsi)[1] != register_word(Register::Rdx)[1]);
    assert(register_word(Register::Rsi)[1] != register_word(Register::Rbx)[1]);
    assert(register_word(Register::Rsi)[2] != register_word(Register::Rsp)[2]);
    assert(register_word(Register::Rsi)[1] != register_word(Register::Rbp)[1]);
    assert(register_word(Register::Rdi)[1] != register_word(Register::Rax)[1]);
    assert(register_word(Register::Rdi)[1] != register_word(Register::Rcx)[1]);
    assert(register_word(Register::Rdi)[2] != register_word(Register::Rdx)[2]);
    assert(register_word(Register::Rdi)[1] != register_word(Register::Rbx)[1]);
    assert(register_word(Register::Rdi)[1] != register_word(Register::Rsp)[1]);
    assert(register_word(Register::Rdi)[1] != register_word(Register::Rbp)[1]);
    assert(register_word(Register::Rdi)[1] != register_word(Register::Rsi)[1]);
    assert(register_word(Register::R8).len() != register_word(Register::Rax).len());
    assert(register_word(Register::R8).len() != register_word(Register::Rcx).len());
    assert(register_word(Register::R8).len() != register_word(Register::Rdx).len());
    assert(register_word(Register::R8).len() != register_word(Register::Rbx).len());
    assert(register_word(Register::R8).len() != register_word(Register::Rsp).len());
    assert(register_word(Register::R8).len() != register_word(Register::Rbp).len());
    assert(register_word(Register::R8).len() != register_word(Register::Rsi).len());
    assert(register_word(Register::R8).len() != register_word(Register::Rdi).len());
    assert(register_word(Register::R9).len() != register_word(Register::Rax).len());
    assert(register_word(Register::R9).len() != register_word(Register::Rcx).len());
    assert(register_word(Register::R9).len() != register_word(Register::Rdx).len());
    assert(register_word(Register::R9).len() != register_word(Register::Rbx).len());
    assert(register_word(Register::R9).len() != register_word(Register::Rsp).len());
    assert(register_word(Register::R9).len() != register_word(Register::Rbp).len());
    assert(register_word(Register::R9).len() != register_word(Register::Rsi).len());
    assert(register_word(Register::R9).len() != register_word(Register::Rdi).len());
    assert(register_word(Register::R9)[1] != register_word(Register::R8)[1]);
    assert(register_word(Register::R10)[1] != register_word(Register::Rax)[1]);
    assert(register_word(Register::R10)[1] != register_word(Register::Rcx)[1]);
    assert(register_word(Register::R10)[1] != register_word(Register::Rdx)[1]);
    assert(register_word(Register::R10)[1] != register_word(Register::Rbx)[1]);
    assert(register_word(Register::R10)[1] != register_word(Register::Rsp)[1]);
    assert(register_word(Register::R10)[1] != register_word(Register::Rbp)[1]);
    assert(register_word(Register::R10)[1] != register_word(Register::Rsi)[1]);
    assert(register_word(Register::R10)[1] != register_word(Register::Rdi)[1]);
    assert(register_word(Register::R10).len() != register_word(Register::R8).len());
    assert(register_word(Register::R10).len() != register_word(Register::R9).len());
    assert(register_word(Register::R11)[1] != register_word(Register::Rax)[1]);
    assert(register_word(Register::R11)[1] != register_word(Register::Rcx)[1]);
    assert(register_word(Register::R11)[1] != register_word(Register::Rdx)[1]);
    assert(register_word(Register::R11)[1] != register_word(Register::Rbx)[1]);
    assert(register_word(Register::R11)[1] != register_word(Register::Rsp)[1]);
    assert(register_word(Register::R11)[1] != register_word(Register::Rbp)[1]);
    assert(register_word(Register::R11)[1] != register_word(Register::Rsi)[1]);
    assert(register_word(Register::R11)[1] != register_word(Register::Rdi)[1]);
    assert(register_word(Register::R11).len() != register_word(Register::R8).len());
    assert(register_word(Register::R11).len() != register_word(Register::R9).len());
    assert(register_word(Register::R11)[2] != register_word(Register::R10)[2]);
    assert(register_word(Register::R12)[1] != register_word(Register::Rax)[1]);
    assert(register_word(Register::R12)[1] != register_word(Register::Rcx)[1]);
    assert(register_word(Register::R12)[1] != register_word(Register::Rdx)[1]);
    assert(register_word(Register::R12)[1] != register_word(Register::Rbx)[1]);
    assert(register_word(Register::R12)[1] != register_word(Register::Rsp)[1]);
    assert(register_word(Register::R12)[1] != register_word(Register::Rbp)[1]);
    assert(register_word(Register::R12)[1] != register_word(Register::Rsi)[1]);
    assert(register_word(Register::R12)[1] != register_word(Register::Rdi)[1]);
    assert(register_word(Register::R12).len() != register_word(Register::R8).len());
    assert(register_word(Register::R12).len() != register_word(Register::R9).len());
    assert(register_word(Register::R12)[2] != register_word(Register::R10)[2]);
    assert(register_word(Register::R12)[2] != register_word(Register::R11)[2]);
    assert(register_word(Register::R13)[1] != register_word(Register::Rax)[1]);
    assert(register_word(Register::R13)[1] != register_word(Register::Rcx)[1]);
    assert(register_word(Register::R13)[1] != register_word(Register::Rdx)[1]);
    assert(register_word(Register::R13)[1] != register_word(Register::Rbx)[1]);
    assert(register_word(Register::R13)[1] != register_word(Register::Rsp)[1]);
    assert(register_word(Register::R13)[1] != register_word(Register::Rbp)[1]);
    assert(register_word(Register::R13)[1] != register_word(Register::Rsi)[1]);
    assert(register_word(Register::R13)[1] != register_word(Register::Rdi)[1]);
    assert(register_word(Register::R13).len() != register_word(Register::R8).len());
    assert(register_word(Register::R13).len() != register_word(Register::R9).len());
    assert(register_word(Register::R13)[2] != register_word(Register::R10)[2]);
    assert(register_word(Register::R13)[2] != register_word(Register::R11)[2]);
    assert(register_word(Register::R13)[2] != register_word(Register::R12)[2]);
    assert(register_word(Register::R14)[1] != register_word(Register::Rax)[1]);
    assert(register_word(Register::R14)[1] != register_word(Register::Rcx)[1]);
    assert(register_word(Register::R14)[1] != register_word(Register::Rdx)[1]);
    assert(register_word(Register::R14)[1] != register_word(Register::Rbx)[1]);
    assert(register_word(Register::R14)[1] != register_word(Register::Rsp)[1]);
    assert(register_word(Register::R14)[1] != register_word(Register::Rbp)[1]);
    assert(register_word(Register::R14)[1] != register_word(Register::Rsi)[1]);
    assert(register_word(Register::R14)[1] != register_word(Register::Rdi)[1]);
    assert(register_word(Register::R14).len() != register_word(Register::R8).len());
    assert(register_word(Register::R14).len() != register_word(Register::R9).len());
    assert(register_word(Register::R14)[2] != register_word(Register::R10)[2]);
    assert(register_word(Register::R14)[2] != register_word(Register::R11)[2]);
    assert(register_word(Register::R14)[2] != register_word(Register::R12)[2]);
    assert(register_word(Register::R14)[2] != register_word(Register::R13)[2]);
    assert(register_word(Register::R15)[1] != register_word(Register::Rax)[1]);
    assert(register_word(Register::R15)[1] != register_word(Register::Rcx)[1]);
    assert(register_word(Register::R15)[1] != register_word(Register::Rdx)[1]);
    assert(register_word(Register::R15)[1] != register_word(Register::Rbx)[1]);
    assert(register_word(Register::R15)[1] != register_word(Register::Rsp)[1]);
    assert(register_word(Register::R15)[1] != register_word(Register::Rbp)[1]);
    assert(register_word(Register::R15)[1] != register_word(Register::Rsi)[1]);
    assert(register_word(Register::R15)[1] != register_word(Register::Rdi)[1]);
    assert(register_word(Register::R15).len() != register_word(Register::R8).len());
    assert(register_word(Register::R15).len() != register_word(Register::R9).len());
    assert(register_word(Register::R15)[2] != register_word(Register::R10)[2]);
    assert(register_word(Register::R15)[2] != register_word(Register::R11)[2]);
    assert(register_word(Register::R15)[2] != register_word(Register::R12)[2]);
    assert(register_word(Register::R15)[2] != register_word(Register::R13)[2]);
    assert(register_word(Register::R15)[2] != register_word(Register::R14)[2]);
}

} // verus!
