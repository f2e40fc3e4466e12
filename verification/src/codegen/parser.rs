//! The grammar of the instruction language, read from text.
//!
//! ```txt
//! program     = { instruction }
//! instruction = mnemonic operands ";"
//! immediate   = number | "$" name
//! register    = register-name | "%" name
//! memory      = "[" immediate "]" | "[" register [ ("+" | "-") immediate ] "]"
//! arguments   = "(" [ argument { "," argument } ] ")"
//! argument    = "ref" name | immediate | register
//! ```

use crate::codegen::register::Register;
use crate::codegen::assembler::EncodeError;
use crate::codegen::emitter::Emitter;
use crate::codegen::syntax::{
    emit_all, emitted_all, views, AddrDirect, AddrImmediate, AddrIndirect, AddrRegister,
    AddressingMode, Argument, Bindings, CallArgs, Ident, Instruction, InstructionView,
};
use crate::codegen::words::{
    is_ref, mnemonic_at, mnemonic_of, ref_word, register_at, register_of_word, Mnemonic,
};
use vstd::prelude::*;

verus! {

/// What the text lacks where it cannot be read.
#[derive(Debug, Clone, Copy, PartialEq, Eq, Structural)]
pub enum ParseErrorKind {
    ExpectedIdentifier,
    ExpectedImmediate,
    ExpectedRegister,
    ExpectedOperand,
    ExpectedComma,
    ExpectedSemicolon,
    ExpectedBracket,
    ExpectedParenthesis,
    InvalidRegister,
    InvalidNumber,
    UnknownInstruction,
}

/// Where the text cannot be read, and why.
#[derive(Debug, Clone, Copy, PartialEq, Eq, Structural)]
pub struct ParseError {
    pub kind: ParseErrorKind,
    pub at: usize,
}

pub const DOLLAR: u8 = 0x24;

pub const PERCENT: u8 = 0x25;

pub const LEFT_PARENTHESIS: u8 = 0x28;

pub const RIGHT_PARENTHESIS: u8 = 0x29;

pub const PLUS: u8 = 0x2b;

pub const COMMA: u8 = 0x2c;

pub const MINUS: u8 = 0x2d;

pub const SEMICOLON: u8 = 0x3b;

pub const LEFT_BRACKET: u8 = 0x5b;

pub const RIGHT_BRACKET: u8 = 0x5d;

pub const UNDERSCORE: u8 = 0x5f;

/// A blank, a tab or the end of a line.
pub open spec fn is_space(c: u8) -> bool {
    c == 0x20 || c == 0x09 || c == 0x0a || c == 0x0d
}

pub open spec fn is_digit(c: u8) -> bool {
    0x30 <= c <= 0x39
}

/// A letter or an underscore.
pub open spec fn is_ident_start(c: u8) -> bool {
    (0x41 <= c <= 0x5a) || (0x61 <= c <= 0x7a) || c == UNDERSCORE
}

/// A letter, a digit or an underscore.
pub open spec fn is_ident_continue(c: u8) -> bool {
    is_ident_start(c) || is_digit(c)
}

/// The error of the given kind at the given place.
pub open spec fn error_at(kind: ParseErrorKind, at: int) -> ParseError {
    ParseError { kind, at: at as usize }
}

/// The first place from `i` on that holds no space.
pub open spec fn skip_space(s: Seq<u8>, i: int) -> int
    decreases s.len() - i,
{
    if 0 <= i < s.len() && is_space(s[i]) {
        skip_space(s, i + 1)
    } else {
        i
    }
}

/// The end of the word that starts at `i`: the first place from `i` on that
/// holds no letter, digit or underscore.
pub open spec fn word_end(s: Seq<u8>, i: int) -> int
    decreases s.len() - i,
{
    if 0 <= i < s.len() && is_ident_continue(s[i]) {
        word_end(s, i + 1)
    } else {
        i
    }
}

/// Whether the byte `c` stands at `i`.
pub open spec fn at(s: Seq<u8>, i: int, c: u8) -> bool {
    0 <= i < s.len() && s[i] == c
}

/// Whether a name starts at `i`.
pub open spec fn name_starts(s: Seq<u8>, i: int) -> bool {
    0 <= i < s.len() && is_ident_start(s[i])
}

/// Whether a number starts at `i`.
pub open spec fn number_starts(s: Seq<u8>, i: int) -> bool {
    0 <= i < s.len() && is_digit(s[i])
}

/// The value of a digit in a base, if it is a digit of the base.
pub open spec fn digit_value(c: u8, base: nat) -> Option<nat> {
    let v: int = if is_digit(c) {
        c - 0x30
    } else if 0x61 <= c <= 0x66 {
        c - 0x61 + 10
    } else if 0x41 <= c <= 0x46 {
        c - 0x41 + 10
    } else {
        16
    };
    if v < base {
        Some(v as nat)
    } else {
        None
    }
}

/// The value of the digits from `start` up to `end` in a base, underscores
/// between them left aside, together with the number of digits. There is
/// none where something else stands among them.
pub open spec fn digits_value(s: Seq<u8>, start: int, end: int, base: nat) -> Option<(nat, nat)>
    decreases end - start,
{
    if end <= start {
        Some((0, 0))
    } else {
        match digits_value(s, start, end - 1, base) {
            None => None,
            Some((v, n)) => if s[end - 1] == UNDERSCORE {
                Some((v, n))
            } else {
                match digit_value(s[end - 1], base) {
                    Some(d) => Some((v * base + d, n + 1)),
                    None => None,
                }
            },
        }
    }
}

/// The base that the prefix of the number at `i` announces, and where its
/// digits start.
pub open spec fn base_at(s: Seq<u8>, i: int) -> (nat, int) {
    if at(s, i, 0x30) && (at(s, i + 1, 0x78) || at(s, i + 1, 0x58)) {
        (16, i + 2)
    } else if at(s, i, 0x30) && at(s, i + 1, 0x6f) {
        (8, i + 2)
    } else if at(s, i, 0x30) && at(s, i + 1, 0x62) {
        (2, i + 2)
    } else {
        (10, i)
    }
}

/// The number that starts at `i`: decimal, or hexadecimal behind `0x`, octal
/// behind `0o`, binary behind `0b`, with underscores between the digits. It
/// has to fit in 64 bits.
pub open spec fn number_at(s: Seq<u8>, i: int) -> Result<(u64, int), ParseError> {
    let end = word_end(s, i);
    let (base, start) = base_at(s, i);
    match digits_value(s, start, end, base) {
        Some((v, n)) => if n > 0 && v <= u64::MAX {
            Ok((v as u64, end))
        } else {
            Err(error_at(ParseErrorKind::InvalidNumber, i))
        },
        None => Err(error_at(ParseErrorKind::InvalidNumber, i)),
    }
}

/// The name that starts at `i`.
pub open spec fn name_at(s: Seq<u8>, i: int) -> Ident {
    Ident { start: i as usize, end: word_end(s, i) as usize }
}

/// The name behind a sigil: spaces may stand between the two.
pub open spec fn variable(s: Seq<u8>, i: int) -> Result<(Ident, int), ParseError> {
    let n = skip_space(s, i);
    if name_starts(s, n) {
        Ok((name_at(s, n), word_end(s, n)))
    } else {
        Err(error_at(ParseErrorKind::ExpectedIdentifier, n))
    }
}

/// An immediate: `$name` or a number.
pub open spec fn immediate(s: Seq<u8>, i: int) -> Result<(AddrImmediate, int), ParseError> {
    let k = skip_space(s, i);
    if at(s, k, DOLLAR) {
        match variable(s, k + 1) {
            Ok((ident, e)) => Ok((AddrImmediate::Var(ident), e)),
            Err(e) => Err(e),
        }
    } else if number_starts(s, k) {
        match number_at(s, k) {
            Ok((v, e)) => Ok((AddrImmediate::Lit(v), e)),
            Err(e) => Err(e),
        }
    } else {
        Err(error_at(ParseErrorKind::ExpectedImmediate, k))
    }
}

/// The register whose name stands at `i`.
pub open spec fn register_name(s: Seq<u8>, i: int) -> Result<(Register, int), ParseError> {
    let k = skip_space(s, i);
    if name_starts(s, k) {
        match register_of_word(s.subrange(k, word_end(s, k))) {
            Some(r) => Ok((r, word_end(s, k))),
            None => Err(error_at(ParseErrorKind::InvalidRegister, k)),
        }
    } else {
        Err(error_at(ParseErrorKind::ExpectedRegister, k))
    }
}

/// A register: `%name` or the name of a register.
pub open spec fn register(s: Seq<u8>, i: int) -> Result<(AddrRegister, int), ParseError> {
    let k = skip_space(s, i);
    if at(s, k, PERCENT) {
        match variable(s, k + 1) {
            Ok((ident, e)) => Ok((AddrRegister::Var(ident), e)),
            Err(e) => Err(e),
        }
    } else {
        match register_name(s, k) {
            Ok((r, e)) => Ok((AddrRegister::Lit(r), e)),
            Err(e) => Err(e),
        }
    }
}

/// The byte `c`, after spaces.
pub open spec fn expect(s: Seq<u8>, i: int, c: u8, kind: ParseErrorKind) -> Result<
    int,
    ParseError,
> {
    let k = skip_space(s, i);
    if at(s, k, c) {
        Ok(k + 1)
    } else {
        Err(error_at(kind, k))
    }
}

/// `[addr]`, from behind the opening bracket.
pub open spec fn direct(s: Seq<u8>, i: int) -> Result<(AddrDirect, int), ParseError> {
    match immediate(s, i) {
        Err(e) => Err(e),
        Ok((addr, j)) => match expect(s, j, RIGHT_BRACKET, ParseErrorKind::ExpectedBracket) {
            Ok(e) => Ok((AddrDirect { addr }, e)),
            Err(e) => Err(e),
        },
    }
}

/// `[reg]`, `[reg + disp]` or `[reg - disp]`, from behind the opening
/// bracket.
pub open spec fn indirect(s: Seq<u8>, i: int) -> Result<(AddrIndirect, int), ParseError> {
    match register(s, i) {
        Err(e) => Err(e),
        Ok((reg, j)) => {
            let c = skip_space(s, j);
            if at(s, c, PLUS) || at(s, c, MINUS) {
                match immediate(s, c + 1) {
                    Err(e) => Err(e),
                    Ok((imm, j2)) => match expect(
                        s,
                        j2,
                        RIGHT_BRACKET,
                        ParseErrorKind::ExpectedBracket,
                    ) {
                        Ok(e) => Ok((AddrIndirect { reg, disp: Some((at(s, c, MINUS), imm)) }, e)),
                        Err(e) => Err(e),
                    },
                }
            } else {
                match expect(s, j, RIGHT_BRACKET, ParseErrorKind::ExpectedBracket) {
                    Ok(e) => Ok((AddrIndirect { reg, disp: None }, e)),
                    Err(e) => Err(e),
                }
            }
        },
    }
}

/// An operand. What stands in brackets is an absolute address if it can be
/// read as one, else a register with an optional displacement.
pub open spec fn addressing_mode(s: Seq<u8>, i: int) -> Result<(AddressingMode, int), ParseError> {
    let k = skip_space(s, i);
    if number_starts(s, k) || at(s, k, DOLLAR) {
        match immediate(s, k) {
            Ok((imm, e)) => Ok((AddressingMode::Immediate(imm), e)),
            Err(e) => Err(e),
        }
    } else if name_starts(s, k) || at(s, k, PERCENT) {
        match register(s, k) {
            Ok((reg, e)) => Ok((AddressingMode::Register(reg), e)),
            Err(e) => Err(e),
        }
    } else if at(s, k, LEFT_BRACKET) {
        match direct(s, k + 1) {
            Ok((d, e)) => Ok((AddressingMode::Direct(d), e)),
            Err(_) => match indirect(s, k + 1) {
                Ok((ind, e)) => Ok((AddressingMode::Indirect(ind), e)),
                Err(e) => Err(e),
            },
        }
    } else {
        Err(error_at(ParseErrorKind::ExpectedOperand, k))
    }
}

/// The argument that stands at `k`, if one does: `ref name`, an immediate
/// or a register.
pub open spec fn argument(s: Seq<u8>, k: int) -> Result<(Option<Argument>, int), ParseError> {
    if name_starts(s, k) && s.subrange(k, word_end(s, k)) == ref_word() {
        match variable(s, word_end(s, k)) {
            Ok((ident, e)) => Ok((Some(Argument::Ref(ident)), e)),
            Err(e) => Err(e),
        }
    } else if at(s, k, DOLLAR) || number_starts(s, k) {
        match immediate(s, k) {
            Ok((imm, e)) => Ok((Some(Argument::Immediate(imm)), e)),
            Err(e) => Err(e),
        }
    } else if at(s, k, PERCENT) || name_starts(s, k) {
        match register(s, k) {
            Ok((reg, e)) => Ok((Some(Argument::Register(reg)), e)),
            Err(e) => Err(e),
        }
    } else {
        Ok((None, k))
    }
}

/// One step through the arguments of a call, from behind the opening
/// parenthesis or behind a comma: what the step adds to the arguments,
/// whether a comma came and more follow, and the place behind it.
pub open spec fn list_item(s: Seq<u8>, i: int) -> Result<(Seq<Argument>, bool, int), ParseError> {
    let k = skip_space(s, i);
    if at(s, k, RIGHT_PARENTHESIS) {
        Ok((seq![], false, k + 1))
    } else {
        match argument(s, k) {
            Err(e) => Err(e),
            Ok((arg, j)) => {
                let c = skip_space(s, j);
                let head = match arg {
                    Some(a) => seq![a],
                    None => seq![],
                };
                if at(s, c, RIGHT_PARENTHESIS) {
                    Ok((head, false, c + 1))
                } else if at(s, c, COMMA) {
                    Ok((head, true, c + 1))
                } else {
                    Err(error_at(ParseErrorKind::ExpectedComma, c))
                }
            },
        }
    }
}

/// The arguments up to the closing parenthesis, from behind the opening one
/// or behind a comma.
pub open spec fn arguments(s: Seq<u8>, i: int) -> Result<(Seq<Argument>, int), ParseError>
    decreases s.len() - i,
{
    match list_item(s, i) {
        Err(e) => Err(e),
        Ok((head, more, j)) => if more && j > i {
            match arguments(s, j) {
                Ok((rest, e)) => Ok((head + rest, e)),
                Err(e) => Err(e),
            }
        } else {
            Ok((head, j))
        },
    }
}

/// The arguments of a call, in parentheses.
pub open spec fn call_args(s: Seq<u8>, i: int) -> Result<(Seq<Argument>, int), ParseError> {
    match expect(s, i, LEFT_PARENTHESIS, ParseErrorKind::ExpectedParenthesis) {
        Ok(j) => arguments(s, j),
        Err(e) => Err(e),
    }
}

/// A register, a comma and an operand.
pub open spec fn register_and_operand(s: Seq<u8>, i: int) -> Result<
    (AddrRegister, AddressingMode, int),
    ParseError,
> {
    match register(s, i) {
        Err(e) => Err(e),
        Ok((a, j)) => match expect(s, j, COMMA, ParseErrorKind::ExpectedComma) {
            Err(e) => Err(e),
            Ok(j2) => match addressing_mode(s, j2) {
                Err(e) => Err(e),
                Ok((b, e)) => Ok((a, b, e)),
            },
        },
    }
}

/// The name of a register, a comma and an operand.
pub open spec fn name_and_operand(s: Seq<u8>, i: int) -> Result<
    (Register, AddressingMode, int),
    ParseError,
> {
    match register_name(s, i) {
        Err(e) => Err(e),
        Ok((a, j)) => match expect(s, j, COMMA, ParseErrorKind::ExpectedComma) {
            Err(e) => Err(e),
            Ok(j2) => match addressing_mode(s, j2) {
                Err(e) => Err(e),
                Ok((b, e)) => Ok((a, b, e)),
            },
        },
    }
}

/// The operands of the instruction with the given mnemonic.
pub open spec fn operands(s: Seq<u8>, mnemonic: Mnemonic, i: int) -> Result<
    (InstructionView, int),
    ParseError,
> {
    match mnemonic {
        Mnemonic::Mov => match addressing_mode(s, i) {
            Err(e) => Err(e),
            Ok((a, j)) => match expect(s, j, COMMA, ParseErrorKind::ExpectedComma) {
                Err(e) => Err(e),
                Ok(j2) => match addressing_mode(s, j2) {
                    Err(e) => Err(e),
                    Ok((b, e)) => Ok((InstructionView::Mov(a, b), e)),
                },
            },
        },
        Mnemonic::Movabs => match addressing_mode(s, i) {
            Err(e) => Err(e),
            Ok((a, j)) => match expect(s, j, COMMA, ParseErrorKind::ExpectedComma) {
                Err(e) => Err(e),
                Ok(j2) => match immediate(s, j2) {
                    Err(e) => Err(e),
                    Ok((b, e)) => Ok((InstructionView::Movabs(a, b), e)),
                },
            },
        },
        Mnemonic::Push => match register(s, i) {
            Ok((r, e)) => Ok((InstructionView::Push(r), e)),
            Err(e) => Err(e),
        },
        Mnemonic::Pop => match register(s, i) {
            Ok((r, e)) => Ok((InstructionView::Pop(r), e)),
            Err(e) => Err(e),
        },
        Mnemonic::Add => match register_and_operand(s, i) {
            Ok((a, b, e)) => Ok((InstructionView::Add(a, b), e)),
            Err(e) => Err(e),
        },
        Mnemonic::Sub => match register_and_operand(s, i) {
            Ok((a, b, e)) => Ok((InstructionView::Sub(a, b), e)),
            Err(e) => Err(e),
        },
        Mnemonic::Or => match name_and_operand(s, i) {
            Ok((a, b, e)) => Ok((InstructionView::Or(a, b), e)),
            Err(e) => Err(e),
        },
        Mnemonic::Xor => match name_and_operand(s, i) {
            Ok((a, b, e)) => Ok((InstructionView::Xor(a, b), e)),
            Err(e) => Err(e),
        },
        Mnemonic::Call => match addressing_mode(s, i) {
            Ok((a, e)) => Ok((InstructionView::Call(a), e)),
            Err(e) => Err(e),
        },
        Mnemonic::CallFn => match variable(s, i) {
            Err(e) => Err(e),
            Ok((f, j)) => match call_args(s, j) {
                Ok((args, e)) => Ok((InstructionView::CallFn(f, args), e)),
                Err(e) => Err(e),
            },
        },
        Mnemonic::Ret => Ok((InstructionView::Ret, i)),
    }
}

/// One instruction: a mnemonic, its operands and a semicolon.
#[verifier::opaque]
pub open spec fn instruction(s: Seq<u8>, i: int) -> Result<(InstructionView, int), ParseError> {
    let k = skip_space(s, i);
    if name_starts(s, k) {
        match mnemonic_of(s.subrange(k, word_end(s, k))) {
            None => Err(error_at(ParseErrorKind::UnknownInstruction, k)),
            Some(m) => match operands(s, m, word_end(s, k)) {
                Err(e) => Err(e),
                Ok((inst, j)) => match expect(s, j, SEMICOLON, ParseErrorKind::ExpectedSemicolon) {
                    Ok(e) => Ok((inst, e)),
                    Err(e) => Err(e),
                },
            },
        }
    } else {
        Err(error_at(ParseErrorKind::ExpectedIdentifier, k))
    }
}

/// The instructions from `i` up to the end of the text. An instruction
/// ends behind its start and inside the text, so each is followed by the
/// rest of the text.
pub open spec fn program(s: Seq<u8>, i: int) -> Result<Seq<InstructionView>, ParseError>
    decreases s.len() - i,
{
    let k = skip_space(s, i);
    if k >= s.len() || k < 0 {
        Ok(seq![])
    } else {
        match instruction(s, k) {
            Err(e) => Err(e),
            Ok((inst, j)) => if i <= k < j <= s.len() {
                match program(s, j) {
                    Ok(rest) => Ok(seq![inst] + rest),
                    Err(e) => Err(e),
                }
            } else {
                Ok(seq![inst])
            },
        }
    }
}

/// What a step of the reader owes: the result that the grammar gives, and a
/// place to go on that lies between the place it started and the end of the
/// text.
pub open spec fn agrees<T>(
    grammar: Result<(T, int), ParseError>,
    r: Result<(T, usize), ParseError>,
    from: int,
    len: int,
) -> bool {
    match grammar {
        Ok((v, j)) => r == Ok::<(T, usize), ParseError>((v, j as usize)) && from <= j <= len,
        Err(e) => r == Err::<(T, usize), ParseError>(e),
    }
}

/// Spaces are skipped forwards, and never beyond the end.
pub proof fn lemma_skip_space(s: Seq<u8>, i: int)
    requires
        0 <= i <= s.len(),
    ensures
        i <= skip_space(s, i) <= s.len(),
        skip_space(s, skip_space(s, i)) == skip_space(s, i),
    decreases s.len() - i,
{
    if i < s.len() && is_space(s[i]) {
        lemma_skip_space(s, i + 1);
    }
}

/// A word ends behind its start, and not beyond the end.
pub proof fn lemma_word_end(s: Seq<u8>, i: int)
    requires
        0 <= i <= s.len(),
    ensures
        i <= word_end(s, i) <= s.len(),
        name_starts(s, i) || number_starts(s, i) ==> i < word_end(s, i),
    decreases s.len() - i,
{
    if i < s.len() && is_ident_continue(s[i]) {
        lemma_word_end(s, i + 1);
    }
}

/// Skips spaces.
pub fn skip_spaces(input: &[u8], pos: usize) -> (r: usize)
    requires
        pos <= input.len(),
    ensures
        r == skip_space(input@, pos as int),
        pos <= r <= input.len(),
{
    let mut i = pos;
    while i < input.len() && (input[i] == 0x20 || input[i] == 0x09 || input[i] == 0x0a || input[i]
        == 0x0d)
        invariant
            pos <= i <= input.len(),
            skip_space(input@, i as int) == skip_space(input@, pos as int),
        decreases input.len() - i,
    {
        i = i + 1;
    }
    i
}

/// Tells whether a byte may stand in a word.
pub fn ident_continues(c: u8) -> (b: bool)
    ensures
        b == is_ident_continue(c),
{
    (c >= 0x41 && c <= 0x5a) || (c >= 0x61 && c <= 0x7a) || c == UNDERSCORE || (c >= 0x30 && c
        <= 0x39)
}

/// Tells whether a name starts at `pos`.
pub fn name_starts_at(input: &[u8], pos: usize) -> (b: bool)
    ensures
        b == name_starts(input@, pos as int),
{
    pos < input.len() && ((input[pos] >= 0x41 && input[pos] <= 0x5a) || (input[pos] >= 0x61
        && input[pos] <= 0x7a) || input[pos] == UNDERSCORE)
}

/// Tells whether a number starts at `pos`.
pub fn number_starts_at(input: &[u8], pos: usize) -> (b: bool)
    ensures
        b == number_starts(input@, pos as int),
{
    pos < input.len() && input[pos] >= 0x30 && input[pos] <= 0x39
}

/// Tells whether the byte `c` stands at `pos`.
pub fn is_at(input: &[u8], pos: usize, c: u8) -> (b: bool)
    ensures
        b == at(input@, pos as int, c),
{
    pos < input.len() && input[pos] == c
}

/// Finds the end of the word that starts at `pos`.
pub fn find_word_end(input: &[u8], pos: usize) -> (r: usize)
    requires
        pos <= input.len(),
    ensures
        r == word_end(input@, pos as int),
        pos <= r <= input.len(),
{
    let mut i = pos;
    while i < input.len() && ident_continues(input[i])
        invariant
            pos <= i <= input.len(),
            word_end(input@, i as int) == word_end(input@, pos as int),
        decreases input.len() - i,
    {
        i = i + 1;
    }
    i
}

/// The value of a digit in a base.
pub fn digit_of(c: u8, base: u64) -> (r: Option<u64>)
    requires
        base <= 16,
    ensures
        r == match digit_value(c, base as nat) {
            Some(d) => Some(d as u64),
            None => None,
        },
        r matches Some(d) ==> d < base,
{
    let v: u64 = if c >= 0x30 && c <= 0x39 {
        (c - 0x30) as u64
    } else if c >= 0x61 && c <= 0x66 {
        (c - 0x61) as u64 + 10
    } else if c >= 0x41 && c <= 0x46 {
        (c - 0x41) as u64 + 10
    } else {
        16
    };
    if v < base {
        Some(v)
    } else {
        None
    }
}

/// Digits that follow can only make a number larger, and a wrong digit
/// among them leaves none.
pub proof fn lemma_digits_grow(s: Seq<u8>, start: int, mid: int, end: int, base: nat)
    requires
        start <= mid <= end,
        base >= 2,
    ensures
        digits_value(s, start, mid, base) is None ==> digits_value(s, start, end, base) is None,
        digits_value(s, start, end, base) matches Some((v, n)) ==> digits_value(
            s,
            start,
            mid,
            base,
        ) matches Some((v0, n0)) && v0 <= v && n0 <= n,
    decreases end - mid,
{
    if mid < end {
        lemma_digits_grow(s, start, mid, end - 1, base);
        match digits_value(s, start, end - 1, base) {
            Some((v1, n1)) => {
                assert(v1 * base >= v1) by (nonlinear_arith)
                    requires
                        base >= 2,
                        v1 >= 0,
                ;
            },
            None => {},
        }
    }
}

/// Reads the number that starts at `pos`.
pub fn parse_number(input: &[u8], pos: usize) -> (r: Result<(u64, usize), ParseError>)
    requires
        number_starts(input@, pos as int),
    ensures
        agrees(number_at(input@, pos as int), r, pos as int + 1, input.len() as int),
{
    proof {
        lemma_word_end(input@, pos as int);
    }
    let end = find_word_end(input, pos);
    let (base, start): (u64, usize) = if is_at(input, pos, 0x30) && (is_at(input, pos + 1, 0x78)
        || is_at(input, pos + 1, 0x58)) {
        (16, pos + 2)
    } else if is_at(input, pos, 0x30) && is_at(input, pos + 1, 0x6f) {
        (8, pos + 2)
    } else if is_at(input, pos, 0x30) && is_at(input, pos + 1, 0x62) {
        (2, pos + 2)
    } else {
        (10, pos)
    };
    let failure: Result<(u64, usize), ParseError> = Err(
        ParseError { kind: ParseErrorKind::InvalidNumber, at: pos },
    );
    if start > end {
        return failure;
    }
    let mut value: u64 = 0;
    let mut digits: usize = 0;
    let mut i: usize = start;
    while i < end
        invariant
            start <= i <= end <= input.len(),
            2 <= base <= 16,
            digits <= i - start,
            end == word_end(input@, pos as int),
            base_at(input@, pos as int) == (base as nat, start as int),
            failure == Err::<(u64, usize), ParseError>(
                ParseError { kind: ParseErrorKind::InvalidNumber, at: pos },
            ),
            digits_value(input@, start as int, i as int, base as nat) == Some(
                (value as nat, digits as nat),
            ),
        decreases end - i,
    {
        let c = input[i];
        if c != UNDERSCORE {
            let d = match digit_of(c, base) {
                Some(d) => d,
                None => {
                    proof {
                        assert(digits_value(input@, start as int, i as int + 1, base as nat)
                            is None);
                        lemma_digits_grow(
                            input@,
                            start as int,
                            i as int + 1,
                            end as int,
                            base as nat,
                        );
                    }
                    return failure;
                },
            };
            if value > (u64::MAX - d) / base {
                proof {
                    assert(value * base + d > u64::MAX) by (nonlinear_arith)
                        requires
                            value > (u64::MAX - d) / (base as int),
                            base >= 2,
                            0 <= d,
                            d <= u64::MAX,
                    ;
                    assert(digits_value(input@, start as int, i as int + 1, base as nat) == Some(
                        ((value * base + d) as nat, digits as nat + 1),
                    ));
                    lemma_digits_grow(input@, start as int, i as int + 1, end as int, base as nat);
                }
                return failure;
            }
            assert(value * base + d <= u64::MAX) by (nonlinear_arith)
                requires
                    value <= (u64::MAX - d) / (base as int),
                    base >= 2,
                    0 <= d,
                    d <= u64::MAX,
            ;
            value = value * base + d;
            digits = digits + 1;
        }
        i = i + 1;
    }
    if digits == 0 {
        return failure;
    }
    Ok((value, end))
}

/// Reads the name behind a sigil.
pub fn parse_variable(input: &[u8], pos: usize) -> (r: Result<(Ident, usize), ParseError>)
    requires
        pos <= input.len(),
    ensures
        agrees(variable(input@, pos as int), r, pos as int, input.len() as int),
{
    let n = skip_spaces(input, pos);
    if name_starts_at(input, n) {
        let end = find_word_end(input, n);
        Ok((Ident { start: n, end }, end))
    } else {
        Err(ParseError { kind: ParseErrorKind::ExpectedIdentifier, at: n })
    }
}

/// Reads an immediate.
pub fn parse_immediate(input: &[u8], pos: usize) -> (r: Result<(AddrImmediate, usize), ParseError>)
    requires
        pos <= input.len(),
    ensures
        agrees(immediate(input@, pos as int), r, pos as int, input.len() as int),
{
    let k = skip_spaces(input, pos);
    if is_at(input, k, DOLLAR) {
        match parse_variable(input, k + 1) {
            Ok((ident, e)) => Ok((AddrImmediate::Var(ident), e)),
            Err(e) => Err(e),
        }
    } else if number_starts_at(input, k) {
        match parse_number(input, k) {
            Ok((v, e)) => Ok((AddrImmediate::Lit(v), e)),
            Err(e) => Err(e),
        }
    } else {
        Err(ParseError { kind: ParseErrorKind::ExpectedImmediate, at: k })
    }
}

/// Reads the name of a register.
pub fn parse_register_name(input: &[u8], pos: usize) -> (r: Result<(Register, usize), ParseError>)
    requires
        pos <= input.len(),
    ensures
        agrees(register_name(input@, pos as int), r, pos as int, input.len() as int),
{
    let k = skip_spaces(input, pos);
    if name_starts_at(input, k) {
        let end = find_word_end(input, k);
        match register_at(input, k, end) {
            Some(r) => Ok((r, end)),
            None => Err(ParseError { kind: ParseErrorKind::InvalidRegister, at: k }),
        }
    } else {
        Err(ParseError { kind: ParseErrorKind::ExpectedRegister, at: k })
    }
}

/// Reads a register.
pub fn parse_register(input: &[u8], pos: usize) -> (r: Result<(AddrRegister, usize), ParseError>)
    requires
        pos <= input.len(),
    ensures
        agrees(register(input@, pos as int), r, pos as int, input.len() as int),
{
    let k = skip_spaces(input, pos);
    if is_at(input, k, PERCENT) {
        match parse_variable(input, k + 1) {
            Ok((ident, e)) => Ok((AddrRegister::Var(ident), e)),
            Err(e) => Err(e),
        }
    } else {
        proof {
            lemma_skip_space(input@, pos as int);
        }
        match parse_register_name(input, k) {
            Ok((r, e)) => Ok((AddrRegister::Lit(r), e)),
            Err(e) => Err(e),
        }
    }
}

/// Reads the byte `c`, after spaces.
pub fn parse_expected(input: &[u8], pos: usize, c: u8, kind: ParseErrorKind) -> (r: Result<
    usize,
    ParseError,
>)
    requires
        pos <= input.len(),
    ensures
        match expect(input@, pos as int, c, kind) {
            Ok(j) => r == Ok::<usize, ParseError>(j as usize) && pos < j <= input.len(),
            Err(e) => r == Err::<usize, ParseError>(e),
        },
{
    let k = skip_spaces(input, pos);
    if is_at(input, k, c) {
        Ok(k + 1)
    } else {
        Err(ParseError { kind, at: k })
    }
}

/// Reads `[addr]` from behind the opening bracket.
pub fn parse_direct(input: &[u8], pos: usize) -> (r: Result<(AddrDirect, usize), ParseError>)
    requires
        pos <= input.len(),
    ensures
        agrees(direct(input@, pos as int), r, pos as int, input.len() as int),
{
    let (addr, j) = match parse_immediate(input, pos) {
        Ok(pair) => pair,
        Err(e) => {
            return Err(e);
        },
    };
    match parse_expected(input, j, RIGHT_BRACKET, ParseErrorKind::ExpectedBracket) {
        Ok(e) => Ok((AddrDirect { addr }, e)),
        Err(e) => Err(e),
    }
}

/// Reads `[reg]`, `[reg + disp]` or `[reg - disp]` from behind the opening
/// bracket.
pub fn parse_indirect(input: &[u8], pos: usize) -> (r: Result<(AddrIndirect, usize), ParseError>)
    requires
        pos <= input.len(),
    ensures
        agrees(indirect(input@, pos as int), r, pos as int, input.len() as int),
{
    let (reg, j) = match parse_register(input, pos) {
        Ok(pair) => pair,
        Err(e) => {
            return Err(e);
        },
    };
    let c = skip_spaces(input, j);
    if is_at(input, c, PLUS) || is_at(input, c, MINUS) {
        let neg = is_at(input, c, MINUS);
        let (imm, j2) = match parse_immediate(input, c + 1) {
            Ok(pair) => pair,
            Err(e) => {
                return Err(e);
            },
        };
        match parse_expected(input, j2, RIGHT_BRACKET, ParseErrorKind::ExpectedBracket) {
            Ok(e) => Ok((AddrIndirect { reg, disp: Some((neg, imm)) }, e)),
            Err(e) => Err(e),
        }
    } else {
        match parse_expected(input, j, RIGHT_BRACKET, ParseErrorKind::ExpectedBracket) {
            Ok(e) => Ok((AddrIndirect { reg, disp: None }, e)),
            Err(e) => Err(e),
        }
    }
}

/// Reads an operand.
pub fn parse_addressing_mode(input: &[u8], pos: usize) -> (r: Result<
    (AddressingMode, usize),
    ParseError,
>)
    requires
        pos <= input.len(),
    ensures
        agrees(addressing_mode(input@, pos as int), r, pos as int, input.len() as int),
{
    let k = skip_spaces(input, pos);
    proof {
        lemma_skip_space(input@, pos as int);
    }
    if number_starts_at(input, k) || is_at(input, k, DOLLAR) {
        match parse_immediate(input, k) {
            Ok((imm, e)) => Ok((AddressingMode::Immediate(imm), e)),
            Err(e) => Err(e),
        }
    } else if name_starts_at(input, k) || is_at(input, k, PERCENT) {
        match parse_register(input, k) {
            Ok((reg, e)) => Ok((AddressingMode::Register(reg), e)),
            Err(e) => Err(e),
        }
    } else if is_at(input, k, LEFT_BRACKET) {
        match parse_direct(input, k + 1) {
            Ok((d, e)) => Ok((AddressingMode::Direct(d), e)),
            Err(_) => match parse_indirect(input, k + 1) {
                Ok((ind, e)) => Ok((AddressingMode::Indirect(ind), e)),
                Err(e) => Err(e),
            },
        }
    } else {
        Err(ParseError { kind: ParseErrorKind::ExpectedOperand, at: k })
    }
}

/// Reads the argument that stands at `pos`, if one does.
pub fn parse_argument(input: &[u8], pos: usize) -> (r: Result<(Option<Argument>, usize), ParseError>)
    requires
        pos <= input.len(),
    ensures
        agrees(argument(input@, pos as int), r, pos as int, input.len() as int),
{
    let named = name_starts_at(input, pos);
    if named {
        let end = find_word_end(input, pos);
        if is_ref(input, pos, end) {
            return match parse_variable(input, end) {
                Ok((ident, e)) => Ok((Some(Argument::Ref(ident)), e)),
                Err(e) => Err(e),
            };
        }
    }
    if is_at(input, pos, DOLLAR) || number_starts_at(input, pos) {
        match parse_immediate(input, pos) {
            Ok((imm, e)) => Ok((Some(Argument::Immediate(imm)), e)),
            Err(e) => Err(e),
        }
    } else if is_at(input, pos, PERCENT) || named {
        match parse_register(input, pos) {
            Ok((reg, e)) => Ok((Some(Argument::Register(reg)), e)),
            Err(e) => Err(e),
        }
    } else {
        Ok((None, pos))
    }
}

/// Reads one step through the arguments of a call and adds what it finds
/// to `args`. Tells whether more follow, and the place to go on.
fn parse_list_item(input: &[u8], pos: usize, args: &mut Vec<Argument>) -> (r: Result<
    (bool, usize),
    ParseError,
>)
    requires
        pos <= input.len(),
    ensures
        match list_item(input@, pos as int) {
            Ok((head, more, j)) => r == Ok::<(bool, usize), ParseError>((more, j as usize))
                && final(args)@ == old(args)@ + head && pos < j <= input.len(),
            Err(e) => r == Err::<(bool, usize), ParseError>(e),
        },
{
    let k = skip_spaces(input, pos);
    proof {
        lemma_skip_space(input@, pos as int);
    }
    if is_at(input, k, RIGHT_PARENTHESIS) {
        proof {
            assert(args@ + Seq::<Argument>::empty() =~= args@);
        }
        return Ok((false, k + 1));
    }
    let (arg, j) = match parse_argument(input, k) {
        Ok(pair) => pair,
        Err(e) => {
            return Err(e);
        },
    };
    let c = skip_spaces(input, j);
    if !is_at(input, c, RIGHT_PARENTHESIS) && !is_at(input, c, COMMA) {
        return Err(ParseError { kind: ParseErrorKind::ExpectedComma, at: c });
    }
    match arg {
        Some(a) => {
            args.push(a);
            proof {
                assert(args@ =~= old(args)@ + seq![a]);
            }
        },
        None => {
            proof {
                assert(args@ =~= old(args)@ + Seq::<Argument>::empty());
            }
        },
    }
    Ok((is_at(input, c, COMMA), c + 1))
}

/// Reads the arguments of a call, in parentheses.
pub fn parse_call_args(input: &[u8], pos: usize) -> (r: Result<(CallArgs, usize), ParseError>)
    requires
        pos <= input.len(),
    ensures
        match call_args(input@, pos as int) {
            Ok((args, j)) => r matches Ok((list, e)) && list.0@ == args && e == j && pos <= j
                <= input.len(),
            Err(e) => r == Err::<(CallArgs, usize), ParseError>(e),
        },
{
    let start = match parse_expected(
        input,
        pos,
        LEFT_PARENTHESIS,
        ParseErrorKind::ExpectedParenthesis,
    ) {
        Ok(j) => j,
        Err(e) => {
            return Err(e);
        },
    };
    let mut args: Vec<Argument> = Vec::new();
    let mut i: usize = start;
    loop
        invariant
            pos < start <= i <= input.len(),
            expect(input@, pos as int, LEFT_PARENTHESIS, ParseErrorKind::ExpectedParenthesis)
                == Ok::<int, ParseError>(start as int),
            match arguments(input@, i as int) {
                Ok((rest, j)) => arguments(input@, start as int) == Ok::<
                    (Seq<Argument>, int),
                    ParseError,
                >((args@ + rest, j)),
                Err(e) => arguments(input@, start as int) == Err::<
                    (Seq<Argument>, int),
                    ParseError,
                >(e),
            },
        decreases input.len() - i,
    {
        let ghost before = args@;
        let (more, j) = match parse_list_item(input, i, &mut args) {
            Ok(pair) => pair,
            Err(e) => {
                return Err(e);
            },
        };
        if !more {
            return Ok((CallArgs(args), j));
        }
        proof {
            let head = list_item(input@, i as int)->Ok_0.0;
            match arguments(input@, j as int) {
                Ok((rest, e)) => {
                    assert(before + (head + rest) =~= args@ + rest);
                },
                Err(_) => {},
            }
        }
        i = j;
    }
}

/// Reads a register, a comma and an operand.
fn parse_register_and_operand(input: &[u8], pos: usize) -> (r: Result<
    (AddrRegister, AddressingMode, usize),
    ParseError,
>)
    requires
        pos <= input.len(),
    ensures
        match register_and_operand(input@, pos as int) {
            Ok((a, b, j)) => r == Ok::<(AddrRegister, AddressingMode, usize), ParseError>(
                (a, b, j as usize),
            ) && pos <= j <= input.len(),
            Err(e) => r == Err::<(AddrRegister, AddressingMode, usize), ParseError>(e),
        },
{
    let (a, j) = match parse_register(input, pos) {
        Ok(pair) => pair,
        Err(e) => {
            return Err(e);
        },
    };
    let j2 = match parse_expected(input, j, COMMA, ParseErrorKind::ExpectedComma) {
        Ok(j2) => j2,
        Err(e) => {
            return Err(e);
        },
    };
    match parse_addressing_mode(input, j2) {
        Ok((b, e)) => Ok((a, b, e)),
        Err(e) => Err(e),
    }
}

/// Reads the name of a register, a comma and an operand.
fn parse_name_and_operand(input: &[u8], pos: usize) -> (r: Result<
    (Register, AddressingMode, usize),
    ParseError,
>)
    requires
        pos <= input.len(),
    ensures
        match name_and_operand(input@, pos as int) {
            Ok((a, b, j)) => r == Ok::<(Register, AddressingMode, usize), ParseError>(
                (a, b, j as usize),
            ) && pos <= j <= input.len(),
            Err(e) => r == Err::<(Register, AddressingMode, usize), ParseError>(e),
        },
{
    let (a, j) = match parse_register_name(input, pos) {
        Ok(pair) => pair,
        Err(e) => {
            return Err(e);
        },
    };
    let j2 = match parse_expected(input, j, COMMA, ParseErrorKind::ExpectedComma) {
        Ok(j2) => j2,
        Err(e) => {
            return Err(e);
        },
    };
    match parse_addressing_mode(input, j2) {
        Ok((b, e)) => Ok((a, b, e)),
        Err(e) => Err(e),
    }
}

/// What reading an instruction owes: the instruction that the grammar gives
/// and the place behind it.
pub open spec fn reads(
    grammar: Result<(InstructionView, int), ParseError>,
    r: Result<(Instruction, usize), ParseError>,
    from: int,
    len: int,
) -> bool {
    match grammar {
        Ok((v, j)) => r matches Ok((inst, e)) && inst@ == v && e == j && from <= j <= len,
        Err(e) => r == Err::<(Instruction, usize), ParseError>(e),
    }
}

/// Reads the operands of the instruction with the given mnemonic.
fn parse_operands(input: &[u8], mnemonic: Mnemonic, pos: usize) -> (r: Result<
    (Instruction, usize),
    ParseError,
>)
    requires
        pos <= input.len(),
    ensures
        reads(operands(input@, mnemonic, pos as int), r, pos as int, input.len() as int),
{
    match mnemonic {
        Mnemonic::Mov => {
            let (a, j) = match parse_addressing_mode(input, pos) {
                Ok(pair) => pair,
                Err(e) => {
                    return Err(e);
                },
            };
            let j2 = match parse_expected(input, j, COMMA, ParseErrorKind::ExpectedComma) {
                Ok(j2) => j2,
                Err(e) => {
                    return Err(e);
                },
            };
            match parse_addressing_mode(input, j2) {
                Ok((b, e)) => Ok((Instruction::Mov(a, b), e)),
                Err(e) => Err(e),
            }
        },
        Mnemonic::Movabs => {
            let (a, j) = match parse_addressing_mode(input, pos) {
                Ok(pair) => pair,
                Err(e) => {
                    return Err(e);
                },
            };
            let j2 = match parse_expected(input, j, COMMA, ParseErrorKind::ExpectedComma) {
                Ok(j2) => j2,
                Err(e) => {
                    return Err(e);
                },
            };
            match parse_immediate(input, j2) {
                Ok((b, e)) => Ok((Instruction::Movabs(a, b), e)),
                Err(e) => Err(e),
            }
        },
        Mnemonic::Push => match parse_register(input, pos) {
            Ok((r, e)) => Ok((Instruction::Push(r), e)),
            Err(e) => Err(e),
        },
        Mnemonic::Pop => match parse_register(input, pos) {
            Ok((r, e)) => Ok((Instruction::Pop(r), e)),
            Err(e) => Err(e),
        },
        Mnemonic::Add => match parse_register_and_operand(input, pos) {
            Ok((a, b, e)) => Ok((Instruction::Add(a, b), e)),
            Err(e) => Err(e),
        },
        Mnemonic::Sub => match parse_register_and_operand(input, pos) {
            Ok((a, b, e)) => Ok((Instruction::Sub(a, b), e)),
            Err(e) => Err(e),
        },
        Mnemonic::Or => match parse_name_and_operand(input, pos) {
            Ok((a, b, e)) => Ok((Instruction::Or(a, b), e)),
            Err(e) => Err(e),
        },
        Mnemonic::Xor => match parse_name_and_operand(input, pos) {
            Ok((a, b, e)) => Ok((Instruction::Xor(a, b), e)),
            Err(e) => Err(e),
        },
        Mnemonic::Call => match parse_addressing_mode(input, pos) {
            Ok((a, e)) => Ok((Instruction::Call(a), e)),
            Err(e) => Err(e),
        },
        Mnemonic::CallFn => {
            let (f, j) = match parse_variable(input, pos) {
                Ok(pair) => pair,
                Err(e) => {
                    return Err(e);
                },
            };
            match parse_call_args(input, j) {
                Ok((args, e)) => Ok((Instruction::CallFn(f, args), e)),
                Err(e) => Err(e),
            }
        },
        Mnemonic::Ret => Ok((Instruction::Ret, pos)),
    }
}

impl Instruction {
    /// Reads one instruction from `pos` on.
    pub fn parse(input: &[u8], pos: usize) -> (r: Result<(Instruction, usize), ParseError>)
        requires
            pos <= input.len(),
        ensures
            reads(instruction(input@, pos as int), r, pos as int + 1, input.len() as int),
    {
        proof {
            reveal(instruction);
        }
        let k = skip_spaces(input, pos);
        if !name_starts_at(input, k) {
            return Err(ParseError { kind: ParseErrorKind::ExpectedIdentifier, at: k });
        }
        proof {
            lemma_word_end(input@, k as int);
        }
        let end = find_word_end(input, k);
        let mnemonic = match mnemonic_at(input, k, end) {
            Some(m) => m,
            None => {
                return Err(ParseError { kind: ParseErrorKind::UnknownInstruction, at: k });
            },
        };
        let (inst, j) = match parse_operands(input, mnemonic, end) {
            Ok(pair) => pair,
            Err(e) => {
                return Err(e);
            },
        };
        match parse_expected(input, j, SEMICOLON, ParseErrorKind::ExpectedSemicolon) {
            Ok(e) => Ok((inst, e)),
            Err(e) => Err(e),
        }
    }
}

/// Reads a whole text: instructions up to the end.
pub fn parse(input: &[u8]) -> (r: Result<Vec<Instruction>, ParseError>)
    ensures
        match program(input@, 0) {
            Ok(list) => r matches Ok(out) && views(out@) == list,
            Err(e) => r == Err::<Vec<Instruction>, ParseError>(e),
        },
{
    let mut out: Vec<Instruction> = Vec::new();
    let mut i: usize = 0;
    loop
        invariant
            i <= input.len(),
            match program(input@, i as int) {
                Ok(rest) => program(input@, 0) == Ok::<Seq<InstructionView>, ParseError>(
                    views(out@) + rest,
                ),
                Err(e) => program(input@, 0) == Err::<Seq<InstructionView>, ParseError>(e),
            },
        decreases input.len() - i,
    {
        let k = skip_spaces(input, i);
        proof {
            lemma_skip_space(input@, i as int);
        }
        if k >= input.len() {
            proof {
                assert(views(out@) + Seq::<InstructionView>::empty() =~= views(out@));
            }
            return Ok(out);
        }
        let (inst, j) = match Instruction::parse(input, k) {
            Ok(pair) => pair,
            Err(e) => {
                return Err(e);
            },
        };
        let ghost before = views(out@);
        let ghost view = inst@;
        out.push(inst);
        proof {
            assert(views(out@) =~= before.push(view));
            match program(input@, j as int) {
                Ok(rest) => {
                    assert(before + (seq![view] + rest) =~= views(out@) + rest);
                },
                Err(_) => {},
            }
        }
        i = j;
    }
}

/// Why a text could not be turned into bytes.
#[derive(Debug, Clone, Copy, PartialEq, Eq, Structural)]
pub enum EmitError {
    /// The text cannot be read.
    Parse(ParseError),
    /// The instruction with the given number, counted from 0, cannot be
    /// encoded.
    Encode(usize, EncodeError),
}

/// What is owed for a text: the encoding of its instructions where it can
/// be read, and nothing but the fault where it cannot.
pub open spec fn emitted_text(
    before: Seq<u8>,
    after: Seq<u8>,
    env: Bindings,
    source: Seq<u8>,
    r: Result<(), EmitError>,
) -> bool {
    match program(source, 0) {
        Err(e) => r == Err::<(), EmitError>(EmitError::Parse(e)) && after == before,
        Ok(list) => match r {
            Ok(()) => emitted_all(before, after, env, source, list, Ok(())),
            Err(EmitError::Encode(i, e)) => emitted_all(
                before,
                after,
                env,
                source,
                list,
                Err((i, e)),
            ),
            Err(EmitError::Parse(_)) => false,
        },
    }
}

/// Reads the instructions of a text and encodes them into `buf`, with the
/// variables that they name standing for what `env` binds them to. Nothing
/// is encoded where the text cannot be read.
pub fn emit_text(buf: &mut Emitter, source: &[u8], env: &Bindings) -> (r: Result<(), EmitError>)
    ensures
        emitted_text(old(buf)@, final(buf)@, *env, source@, r),
{
    let instructions = match parse(source) {
        Ok(list) => list,
        Err(e) => {
            return Err(EmitError::Parse(e));
        },
    };
    match emit_all(buf, source, env, &instructions) {
        Ok(()) => Ok(()),
        Err((i, e)) => Err(EmitError::Encode(i, e)),
    }
}

} // verus!
