//! The instruction language as it is written: operands may be literals or
//! the names of variables, whose values are looked up when an instruction is
//! emitted.

use crate::codegen::assembler::{
    call_encoding, emit_call, emit_mov, emit_movabs, emit_op, emit_pop, emit_push, emit_ret,
    emitted, lemma_low32, low32, mov_encoding, movabs_encoding, op_encoding, pop_bytes,
    push_bytes, ret_bytes, EncodeError, Operand, Operation,
};
use crate::codegen::call::{call_fn_encoding, emit_call_fn, CallArgument};
use crate::codegen::emitter::Emitter;
use crate::codegen::register::Register;
use vstd::prelude::*;

verus! {

/// A name in the source text: the bytes from `start` up to `end`.
#[derive(Debug, Clone, Copy, PartialEq, Eq, Structural)]
pub struct Ident {
    pub start: usize,
    pub end: usize,
}

/// An immediate operand.
#[derive(Debug, Clone, Copy, PartialEq, Eq, Structural)]
pub enum AddrImmediate {
    /// The value of a variable, written `$name`.
    Var(Ident),
    /// A literal, written as a number.
    Lit(u64),
}

/// A register operand.
#[derive(Debug, Clone, Copy, PartialEq, Eq, Structural)]
pub enum AddrRegister {
    /// The register that a variable holds, written `%name`.
    Var(Ident),
    /// A register, written by its name.
    Lit(Register),
}

/// The memory at an absolute address, written `[addr]`.
#[derive(Debug, Clone, Copy, PartialEq, Eq, Structural)]
pub struct AddrDirect {
    pub addr: AddrImmediate,
}

/// The memory at a register plus or minus a displacement, written `[reg]`,
/// `[reg + disp]` or `[reg - disp]`. The flag of the displacement tells
/// whether it is subtracted.
#[derive(Debug, Clone, Copy, PartialEq, Eq)]
pub struct AddrIndirect {
    pub reg: AddrRegister,
    pub disp: Option<(bool, AddrImmediate)>,
}

/// An operand.
#[derive(Debug, Clone, Copy, PartialEq, Eq)]
pub enum AddressingMode {
    Immediate(AddrImmediate),
    Register(AddrRegister),
    Direct(AddrDirect),
    Indirect(AddrIndirect),
}

/// An argument of `call_fn`.
#[derive(Debug, Clone, Copy, PartialEq, Eq, Structural)]
pub enum Argument {
    Register(AddrRegister),
    Immediate(AddrImmediate),
    /// The address that a variable holds, written `ref name`.
    Ref(Ident),
}

/// The arguments of `call_fn`.
#[derive(Debug, Clone, PartialEq, Eq)]
pub struct CallArgs(pub Vec<Argument>);

/// An instruction.
#[derive(Debug, Clone, PartialEq, Eq)]
pub enum Instruction {
    Mov(AddressingMode, AddressingMode),
    Movabs(AddressingMode, AddrImmediate),
    Push(AddrRegister),
    Pop(AddrRegister),
    Add(AddrRegister, AddressingMode),
    Or(Register, AddressingMode),
    Sub(AddrRegister, AddressingMode),
    Xor(Register, AddressingMode),
    Call(AddressingMode),
    CallFn(Ident, CallArgs),
    Ret,
}

/// What an instruction says.
pub enum InstructionView {
    Mov(AddressingMode, AddressingMode),
    Movabs(AddressingMode, AddrImmediate),
    Push(AddrRegister),
    Pop(AddrRegister),
    Add(AddrRegister, AddressingMode),
    Or(Register, AddressingMode),
    Sub(AddrRegister, AddressingMode),
    Xor(Register, AddressingMode),
    Call(AddressingMode),
    CallFn(Ident, Seq<Argument>),
    Ret,
}

impl View for Instruction {
    type V = InstructionView;

    open spec fn view(&self) -> InstructionView {
        match *self {
            Instruction::Mov(a, b) => InstructionView::Mov(a, b),
            Instruction::Movabs(a, b) => InstructionView::Movabs(a, b),
            Instruction::Push(r) => InstructionView::Push(r),
            Instruction::Pop(r) => InstructionView::Pop(r),
            Instruction::Add(r, a) => InstructionView::Add(r, a),
            Instruction::Or(r, a) => InstructionView::Or(r, a),
            Instruction::Sub(r, a) => InstructionView::Sub(r, a),
            Instruction::Xor(r, a) => InstructionView::Xor(r, a),
            Instruction::Call(a) => InstructionView::Call(a),
            Instruction::CallFn(f, args) => InstructionView::CallFn(f, args.0@),
            Instruction::Ret => InstructionView::Ret,
        }
    }
}

/// The values of the variables: numbers by name, and registers by name.
pub struct Bindings {
    pub immediates: Vec<(Vec<u8>, u64)>,
    pub registers: Vec<(Vec<u8>, Register)>,
}

/// The bytes that a name stands for in the source text.
pub open spec fn name_of(source: Seq<u8>, ident: Ident) -> Seq<u8> {
    source.subrange(ident.start as int, ident.end as int)
}

/// Whether a name lies inside the source text.
pub open spec fn in_source(source: Seq<u8>, ident: Ident) -> bool {
    ident.start <= ident.end <= source.len()
}

/// The first value bound to `name` among the first `n` bindings.
pub open spec fn bound_number(list: Seq<(Vec<u8>, u64)>, name: Seq<u8>, n: nat) -> Option<u64>
    decreases n,
{
    if n == 0 {
        None
    } else {
        match bound_number(list, name, (n - 1) as nat) {
            Some(v) => Some(v),
            None => if list[n - 1].0@ == name {
                Some(list[n - 1].1)
            } else {
                None
            },
        }
    }
}

/// The first register bound to `name` among the first `n` bindings.
pub open spec fn bound_register(
    list: Seq<(Vec<u8>, Register)>,
    name: Seq<u8>,
    n: nat,
) -> Option<Register>
    decreases n,
{
    if n == 0 {
        None
    } else {
        match bound_register(list, name, (n - 1) as nat) {
            Some(v) => Some(v),
            None => if list[n - 1].0@ == name {
                Some(list[n - 1].1)
            } else {
                None
            },
        }
    }
}

/// The low 32 bits of a number, read as a signed one.
pub open spec fn truncated(v: u64) -> i32 {
    if low32(v) >= 0x8000_0000 {
        (low32(v) - 0x1_0000_0000) as i32
    } else {
        low32(v) as i32
    }
}

/// The displacement of an indirect operand: the low 32 bits of the number,
/// negated if the displacement is subtracted.
pub open spec fn displacement(neg: bool, v: u64) -> i32 {
    if neg {
        if truncated(v) == i32::MIN {
            i32::MIN
        } else {
            (-truncated(v)) as i32
        }
    } else {
        truncated(v)
    }
}

impl Bindings {
    /// The number that `imm` stands for.
    pub open spec fn number(self, source: Seq<u8>, imm: AddrImmediate) -> Result<
        u64,
        EncodeError,
    > {
        match imm {
            AddrImmediate::Lit(v) => Ok(v),
            AddrImmediate::Var(ident) => if in_source(source, ident) {
                match bound_number(
                    self.immediates@,
                    name_of(source, ident),
                    self.immediates@.len(),
                ) {
                    Some(v) => Ok(v),
                    None => Err(EncodeError::Unbound),
                }
            } else {
                Err(EncodeError::Unbound)
            },
        }
    }

    /// The register that `reg` stands for.
    pub open spec fn register(self, source: Seq<u8>, reg: AddrRegister) -> Result<
        Register,
        EncodeError,
    > {
        match reg {
            AddrRegister::Lit(r) => Ok(r),
            AddrRegister::Var(ident) => if in_source(source, ident) {
                match bound_register(
                    self.registers@,
                    name_of(source, ident),
                    self.registers@.len(),
                ) {
                    Some(r) => Ok(r),
                    None => Err(EncodeError::Unbound),
                }
            } else {
                Err(EncodeError::Unbound)
            },
        }
    }

    /// The operand that `mode` stands for.
    pub open spec fn operand(self, source: Seq<u8>, mode: AddressingMode) -> Result<
        Operand,
        EncodeError,
    > {
        match mode {
            AddressingMode::Immediate(imm) => match self.number(source, imm) {
                Ok(v) => Ok(Operand::Immediate(v)),
                Err(e) => Err(e),
            },
            AddressingMode::Register(reg) => match self.register(source, reg) {
                Ok(r) => Ok(Operand::Register(r)),
                Err(e) => Err(e),
            },
            AddressingMode::Direct(direct) => match self.number(source, direct.addr) {
                Ok(v) => Ok(Operand::Direct(truncated(v))),
                Err(e) => Err(e),
            },
            AddressingMode::Indirect(indirect) => match self.register(source, indirect.reg) {
                Err(e) => Err(e),
                Ok(r) => match indirect.disp {
                    None => Ok(Operand::Indirect(r, 0)),
                    Some((neg, imm)) => match self.number(source, imm) {
                        Ok(v) => Ok(Operand::Indirect(r, displacement(neg, v))),
                        Err(e) => Err(e),
                    },
                },
            },
        }
    }

    /// The argument that `arg` stands for.
    pub open spec fn argument(self, source: Seq<u8>, arg: Argument) -> Result<
        CallArgument,
        EncodeError,
    > {
        match arg {
            Argument::Register(reg) => match self.register(source, reg) {
                Ok(r) => Ok(CallArgument::Register(r)),
                Err(e) => Err(e),
            },
            Argument::Immediate(imm) => match self.number(source, imm) {
                Ok(v) => Ok(CallArgument::Value(v)),
                Err(e) => Err(e),
            },
            Argument::Ref(ident) => match self.number(source, AddrImmediate::Var(ident)) {
                Ok(v) => Ok(CallArgument::Value(v)),
                Err(e) => Err(e),
            },
        }
    }

    /// The first `n` arguments, or the error of the first that stands for
    /// nothing.
    pub open spec fn arguments(self, source: Seq<u8>, args: Seq<Argument>, n: nat) -> Result<
        Seq<CallArgument>,
        EncodeError,
    >
        decreases n,
    {
        if n == 0 {
            Ok(seq![])
        } else {
            match self.arguments(source, args, (n - 1) as nat) {
                Err(e) => Err(e),
                Ok(head) => match self.argument(source, args[n - 1]) {
                    Ok(a) => Ok(head.push(a)),
                    Err(e) => Err(e),
                },
            }
        }
    }

    /// The bytes of an instruction, or why there are none.
    pub open spec fn encoding(self, source: Seq<u8>, instruction: InstructionView) -> Result<
        Seq<u8>,
        EncodeError,
    > {
        match instruction {
            InstructionView::Mov(dst, src) => match self.operand(source, dst) {
                Err(e) => Err(e),
                Ok(d) => match self.operand(source, src) {
                    Err(e) => Err(e),
                    Ok(s) => mov_encoding(d, s),
                },
            },
            InstructionView::Movabs(dst, src) => match self.operand(source, dst) {
                Err(e) => Err(e),
                Ok(d) => match self.number(source, src) {
                    Err(e) => Err(e),
                    Ok(v) => movabs_encoding(d, v),
                },
            },
            InstructionView::Push(reg) => match self.register(source, reg) {
                Err(e) => Err(e),
                Ok(r) => Ok(push_bytes(r)),
            },
            InstructionView::Pop(reg) => match self.register(source, reg) {
                Err(e) => Err(e),
                Ok(r) => Ok(pop_bytes(r)),
            },
            InstructionView::Add(dst, src) => self.operation(source, Operation::Add, dst, src),
            InstructionView::Sub(dst, src) => self.operation(source, Operation::Sub, dst, src),
            InstructionView::Or(dst, src) => self.operation(
                source,
                Operation::Or,
                AddrRegister::Lit(dst),
                src,
            ),
            InstructionView::Xor(_, _) => Err(EncodeError::Unsupported),
            InstructionView::Call(target) => match self.operand(source, target) {
                Err(e) => Err(e),
                Ok(t) => call_encoding(t),
            },
            InstructionView::CallFn(funct, args) => match self.number(
                source,
                AddrImmediate::Var(funct),
            ) {
                Err(e) => Err(e),
                Ok(f) => match self.arguments(source, args, args.len()) {
                    Err(e) => Err(e),
                    Ok(a) => call_fn_encoding(f, a),
                },
            },
            InstructionView::Ret => Ok(ret_bytes()),
        }
    }

    /// The bytes of `op dst, src`, or why there are none.
    pub open spec fn operation(
        self,
        source: Seq<u8>,
        op: Operation,
        dst: AddrRegister,
        src: AddressingMode,
    ) -> Result<Seq<u8>, EncodeError> {
        match self.register(source, dst) {
            Err(e) => Err(e),
            Ok(d) => match self.operand(source, src) {
                Err(e) => Err(e),
                Ok(s) => op_encoding(op, d, s),
            },
        }
    }

    /// Looks the name `ident` up among the numbers.
    pub fn lookup_number(&self, source: &[u8], ident: Ident) -> (r: Result<u64, EncodeError>)
        ensures
            r == self.number(source@, AddrImmediate::Var(ident)),
    {
        if ident.start > ident.end || ident.end > source.len() {
            return Err(EncodeError::Unbound);
        }
        let mut i: usize = 0;
        while i < self.immediates.len()
            invariant
                i <= self.immediates@.len(),
                in_source(source@, ident),
                bound_number(self.immediates@, name_of(source@, ident), i as nat) is None,
            decreases self.immediates@.len() - i,
        {
            if same_bytes(&self.immediates[i].0, source, ident) {
                proof {
                    lemma_bound_number_stays(
                        self.immediates@,
                        name_of(source@, ident),
                        (i + 1) as nat,
                        self.immediates@.len(),
                    );
                }
                return Ok(self.immediates[i].1);
            }
            i = i + 1;
        }
        Err(EncodeError::Unbound)
    }

    /// Looks the name `ident` up among the registers.
    pub fn lookup_register(&self, source: &[u8], ident: Ident) -> (r: Result<
        Register,
        EncodeError,
    >)
        ensures
            r == self.register(source@, AddrRegister::Var(ident)),
    {
        if ident.start > ident.end || ident.end > source.len() {
            return Err(EncodeError::Unbound);
        }
        let mut i: usize = 0;
        while i < self.registers.len()
            invariant
                i <= self.registers@.len(),
                in_source(source@, ident),
                bound_register(self.registers@, name_of(source@, ident), i as nat) is None,
            decreases self.registers@.len() - i,
        {
            if same_bytes(&self.registers[i].0, source, ident) {
                proof {
                    lemma_bound_register_stays(
                        self.registers@,
                        name_of(source@, ident),
                        (i + 1) as nat,
                        self.registers@.len(),
                    );
                }
                return Ok(self.registers[i].1);
            }
            i = i + 1;
        }
        Err(EncodeError::Unbound)
    }

    pub fn resolve_immediate(&self, source: &[u8], imm: AddrImmediate) -> (r: Result<
        u64,
        EncodeError,
    >)
        ensures
            r == self.number(source@, imm),
    {
        match imm {
            AddrImmediate::Lit(v) => Ok(v),
            AddrImmediate::Var(ident) => self.lookup_number(source, ident),
        }
    }

    pub fn resolve_register(&self, source: &[u8], reg: AddrRegister) -> (r: Result<
        Register,
        EncodeError,
    >)
        ensures
            r == self.register(source@, reg),
    {
        match reg {
            AddrRegister::Lit(r) => Ok(r),
            AddrRegister::Var(ident) => self.lookup_register(source, ident),
        }
    }

    pub fn resolve_operand(&self, source: &[u8], mode: AddressingMode) -> (r: Result<
        Operand,
        EncodeError,
    >)
        ensures
            r == self.operand(source@, mode),
    {
        match mode {
            AddressingMode::Immediate(imm) => match self.resolve_immediate(source, imm) {
                Ok(v) => Ok(Operand::Immediate(v)),
                Err(e) => Err(e),
            },
            AddressingMode::Register(reg) => match self.resolve_register(source, reg) {
                Ok(r) => Ok(Operand::Register(r)),
                Err(e) => Err(e),
            },
            AddressingMode::Direct(direct) => match self.resolve_immediate(source, direct.addr) {
                Ok(v) => Ok(Operand::Direct(truncate(v))),
                Err(e) => Err(e),
            },
            AddressingMode::Indirect(indirect) => match self.resolve_register(
                source,
                indirect.reg,
            ) {
                Err(e) => Err(e),
                Ok(r) => match indirect.disp {
                    None => Ok(Operand::Indirect(r, 0)),
                    Some((neg, imm)) => match self.resolve_immediate(source, imm) {
                        Ok(v) => {
                            let d = truncate(v);
                            let disp = if neg {
                                if d == i32::MIN {
                                    i32::MIN
                                } else {
                                    -d
                                }
                            } else {
                                d
                            };
                            Ok(Operand::Indirect(r, disp))
                        },
                        Err(e) => Err(e),
                    },
                },
            },
        }
    }

    pub fn resolve_arguments(&self, source: &[u8], args: &Vec<Argument>) -> (r: Result<
        Vec<CallArgument>,
        EncodeError,
    >)
        ensures
            match self.arguments(source@, args@, args@.len()) {
                Ok(list) => r is Ok && r->Ok_0@ == list,
                Err(e) => r == Err::<Vec<CallArgument>, EncodeError>(e),
            },
    {
        let mut out: Vec<CallArgument> = Vec::new();
        let mut i: usize = 0;
        while i < args.len()
            invariant
                i <= args@.len(),
                self.arguments(source@, args@, i as nat) == Ok::<Seq<CallArgument>, EncodeError>(
                    out@,
                ),
            decreases args@.len() - i,
        {
            let resolved = match args[i] {
                Argument::Register(reg) => match self.resolve_register(source, reg) {
                    Ok(r) => Ok(CallArgument::Register(r)),
                    Err(e) => Err(e),
                },
                Argument::Immediate(imm) => match self.resolve_immediate(source, imm) {
                    Ok(v) => Ok(CallArgument::Value(v)),
                    Err(e) => Err(e),
                },
                Argument::Ref(ident) => match self.lookup_number(source, ident) {
                    Ok(v) => Ok(CallArgument::Value(v)),
                    Err(e) => Err(e),
                },
            };
            match resolved {
                Ok(a) => {
                    out.push(a);
                },
                Err(e) => {
                    proof {
                        lemma_arguments_fail(*self, source@, args@, (i + 1) as nat, args@.len());
                    }
                    return Err(e);
                },
            }
            i = i + 1;
        }
        Ok(out)
    }
}

/// A name that is bound among the first bindings stays bound to the same
/// number among more.
pub proof fn lemma_bound_number_stays(list: Seq<(Vec<u8>, u64)>, name: Seq<u8>, n: nat, m: nat)
    requires
        n <= m,
        bound_number(list, name, n) is Some,
    ensures
        bound_number(list, name, m) == bound_number(list, name, n),
    decreases m,
{
    if n < m {
        lemma_bound_number_stays(list, name, n, (m - 1) as nat);
    }
}

/// A name that is bound among the first bindings stays bound to the same
/// register among more.
pub proof fn lemma_bound_register_stays(
    list: Seq<(Vec<u8>, Register)>,
    name: Seq<u8>,
    n: nat,
    m: nat,
)
    requires
        n <= m,
        bound_register(list, name, n) is Some,
    ensures
        bound_register(list, name, m) == bound_register(list, name, n),
    decreases m,
{
    if n < m {
        lemma_bound_register_stays(list, name, n, (m - 1) as nat);
    }
}

/// Once an argument stands for nothing, so does every longer list.
pub proof fn lemma_arguments_fail(
    env: Bindings,
    source: Seq<u8>,
    args: Seq<Argument>,
    n: nat,
    m: nat,
)
    requires
        n <= m,
        env.arguments(source, args, n) is Err,
    ensures
        env.arguments(source, args, m) == env.arguments(source, args, n),
    decreases m,
{
    if n < m {
        lemma_arguments_fail(env, source, args, n, (m - 1) as nat);
    }
}

/// The low 32 bits of a number, read as a signed one.
pub fn truncate(v: u64) -> (r: i32)
    ensures
        r == truncated(v),
{
    proof {
        lemma_low32(v);
        let low = v as u32;
        assert(low as i32 == (if low >= 0x8000_0000u32 {
            low - 0x1_0000_0000
        } else {
            low as int
        })) by (bit_vector);
    }
    (v as u32) as i32
}

/// Tells whether `name` is the name that `ident` stands for.
pub fn same_bytes(name: &Vec<u8>, source: &[u8], ident: Ident) -> (b: bool)
    requires
        in_source(source@, ident),
    ensures
        b == (name@ == name_of(source@, ident)),
{
    if name.len() != ident.end - ident.start {
        return false;
    }
    let mut i: usize = 0;
    while i < name.len()
        invariant
            i <= name@.len(),
            in_source(source@, ident),
            name@.len() == ident.end - ident.start,
            forall|j: int| 0 <= j < i ==> name@[j] == source@[ident.start + j],
        decreases name@.len() - i,
    {
        if name[i] != source[ident.start + i] {
            proof {
                assert(name_of(source@, ident)[i as int] == source@[ident.start + i]);
            }
            return false;
        }
        i = i + 1;
    }
    proof {
        assert(name@ =~= name_of(source@, ident));
    }
    true
}

/// Encodes one instruction into `buf`, with the variables that it names
/// standing for what `env` binds them to.
pub fn emit(buf: &mut Emitter, source: &[u8], env: &Bindings, instruction: &Instruction) -> (r: Result<
    (),
    EncodeError,
>)
    ensures
        emitted(old(buf)@, final(buf)@, env.encoding(source@, instruction@), r),
{
    match instruction {
        Instruction::Mov(dst, src) => {
            let d = match env.resolve_operand(source, *dst) {
                Ok(d) => d,
                Err(e) => {
                    return Err(e);
                },
            };
            let s = match env.resolve_operand(source, *src) {
                Ok(s) => s,
                Err(e) => {
                    return Err(e);
                },
            };
            emit_mov(&mut buf.buffer, d, s)
        },
        Instruction::Movabs(dst, src) => {
            let d = match env.resolve_operand(source, *dst) {
                Ok(d) => d,
                Err(e) => {
                    return Err(e);
                },
            };
            let v = match env.resolve_immediate(source, *src) {
                Ok(v) => v,
                Err(e) => {
                    return Err(e);
                },
            };
            emit_movabs(&mut buf.buffer, d, v)
        },
        Instruction::Push(reg) => match env.resolve_register(source, *reg) {
            Ok(r) => {
                emit_push(&mut buf.buffer, r);
                Ok(())
            },
            Err(e) => Err(e),
        },
        Instruction::Pop(reg) => match env.resolve_register(source, *reg) {
            Ok(r) => {
                emit_pop(&mut buf.buffer, r);
                Ok(())
            },
            Err(e) => Err(e),
        },
        Instruction::Add(dst, src) => emit_operation(buf, source, env, Operation::Add, *dst, *src),
        Instruction::Sub(dst, src) => emit_operation(buf, source, env, Operation::Sub, *dst, *src),
        Instruction::Or(dst, src) => emit_operation(
            buf,
            source,
            env,
            Operation::Or,
            AddrRegister::Lit(*dst),
            *src,
        ),
        Instruction::Xor(_, _) => Err(EncodeError::Unsupported),
        Instruction::Call(target) => match env.resolve_operand(source, *target) {
            Ok(t) => emit_call(&mut buf.buffer, t),
            Err(e) => Err(e),
        },
        Instruction::CallFn(funct, args) => {
            let f = match env.lookup_number(source, *funct) {
                Ok(f) => f,
                Err(e) => {
                    return Err(e);
                },
            };
            let a = match env.resolve_arguments(source, &args.0) {
                Ok(a) => a,
                Err(e) => {
                    return Err(e);
                },
            };
            emit_call_fn(&mut buf.buffer, f, a.as_slice())
        },
        Instruction::Ret => {
            emit_ret(&mut buf.buffer);
            Ok(())
        },
    }
}

/// Encodes `op dst, src`.
fn emit_operation(
    buf: &mut Emitter,
    source: &[u8],
    env: &Bindings,
    op: Operation,
    dst: AddrRegister,
    src: AddressingMode,
) -> (r: Result<(), EncodeError>)
    ensures
        emitted(old(buf)@, final(buf)@, env.operation(source@, op, dst, src), r),
{
    let d = match env.resolve_register(source, dst) {
        Ok(d) => d,
        Err(e) => {
            return Err(e);
        },
    };
    let s = match env.resolve_operand(source, src) {
        Ok(s) => s,
        Err(e) => {
            return Err(e);
        },
    };
    emit_op(&mut buf.buffer, op, d, s)
}

/// What the instructions say, one after the other.
pub open spec fn views(list: Seq<Instruction>) -> Seq<InstructionView> {
    list.map_values(|i: Instruction| i@)
}

/// Whether each of the first `n` instructions can be encoded.
pub open spec fn encodable(env: Bindings, source: Seq<u8>, list: Seq<InstructionView>, n: nat) -> bool {
    forall|j: int| 0 <= j < n ==> (#[trigger] env.encoding(source, list[j])) is Ok
}

/// The bytes of the first `n` instructions, one after the other. An
/// instruction that cannot be encoded adds nothing.
pub open spec fn encodings(
    env: Bindings,
    source: Seq<u8>,
    list: Seq<InstructionView>,
    n: nat,
) -> Seq<u8>
    decreases n,
{
    if n == 0 {
        seq![]
    } else {
        encodings(env, source, list, (n - 1) as nat) + (match env.encoding(source, list[n - 1]) {
            Ok(bytes) => bytes,
            Err(_) => seq![],
        })
    }
}

/// What encoding a list of instructions owes. Where each of them can be
/// encoded, their bytes are appended one after the other. Else the bytes of
/// those in front of the first that cannot be encoded are appended, and the
/// result names that instruction and says why it cannot.
pub open spec fn emitted_all(
    before: Seq<u8>,
    after: Seq<u8>,
    env: Bindings,
    source: Seq<u8>,
    list: Seq<InstructionView>,
    r: Result<(), (usize, EncodeError)>,
) -> bool {
    match r {
        Ok(()) => encodable(env, source, list, list.len()) && after == before + encodings(
            env,
            source,
            list,
            list.len(),
        ),
        Err((i, e)) => {
            &&& i < list.len()
            &&& encodable(env, source, list, i as nat)
            &&& env.encoding(source, list[i as int]) == Err::<Seq<u8>, EncodeError>(e)
            &&& after == before + encodings(env, source, list, i as nat)
        },
    }
}

/// Encodes the instructions one after the other. Nothing is left of an
/// instruction that could not be encoded, and none after it is tried.
pub fn emit_all(
    buf: &mut Emitter,
    source: &[u8],
    env: &Bindings,
    instructions: &Vec<Instruction>,
) -> (r: Result<(), (usize, EncodeError)>)
    ensures
        emitted_all(old(buf)@, final(buf)@, *env, source@, views(instructions@), r),
{
    let ghost list = views(instructions@);
    let mut i: usize = 0;
    while i < instructions.len()
        invariant
            i <= instructions@.len(),
            list == views(instructions@),
            encodable(*env, source@, list, i as nat),
            buf@ == old(buf)@ + encodings(*env, source@, list, i as nat),
        decreases instructions@.len() - i,
    {
        proof {
            assert(list[i as int] == instructions@[i as int]@);
        }
        match emit(buf, source, env, &instructions[i]) {
            Ok(()) => {
                proof {
                    assert(buf@ =~= old(buf)@ + encodings(*env, source@, list, (i + 1) as nat));
                }
            },
            Err(e) => {
                return Err((i, e));
            },
        }
        i = i + 1;
    }
    Ok(())
}

} // verus!
