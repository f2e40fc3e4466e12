//! The register allocator: which host register each guest register lives in,
//! which host registers are free, and which binding goes when none is.

use crate::codegen::register::{lemma_register_of_num, register_of, Register};
use crate::jit::tables::{binding_map, free_set, BindingMap, FreeSet, HostRegister};
use vstd::prelude::*;

verus! {

/// A slot of guest state that can live in a host register.
#[derive(Debug, Clone, Copy, Hash, PartialEq, Eq, Structural)]
pub enum GuestRegister {
    /// A general purpose register of the guest.
    Cpu(u8),
    /// The program counter of the guest.
    Pc,
}

impl GuestRegister {
    pub fn cpu(index: u8) -> (g: Self)
        ensures
            g == GuestRegister::Cpu(index),
    {
        Self::Cpu(index)
    }

    pub fn pc() -> (g: Self)
        ensures
            g == GuestRegister::Pc,
    {
        Self::Pc
    }

    /// The number under which the tables keep the slot.
    pub open spec fn code(self) -> u16 {
        match self {
            GuestRegister::Cpu(i) => i as u16,
            GuestRegister::Pc => 256,
        }
    }

    /// The slot that the tables keep under `code`.
    pub open spec fn of_code(code: u16) -> GuestRegister {
        if code < 256 {
            GuestRegister::Cpu(code as u8)
        } else {
            GuestRegister::Pc
        }
    }

    pub fn to_code(&self) -> (code: u16)
        ensures
            code == self.code(),
            code <= 256,
    {
        match self {
            GuestRegister::Cpu(i) => *i as u16,
            GuestRegister::Pc => 256,
        }
    }

    pub fn from_code(code: u16) -> (g: GuestRegister)
        requires
            code <= 256,
        ensures
            g == GuestRegister::of_code(code),
            g.code() == code,
    {
        if code < 256 {
            GuestRegister::Cpu(code as u8)
        } else {
            GuestRegister::Pc
        }
    }
}

/// Why a guest register got no host register.
#[derive(Debug, Clone, Copy, PartialEq, Eq, Structural)]
pub enum InsertError {
    /// The guest register has a host register already.
    AlreadyReserved,
    /// There is no host register to hand out and none to take back.
    NoRegisters,
    /// The borrow counter has reached its last value.
    Exhausted,
}

/// The host registers that are never handed out: the state pointer, the
/// stack and frame pointers, and `rbx`.
pub open spec fn reserved(reg: Register) -> bool {
    reg == Register::Rsi || reg == Register::Rsp || reg == Register::Rbp || reg == Register::Rbx
}

/// Tells whether a host register is never handed out.
pub fn is_reserved(reg: Register) -> (b: bool)
    ensures
        b == reserved(reg),
{
    match reg {
        Register::Rsi | Register::Rsp | Register::Rbp | Register::Rbx => true,
        _ => false,
    }
}

/// The state of the allocator: the bindings by the code of the guest
/// register, the numbers of the free host registers, and the borrow counter.
pub struct RegistersView {
    pub regs: Map<u16, HostRegister>,
    pub free: Set<u8>,
    pub borrow_index: usize,
}

/// The lowest-numbered free host register.
pub open spec fn is_lowest_free(free: Set<u8>, n: u8) -> bool {
    &&& n < 16
    &&& free.contains(n)
    &&& forall|m: u8| m < n ==> !free.contains(m)
}

/// No host register is free.
pub open spec fn none_free(free: Set<u8>) -> bool {
    forall|m: u8| m < 16 ==> !free.contains(m)
}

/// The binding that was asked for the longest time ago.
pub open spec fn is_oldest(regs: Map<u16, HostRegister>, k: u16) -> bool {
    &&& regs.contains_key(k)
    &&& forall|k2: u16| #[trigger]
        regs.contains_key(k2) ==> regs[k].borrow_index <= regs[k2].borrow_index
}

/// No guest register is bound.
pub open spec fn none_bound(regs: Map<u16, HostRegister>) -> bool {
    forall|k: u16| !regs.contains_key(k)
}

/// The bindings of the guest registers with a code below `n`, in the order of
/// the codes.
pub open spec fn bindings_below(regs: Map<u16, HostRegister>, n: nat) -> Seq<
    (GuestRegister, Register),
>
    decreases n,
{
    if n == 0 {
        seq![]
    } else if regs.contains_key((n - 1) as u16) {
        bindings_below(regs, (n - 1) as nat).push(
            (GuestRegister::of_code((n - 1) as u16), regs[(n - 1) as u16].register),
        )
    } else {
        bindings_below(regs, (n - 1) as nat)
    }
}

impl RegistersView {
    /// The host register of `guest` and its borrow index, if it has one.
    pub open spec fn binding(self, guest: GuestRegister) -> Option<HostRegister> {
        if self.regs.contains_key(guest.code()) {
            Some(self.regs[guest.code()])
        } else {
            None
        }
    }

    /// Whether `reg` is free.
    pub open spec fn is_free(self, reg: Register) -> bool {
        self.free.contains(reg.num() as u8)
    }

    /// Whether some guest register lives in `reg`.
    pub open spec fn is_bound(self, reg: Register) -> bool {
        exists|k: u16| #[trigger] self.regs.contains_key(k) && self.regs[k].register == reg
    }

    /// All bindings, in the order of the codes of the guest registers.
    pub open spec fn bindings(self) -> Seq<(GuestRegister, Register)> {
        bindings_below(self.regs, 257)
    }

    /// What always holds: a free register is not bound, no register is bound
    /// twice, reserved registers are neither free nor bound, the borrow
    /// indices are distinct and below the counter, and the counter is 0
    /// while nothing is bound.
    pub open spec fn wf(self) -> bool {
        &&& forall|k: u16| #[trigger] self.regs.contains_key(k) ==> k <= 256
        &&& forall|n: u8| #[trigger]
            self.free.contains(n) ==> n < 16 && !reserved(register_of(n as int))
        &&& forall|k: u16| #[trigger]
            self.regs.contains_key(k) ==> {
                &&& !self.free.contains(self.regs[k].register.num() as u8)
                &&& !reserved(self.regs[k].register)
                &&& self.regs[k].borrow_index < self.borrow_index
            }
        &&& forall|k1: u16, k2: u16|
            #[trigger] self.regs.contains_key(k1) && #[trigger] self.regs.contains_key(k2) && k1
                != k2 ==> {
                &&& self.regs[k1].register != self.regs[k2].register
                &&& self.regs[k1].borrow_index != self.regs[k2].borrow_index
            }
        &&& none_bound(self.regs) ==> self.borrow_index == 0
    }

    /// The state after `guest` got the free register `host`.
    pub open spec fn with_free(self, guest: GuestRegister, host: Register) -> RegistersView {
        RegistersView {
            regs: self.regs.insert(
                guest.code(),
                HostRegister { register: host, borrow_index: self.borrow_index },
            ),
            free: self.free.remove(host.num() as u8),
            borrow_index: (self.borrow_index + 1) as usize,
        }
    }

    /// The state after `guest` took the register of `victim`.
    pub open spec fn with_evicted(self, guest: GuestRegister, victim: GuestRegister) -> RegistersView {
        RegistersView {
            regs: self.regs.remove(victim.code()).insert(
                guest.code(),
                HostRegister {
                    register: self.regs[victim.code()].register,
                    borrow_index: self.borrow_index,
                },
            ),
            free: self.free,
            borrow_index: (self.borrow_index + 1) as usize,
        }
    }

    /// The state after `guest`, which is bound, was asked for.
    pub open spec fn touched(self, guest: GuestRegister) -> RegistersView {
        if self.borrow_index < usize::MAX {
            RegistersView {
                regs: self.regs.insert(
                    guest.code(),
                    HostRegister {
                        register: self.regs[guest.code()].register,
                        borrow_index: self.borrow_index,
                    },
                ),
                free: self.free,
                borrow_index: (self.borrow_index + 1) as usize,
            }
        } else {
            self
        }
    }

    /// The lowest-numbered free register, if any register is free.
    pub open spec fn lowest_free(self) -> Option<Register> {
        if exists|n: u8| is_lowest_free(self.free, n) {
            Some(register_of((choose|n: u8| is_lowest_free(self.free, n)) as int))
        } else {
            None
        }
    }

    /// The guest register whose binding was asked for the longest time ago.
    pub open spec fn oldest(self) -> GuestRegister {
        GuestRegister::of_code(choose|k: u16| is_oldest(self.regs, k))
    }

    /// What `insert` of `guest` does: the state afterwards, and the result.
    pub open spec fn insert(self, guest: GuestRegister) -> (
        RegistersView,
        Result<(Register, Option<GuestRegister>), InsertError>,
    ) {
        if self.binding(guest) is Some {
            (self, Err(InsertError::AlreadyReserved))
        } else if none_free(self.free) && none_bound(self.regs) {
            (self, Err(InsertError::NoRegisters))
        } else if self.borrow_index == usize::MAX {
            (self, Err(InsertError::Exhausted))
        } else {
            match self.lowest_free() {
                Some(host) => (self.with_free(guest, host), Ok((host, None))),
                None => (
                    self.with_evicted(guest, self.oldest()),
                    Ok((self.regs[self.oldest().code()].register, Some(self.oldest()))),
                ),
            }
        }
    }

    /// What `get` of `guest` does: the state afterwards, and the result.
    pub open spec fn get(self, guest: GuestRegister) -> (RegistersView, Option<Register>) {
        match self.binding(guest) {
            Some(h) => (self.touched(guest), Some(h.register)),
            None => (self, None),
        }
    }

    /// The state after `host` was taken away from the allocator: the
    /// register is not free, and the guest register that lived in it is not
    /// bound any more. The other bindings stay.
    pub open spec fn excluded(self, host: Register) -> RegistersView {
        let regs = self.regs.remove_keys(
            Set::new(|k: u16| self.regs.contains_key(k) && self.regs[k].register == host),
        );
        RegistersView {
            regs,
            free: self.free.remove(host.num() as u8),
            borrow_index: if none_bound(regs) {
                0
            } else {
                self.borrow_index
            },
        }
    }

    /// The state after the binding of `guest` was dropped.
    pub open spec fn freed(self, guest: GuestRegister) -> RegistersView {
        let regs = self.regs.remove(guest.code());
        RegistersView {
            regs,
            free: if self.regs.contains_key(guest.code()) {
                self.free.insert(self.regs[guest.code()].register.num() as u8)
            } else {
                self.free
            },
            borrow_index: if none_bound(regs) {
                0
            } else {
                self.borrow_index
            },
        }
    }
}

/// What `insert` owes for each outcome.
pub open spec fn inserted(
    before: RegistersView,
    after: RegistersView,
    guest: GuestRegister,
    r: Result<(Register, Option<GuestRegister>), InsertError>,
) -> bool {
    match r {
        Err(InsertError::AlreadyReserved) => before.binding(guest) is Some && after == before,
        Err(InsertError::NoRegisters) => {
            &&& before.binding(guest) is None
            &&& none_free(before.free)
            &&& none_bound(before.regs)
            &&& after == before
        },
        Err(InsertError::Exhausted) => {
            &&& before.binding(guest) is None
            &&& !(none_free(before.free) && none_bound(before.regs))
            &&& before.borrow_index == usize::MAX
            &&& after == before
        },
        Ok((host, None)) => {
            &&& before.binding(guest) is None
            &&& before.borrow_index < usize::MAX
            &&& is_lowest_free(before.free, host.num() as u8)
            &&& after == before.with_free(guest, host)
        },
        Ok((host, Some(victim))) => {
            &&& before.binding(guest) is None
            &&& before.borrow_index < usize::MAX
            &&& none_free(before.free)
            &&& is_oldest(before.regs, victim.code())
            &&& host == before.regs[victim.code()].register
            &&& after == before.with_evicted(guest, victim)
        },
    }
}

/// What `insert` owes is what `RegistersView::insert` computes.
pub proof fn lemma_inserted_is_insert(
    before: RegistersView,
    after: RegistersView,
    guest: GuestRegister,
    r: Result<(Register, Option<GuestRegister>), InsertError>,
)
    requires
        before.wf(),
        inserted(before, after, guest, r),
    ensures
        (after, r) == before.insert(guest),
{
    match r {
        Ok((host, None)) => {
            let n = host.num() as u8;
            lemma_register_of_num(host);
            assert(is_lowest_free(before.free, n));
            let m = choose|m: u8| is_lowest_free(before.free, m);
            assert(m == n);
        },
        Ok((host, Some(victim))) => {
            assert(is_oldest(before.regs, victim.code()));
            let k = choose|k: u16| is_oldest(before.regs, k);
            assert(before.regs.contains_key(k));
            assert(before.regs.contains_key(victim.code()));
            assert(k == victim.code());
            assert(GuestRegister::of_code(victim.code()) == victim);
            assert forall|n: u8| !is_lowest_free(before.free, n) by {
                if is_lowest_free(before.free, n) {
                    assert(before.free.contains(n));
                }
            }
        },
        Err(_) => {},
    }
}

/// The allocator of host registers.
pub struct Registers {
    regs: BindingMap,
    free_regs: FreeSet,
    borrow_index: usize,
}

impl View for Registers {
    type V = RegistersView;

    closed spec fn view(&self) -> RegistersView {
        RegistersView {
            regs: binding_map(self.regs),
            free: free_set(self.free_regs),
            borrow_index: self.borrow_index,
        }
    }
}

/// The numbers of the registers in `regs` that are not reserved.
pub open spec fn allocatable(regs: Seq<Register>) -> Set<u8> {
    Set::new(
        |n: u8|
            exists|i: int|
                0 <= i < regs.len() && (#[trigger] regs[i]).num() == n && !reserved(regs[i]),
    )
}

impl Registers {
    /// An allocator over all sixteen host registers but the reserved ones.
    pub fn new() -> (r: Self)
        ensures
            r@.wf(),
            r@.regs == Map::<u16, HostRegister>::empty(),
            r@.borrow_index == 0,
            forall|reg: Register| r@.is_free(reg) <==> !reserved(reg),
    {
        let mut all: Vec<Register> = Vec::new();
        let mut n: u8 = 0;
        while n < 16
            invariant
                n <= 16,
                all@.len() == n,
                forall|i: int| 0 <= i < n ==> all@[i] == register_of(i),
            decreases 16 - n,
        {
            match Register::from_number(n) {
                Some(reg) => all.push(reg),
                None => {},
            }
            n = n + 1;
        }
        let r = Self::with_registers(all.as_slice());
        proof {
            assert forall|reg: Register| r@.is_free(reg) <==> !reserved(reg) by {
                lemma_register_of_num(reg);
                if !reserved(reg) {
                    assert(all@[reg.num()].num() == reg.num());
                }
            }
        }
        r
    }

    /// An allocator that hands out the registers in `regs` but the reserved
    /// ones.
    pub fn with_registers(regs: &[Register]) -> (r: Self)
        ensures
            r@.wf(),
            r@.regs == Map::<u16, HostRegister>::empty(),
            r@.free == allocatable(regs@),
            r@.borrow_index == 0,
    {
        let mut free_regs = FreeSet::new();
        let mut i: usize = 0;
        while i < regs.len()
            invariant
                i <= regs@.len(),
                free_set(free_regs) == allocatable(regs@.take(i as int)),
            decreases regs@.len() - i,
        {
            let reg = regs[i];
            let ghost before = free_set(free_regs);
            if !is_reserved(reg) {
                free_regs.insert(reg.number());
            }
            proof {
                let head = regs@.take(i as int);
                let next = regs@.take(i as int + 1);
                assert forall|n: u8| free_set(free_regs).contains(n) <==> allocatable(
                    next,
                ).contains(n) by {
                    if free_set(free_regs).contains(n) {
                        if before.contains(n) {
                            let j = choose|j: int|
                                0 <= j < head.len() && (#[trigger] head[j]).num() == n
                                    && !reserved(head[j]);
                            assert(next[j].num() == n);
                        } else {
                            assert(next[i as int].num() == n);
                        }
                    }
                    if allocatable(next).contains(n) {
                        let j = choose|j: int|
                            0 <= j < next.len() && (#[trigger] next[j]).num() == n && !reserved(
                                next[j],
                            );
                        if j < i {
                            assert(head[j].num() == n);
                        }
                    }
                }
                assert(free_set(free_regs) =~= allocatable(next));
            }
            i = i + 1;
        }
        let r = Self { regs: BindingMap::new(), free_regs, borrow_index: 0 };
        proof {
            assert(regs@.take(i as int) =~= regs@);
            assert forall|n: u8| #[trigger] r@.free.contains(n) implies n < 16 && !reserved(
                register_of(n as int),
            ) by {
                let j = choose|j: int|
                    0 <= j < regs@.len() && (#[trigger] regs@[j]).num() == n && !reserved(
                        regs@[j],
                    );
                lemma_register_of_num(regs@[j]);
            }
        }
        r
    }

    /// The lowest-numbered free register.
    fn lowest_free(&self) -> (r: Option<Register>)
        requires
            self@.wf(),
        ensures
            match r {
                Some(reg) => is_lowest_free(self@.free, reg.num() as u8),
                None => none_free(self@.free),
            },
    {
        let mut n: u8 = 0;
        while n < 16
            invariant
                n <= 16,
                forall|m: u8| m < n ==> !free_set(self.free_regs).contains(m),
            decreases 16 - n,
        {
            if self.free_regs.contains(n) {
                return Register::from_number(n);
            }
            n = n + 1;
        }
        None
    }

    /// The binding with the lowest borrow index.
    fn oldest(&self) -> (r: Option<(u16, HostRegister)>)
        requires
            self@.wf(),
        ensures
            match r {
                Some((k, h)) => is_oldest(self@.regs, k) && self@.regs[k] == h,
                None => none_bound(self@.regs),
            },
    {
        let mut best: Option<(u16, HostRegister)> = None;
        let mut code: u16 = 0;
        while code <= 256
            invariant
                code <= 257,
                match best {
                    Some((k, h)) => {
                        &&& binding_map(self.regs).contains_key(k)
                        &&& binding_map(self.regs)[k] == h
                        &&& forall|k2: u16|
                            k2 < code && #[trigger] binding_map(self.regs).contains_key(k2)
                                ==> h.borrow_index <= binding_map(self.regs)[k2].borrow_index
                    },
                    None => forall|k2: u16|
                        k2 < code ==> !binding_map(self.regs).contains_key(k2),
                },
            decreases 257 - code,
        {
            match self.regs.get(code) {
                Some(h) => {
                    match best {
                        Some((_, b)) => {
                            if h.borrow_index < b.borrow_index {
                                best = Some((code, h));
                            }
                        },
                        None => {
                            best = Some((code, h));
                        },
                    }
                },
                None => {},
            }
            code = code + 1;
        }
        best
    }

    /// Binds `guest` to a host register: the lowest-numbered free one, or,
    /// where none is free, the one of the binding that was asked for the
    /// longest time ago, which is then dropped and named in the result so
    /// that the caller can spill it.
    pub fn insert(&mut self, guest: GuestRegister) -> (r: Result<
        (Register, Option<GuestRegister>),
        InsertError,
    >)
        requires
            old(self)@.wf(),
        ensures
            final(self)@.wf(),
            inserted(old(self)@, final(self)@, guest, r),
            (final(self)@, r) == old(self)@.insert(guest),
    {
        let r = self.insert_binding(guest);
        proof {
            lemma_inserted_is_insert(old(self)@, self@, guest, r);
        }
        r
    }

    fn insert_binding(&mut self, guest: GuestRegister) -> (r: Result<
        (Register, Option<GuestRegister>),
        InsertError,
    >)
        requires
            old(self)@.wf(),
        ensures
            final(self)@.wf(),
            inserted(old(self)@, final(self)@, guest, r),
    {
        let code = guest.to_code();
        if self.regs.get(code).is_some() {
            return Err(InsertError::AlreadyReserved);
        }
        let (host, dropped) = match self.lowest_free() {
            Some(next) => (next, None),
            None => match self.oldest() {
                None => {
                    return Err(InsertError::NoRegisters);
                },
                Some((victim, binding)) => (binding.register, Some(victim)),
            },
        };
        if self.borrow_index == usize::MAX {
            return Err(InsertError::Exhausted);
        }
        let evicted = match dropped {
            None => {
                self.free_regs.remove(host.number());
                None
            },
            Some(victim) => {
                self.regs.remove(victim);
                Some(GuestRegister::from_code(victim))
            },
        };
        self.regs.insert(code, HostRegister { register: host, borrow_index: self.borrow_index });
        self.borrow_index = self.borrow_index + 1;
        proof {
            lemma_register_of_num(host);
            assert(self@.regs.contains_key(code));
            match evicted {
                None => {
                    assert(self@ == old(self)@.with_free(guest, host));
                },
                Some(v) => {
                    assert(self@ == old(self)@.with_evicted(guest, v));
                },
            }
        }
        Ok((host, evicted))
    }

    /// The host register of `guest`, if it has one. Asking counts as a use.
    pub fn get(&mut self, guest: GuestRegister) -> (r: Option<Register>)
        requires
            old(self)@.wf(),
        ensures
            final(self)@.wf(),
            (final(self)@, r) == old(self)@.get(guest),
    {
        let code = guest.to_code();
        match self.regs.get(code) {
            Some(host) => {
                if self.borrow_index < usize::MAX {
                    self.regs.insert(
                        code,
                        HostRegister { register: host.register, borrow_index: self.borrow_index },
                    );
                    self.borrow_index = self.borrow_index + 1;
                }
                proof {
                    assert(self@.regs.contains_key(code));
                }
                Some(host.register)
            },
            None => None,
        }
    }

    /// The host register of `guest`: the one it has, which counts as a use,
    /// or else a newly bound one, with the guest register that had to give it
    /// up.
    pub fn get_or_insert(&mut self, guest: GuestRegister) -> (r: Result<
        (Register, Option<GuestRegister>),
        InsertError,
    >)
        requires
            old(self)@.wf(),
        ensures
            final(self)@.wf(),
            match old(self)@.binding(guest) {
                Some(h) => {
                    &&& final(self)@ == old(self)@.touched(guest)
                    &&& r == Ok::<(Register, Option<GuestRegister>), InsertError>(
                        (h.register, None),
                    )
                },
                None => (final(self)@, r) == old(self)@.insert(guest),
            },
    {
        match self.get(guest) {
            Some(register) => Ok((register, None)),
            None => self.insert(guest),
        }
    }

    /// The host register of `guest`, if it has one, without counting as a
    /// use.
    pub fn peek(&self, guest: GuestRegister) -> (r: Option<Register>)
        ensures
            r == match self@.binding(guest) {
                Some(h) => Some(h.register),
                None => None,
            },
    {
        match self.regs.get(guest.to_code()) {
            Some(host) => Some(host.register),
            None => None,
        }
    }

    /// The guest register that lives in `host_reg`.
    pub fn find_by_host(&self, host_reg: Register) -> (r: Option<(GuestRegister, Register)>)
        requires
            self@.wf(),
        ensures
            match r {
                Some((guest, reg)) => reg == host_reg && self@.regs.contains_key(guest.code())
                    && self@.regs[guest.code()].register == host_reg,
                None => !self@.is_bound(host_reg),
            },
    {
        let mut code: u16 = 0;
        while code <= 256
            invariant
                code <= 257,
                forall|k: u16|
                    k < code && #[trigger] binding_map(self.regs).contains_key(k) ==> binding_map(
                        self.regs,
                    )[k].register != host_reg,
            decreases 257 - code,
        {
            match self.regs.get(code) {
                Some(h) => {
                    if h.register == host_reg {
                        return Some((GuestRegister::from_code(code), host_reg));
                    }
                },
                None => {},
            }
            code = code + 1;
        }
        None
    }

    /// Drops the binding of `guest`, whose host register is then free. Once
    /// no binding is left the borrow counter starts over.
    pub fn free(&mut self, guest_reg: GuestRegister) -> (r: Option<(GuestRegister, Register)>)
        requires
            old(self)@.wf(),
        ensures
            final(self)@.wf(),
            final(self)@ == old(self)@.freed(guest_reg),
            r == match old(self)@.binding(guest_reg) {
                Some(h) => Some((guest_reg, h.register)),
                None => None,
            },
    {
        let code = guest_reg.to_code();
        let mut dropped = None;
        match self.regs.remove(code) {
            Some(host) => {
                proof {
                    lemma_register_of_num(host.register);
                }
                self.free_regs.insert(host.register.number());
                dropped = Some((guest_reg, host.register));
            },
            None => {},
        }
        if self.regs.is_empty() {
            self.borrow_index = 0;
        }
        proof {
            assert(self@.regs =~= old(self)@.regs.remove(code));
            assert(self@ == old(self)@.freed(guest_reg));
        }
        dropped
    }

    /// Takes `host_reg` away from the allocator, so that no guest register
    /// gets it from then on. Where a guest register lives in it, that
    /// binding is dropped, and returned.
    pub fn exclude_register(&mut self, host_reg: Register) -> (r: Option<
        (GuestRegister, Register),
    >)
        requires
            old(self)@.wf(),
        ensures
            final(self)@.wf(),
            final(self)@ == old(self)@.excluded(host_reg),
            !final(self)@.is_free(host_reg),
            !final(self)@.is_bound(host_reg),
            forall|k: u16|
                #![trigger final(self)@.regs.contains_key(k)]
                old(self)@.regs.contains_key(k) && old(self)@.regs[k].register != host_reg
                    ==> final(self)@.regs.contains_key(k) && final(self)@.regs[k] == old(
                    self,
                )@.regs[k],
            match r {
                Some((guest, reg)) => {
                    &&& reg == host_reg
                    &&& old(self)@.regs.contains_key(guest.code())
                    &&& old(self)@.regs[guest.code()].register == host_reg
                },
                None => !old(self)@.is_bound(host_reg),
            },
    {
        let ghost before = self@;
        let dropped = match self.find_by_host(host_reg) {
            Some((guest_reg, _)) => self.free(guest_reg),
            None => None,
        };
        let ghost between = self@;
        self.free_regs.remove(host_reg.number());
        proof {
            assert(self@.regs == between.regs);
            assert(self@.free == between.free.remove(host_reg.num() as u8));
            assert forall|n: u8| #[trigger] self@.free.contains(n) implies n < 16 && !reserved(
                register_of(n as int),
            ) by {
                assert(between.free.contains(n));
            }
            let gone = Set::new(
                |k: u16| before.regs.contains_key(k) && before.regs[k].register == host_reg,
            );
            assert(self@.regs =~= before.regs.remove_keys(gone)) by {
                assert forall|k: u16| self@.regs.contains_key(k) <==> before.regs.remove_keys(
                    gone,
                ).contains_key(k) by {
                    if before.regs.contains_key(k) && before.regs[k].register == host_reg {
                        assert(before.is_bound(host_reg));
                    }
                }
            }
            assert(self@.free =~= before.free.remove(host_reg.num() as u8));
            assert(self@ == before.excluded(host_reg));
        }
        dropped
    }

    /// All bindings, in the order of the codes of the guest registers.
    pub fn iter(&self) -> (v: Vec<(GuestRegister, Register)>)
        requires
            self@.wf(),
        ensures
            v@ == self@.bindings(),
    {
        let mut v: Vec<(GuestRegister, Register)> = Vec::new();
        let mut code: u16 = 0;
        while code <= 256
            invariant
                code <= 257,
                v@ == bindings_below(binding_map(self.regs), code as nat),
            decreases 257 - code,
        {
            match self.regs.get(code) {
                Some(h) => {
                    v.push((GuestRegister::from_code(code), h.register));
                },
                None => {},
            }
            code = code + 1;
        }
        v
    }

    /// Whether no guest register is bound.
    pub fn is_empty(&self) -> (b: bool)
        ensures
            b == none_bound(self@.regs),
    {
        self.regs.is_empty()
    }
}

/// A register that `insert` hands out is bound to no guest register but the
/// one that was dropped for it, and afterwards to none but the new one.
pub proof fn lemma_insert_hands_out_unbound_register(
    before: RegistersView,
    after: RegistersView,
    guest: GuestRegister,
    host: Register,
    evicted: Option<GuestRegister>,
)
    requires
        before.wf(),
        inserted(before, after, guest, Ok((host, evicted))),
    ensures
        forall|k: u16| #[trigger]
            before.regs.contains_key(k) && before.regs[k].register == host ==> evicted == Some(
                GuestRegister::of_code(k),
            ),
        forall|k: u16| #[trigger]
            after.regs.contains_key(k) && after.regs[k].register == host ==> k == guest.code(),
        after.binding(guest) == Some(
            HostRegister { register: host, borrow_index: before.borrow_index },
        ),
        !after.is_free(host),
{
    lemma_register_of_num(host);
    match evicted {
        None => {
            assert forall|k: u16| #[trigger]
                before.regs.contains_key(k) && before.regs[k].register == host implies false by {
                assert(!before.free.contains(before.regs[k].register.num() as u8));
            }
        },
        Some(victim) => {
            let v = victim.code();
            assert forall|k: u16| #[trigger]
                before.regs.contains_key(k) && before.regs[k].register == host implies evicted
                == Some(GuestRegister::of_code(k)) by {
                assert(before.regs.contains_key(v));
                assert(k == v);
            }
        },
    }
}

/// Where no register is free and some guest register is bound, `insert` of an
/// unbound guest register drops the binding with the lowest borrow index.
pub proof fn lemma_insert_evicts_oldest(
    before: RegistersView,
    after: RegistersView,
    guest: GuestRegister,
    r: Result<(Register, Option<GuestRegister>), InsertError>,
)
    requires
        before.wf(),
        before.binding(guest) is None,
        none_free(before.free),
        !none_bound(before.regs),
        before.borrow_index < usize::MAX,
        inserted(before, after, guest, r),
    ensures
        r matches Ok((host, Some(victim))) && is_oldest(before.regs, victim.code()) && host
            == before.regs[victim.code()].register,
        after.binding(guest) is Some,
        forall|k: u16| #[trigger]
            after.regs.contains_key(k) ==> k == guest.code() || before.regs.contains_key(k),
{
    match r {
        Ok((host, None)) => {
            assert(before.free.contains(host.num() as u8));
        },
        _ => {},
    }
}

/// After `free` of a guest register at a moment when no register was free,
/// the next `insert` hands out the register that was freed.
pub proof fn lemma_free_then_insert_reuses_register(
    before: RegistersView,
    freed: GuestRegister,
    after: RegistersView,
    guest: GuestRegister,
    r: Result<(Register, Option<GuestRegister>), InsertError>,
)
    requires
        before.wf(),
        before.binding(freed) is Some,
        none_free(before.free),
        before.freed(freed).binding(guest) is None,
        before.freed(freed).borrow_index < usize::MAX,
        inserted(before.freed(freed), after, guest, r),
    ensures
        r == Ok::<(Register, Option<GuestRegister>), InsertError>(
            (before.regs[freed.code()].register, None),
        ),
{
    let mid = before.freed(freed);
    let reg = before.regs[freed.code()].register;
    lemma_register_of_num(reg);
    assert(mid.free.contains(reg.num() as u8));
    match r {
        Ok((host, None)) => {
            lemma_register_of_num(host);
            assert(mid.free.contains(host.num() as u8));
            assert(host.num() == reg.num());
            assert(register_of(host.num()) == register_of(reg.num()));
        },
        _ => {},
    }
}

/// Once `free` has dropped the last binding the borrow counter is zero.
pub proof fn lemma_free_resets_counter(before: RegistersView, guest: GuestRegister)
    requires
        none_bound(before.freed(guest).regs),
    ensures
        before.freed(guest).borrow_index == 0,
{
}

/// `free` gives the register of the dropped binding back, and keeps the
/// invariant.
pub proof fn lemma_freed_wf(before: RegistersView, guest: GuestRegister)
    requires
        before.wf(),
    ensures
        before.freed(guest).wf(),
        before.binding(guest) matches Some(h) ==> before.freed(guest).is_free(h.register),
{
    let after = before.freed(guest);
    if before.regs.contains_key(guest.code()) {
        let reg = before.regs[guest.code()].register;
        lemma_register_of_num(reg);
        assert forall|k: u16| #[trigger] after.regs.contains_key(k) implies !after.free.contains(
            after.regs[k].register.num() as u8,
        ) by {
            assert(before.regs.contains_key(k));
            assert(before.regs.contains_key(guest.code()));
            lemma_register_of_num(after.regs[k].register);
            if after.regs[k].register.num() == reg.num() {
                assert(register_of(after.regs[k].register.num()) == register_of(reg.num()));
            }
        }
    }
}

/// A register that was taken away from the allocator is never handed out:
/// `insert` returns another one, and leaves the register neither free nor
/// bound.
pub proof fn lemma_insert_spares_excluded_register(
    before: RegistersView,
    after: RegistersView,
    guest: GuestRegister,
    r: Result<(Register, Option<GuestRegister>), InsertError>,
    host: Register,
)
    requires
        before.wf(),
        inserted(before, after, guest, r),
        !before.is_free(host),
        !before.is_bound(host),
    ensures
        r matches Ok((reg, _)) ==> reg != host,
        !after.is_free(host),
        !after.is_bound(host),
{
    lemma_register_of_num(host);
    match r {
        Ok((reg, None)) => {
            lemma_register_of_num(reg);
            assert(reg != host);
            assert forall|k: u16| #[trigger]
                after.regs.contains_key(k) implies after.regs[k].register != host by {
                if k != guest.code() {
                    assert(before.regs.contains_key(k));
                }
            }
        },
        Ok((reg, Some(victim))) => {
            assert(before.regs.contains_key(victim.code()));
            assert forall|k: u16| #[trigger]
                after.regs.contains_key(k) implies after.regs[k].register != host by {
                if k != guest.code() {
                    assert(before.regs.contains_key(k));
                }
            }
        },
        Err(_) => {},
    }
}

/// Nor does it come back when a binding is dropped or asked for.
pub proof fn lemma_free_spares_excluded_register(
    before: RegistersView,
    guest: GuestRegister,
    host: Register,
)
    requires
        before.wf(),
        !before.is_free(host),
        !before.is_bound(host),
    ensures
        !before.freed(guest).is_free(host),
        !before.freed(guest).is_bound(host),
        !before.get(guest).0.is_free(host),
        !before.get(guest).0.is_bound(host),
{
    lemma_register_of_num(host);
    let after = before.freed(guest);
    if before.regs.contains_key(guest.code()) {
        lemma_register_of_num(before.regs[guest.code()].register);
    }
    assert forall|k: u16| #[trigger] after.regs.contains_key(k) implies after.regs[k].register
        != host by {
        assert(before.regs.contains_key(k));
    }
    let asked = before.get(guest).0;
    assert forall|k: u16| #[trigger] asked.regs.contains_key(k) implies asked.regs[k].register
        != host by {
        assert(before.regs.contains_key(k) || k == guest.code());
        assert(before.regs.contains_key(guest.code()) || asked == before);
    }
}

} // verus!
