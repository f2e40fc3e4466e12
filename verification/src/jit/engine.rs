//! The engine: it compiles blocks on demand, drops what guest stores have
//! made stale, and decides after every suspension how execution goes on.

use crate::jit::cache::{entry_of, Cache};
use crate::jit::code::{CompiledBlock, CompiledBlockView};
use crate::jit::compiler::{
    compilation, covered, initial_view, AssembleError, Compiler, Env,
};
use crate::jit::interruption::Interruption;
use crate::jit::jump_table::{pointing_into, points_into, resolved, JumpTable};
use crate::jit::tables::JumpEntry;
use crate::mmu::map::physical;
use crate::n64::State;
use crate::utils::btree_range::{touched_keys, RangeItem};
use std::rc::Rc;
use vstd::prelude::*;

verus! {

/// The clocks of guest time that one block is compiled for.
pub const BLOCK_CYCLES: usize = 1024;

/// Why the engine could not go on.
#[derive(Debug, Clone, Copy, PartialEq, Eq, Structural)]
pub enum JitError {
    /// The guest address lies in a segment that is not directly mapped.
    Unmapped(u64),
    /// The block could not be translated.
    Assemble(AssembleError),
    /// The host code could not be made executable.
    Memory,
    /// The block covers more guest bytes than the cache can note.
    TooLarge,
}

/// What the host has to do next.
pub enum Action {
    /// Run the block from its entry.
    Execute(Rc<CompiledBlock>),
    /// Go on inside the suspended block at `resume_addr`, with the host
    /// address `target` of the jump target in the scratch register.
    Resume { resume_addr: u64, target: usize },
}

/// The engine of the translator.
pub struct JitEngine {
    cache: Cache,
    jump_table: JumpTable,
}

/// The jump table without the entries that point into one of the first `n`
/// blocks.
pub open spec fn without_blocks(
    table: Map<u64, Option<JumpEntry>>,
    blocks: Seq<(usize, Rc<CompiledBlock>)>,
    n: nat,
) -> Map<u64, Option<JumpEntry>>
    decreases n,
{
    if n == 0 {
        table
    } else {
        let rest = without_blocks(table, blocks, (n - 1) as nat);
        rest.remove_keys(pointing_into(rest, blocks[n - 1].1@))
    }
}

/// The machine code of the block that starts at `virtual_pc`, translated
/// for the budget of a block, and the number of guest bytes that it covers.
pub open spec fn translation(env: Env, state: State, virtual_pc: u64) -> Result<
    (Seq<u8>, int),
    AssembleError,
> {
    compilation(env, state.mmu.view(), initial_view(virtual_pc), BLOCK_CYCLES as nat)
}

/// What a fresh compilation of the block at `virtual_pc` owes: the code is
/// the encoding of the translated block, and the block knows where it
/// starts and how many guest bytes it covers.
pub open spec fn compiled(
    env: Env,
    state: State,
    virtual_pc: u64,
    b: CompiledBlockView,
) -> bool {
    match translation(env, state, virtual_pc) {
        Ok((bytes, len)) => {
            &&& b.code == bytes
            &&& b.start_pc == virtual_pc
            &&& b.len == len
        },
        Err(_) => false,
    }
}

/// What looking up or compiling the block at `virtual_pc` owes, from the
/// cache before to the cache after. A block that the cache has is handed
/// out and nothing changes. Else the block is translated and encoded, made
/// executable by `make_exec` and put into the cache. A block that cannot be
/// translated or encoded, one that covers more guest bytes than the cache
/// can note, and one that `make_exec` refuses is an error each, and the
/// cache stays as it was.
pub open spec fn compile_outcome<F: Fn(&Vec<u8>) -> Option<usize>>(
    before: Map<usize, RangeItem<Rc<CompiledBlock>>>,
    after: Map<usize, RangeItem<Rc<CompiledBlock>>>,
    state: State,
    env: Env,
    virtual_pc: u64,
    make_exec: &F,
    r: Result<Rc<CompiledBlock>, JitError>,
) -> bool {
    match physical(virtual_pc) {
        None => r == Err::<Rc<CompiledBlock>, JitError>(JitError::Unmapped(virtual_pc)) && after
            == before,
        Some(phys) => if before.contains_key(phys as usize) {
            &&& r == Ok::<Rc<CompiledBlock>, JitError>(before[phys as usize].data)
            &&& after == before
        } else {
            match translation(env, state, virtual_pc) {
                Err(cause) => {
                    &&& r == Err::<Rc<CompiledBlock>, JitError>(JitError::Assemble(cause))
                    &&& after == before
                },
                Ok((bytes, len)) => if len >= usize::MAX - phys {
                    &&& r == Err::<Rc<CompiledBlock>, JitError>(JitError::TooLarge)
                    &&& after == before
                } else {
                    match r {
                        Ok(b) => {
                            &&& compiled(env, state, virtual_pc, b@)
                            &&& covered(b@.len as int, BLOCK_CYCLES as nat)
                            &&& exists|code: &Vec<u8>|
                                code@ == bytes && call_ensures(make_exec, (code,), Some(b@.ptr))
                            &&& after == before.insert(phys as usize, entry_of(phys as usize, b))
                        },
                        Err(e) => {
                            &&& e == JitError::Memory
                            &&& exists|code: &Vec<u8>|
                                code@ == bytes && call_ensures(make_exec, (code,), None)
                            &&& after == before
                        },
                    }
                },
            }
        },
    }
}

/// What resolving the jump to `addr` owes once the target block is at
/// hand, from the jump table before to the jump table after: the entry of
/// the target, if the table has seen the target, points at the block unless
/// it pointed somewhere before, and is handed out. Without the block
/// nothing changes.
pub open spec fn jump_outcome(
    before: Map<u64, Option<JumpEntry>>,
    after: Map<u64, Option<JumpEntry>>,
    addr: u64,
    target: Result<Rc<CompiledBlock>, JitError>,
    r: Result<Option<JumpEntry>, JitError>,
) -> bool {
    match (target, physical(addr)) {
        (Ok(b), Some(phys)) => {
            &&& after == resolved(before, phys, b@.ptr)
            &&& r == Ok::<Option<JumpEntry>, JitError>(
                if before.contains_key(phys) {
                    after[phys]
                } else {
                    None
                },
            )
        },
        (Ok(_), None) => after == before && r == Ok::<Option<JumpEntry>, JitError>(None),
        (Err(e), _) => after == before && r == Err::<Option<JumpEntry>, JitError>(e),
    }
}

/// The cache once the blocks that a written interval reaches are gone.
pub open spec fn swept(
    cache: Map<usize, RangeItem<Rc<CompiledBlock>>>,
    written: Option<(usize, usize)>,
) -> Map<usize, RangeItem<Rc<CompiledBlock>>> {
    match written {
        Some((first, last)) => cache.remove_keys(touched_keys(cache, first, last)),
        None => cache,
    }
}

/// Whether `dropped` lists the blocks of the cache that a written interval
/// reaches: each of them, and nothing else.
pub open spec fn lists_swept(
    cache: Map<usize, RangeItem<Rc<CompiledBlock>>>,
    written: Option<(usize, usize)>,
    dropped: Seq<(usize, Rc<CompiledBlock>)>,
) -> bool {
    match written {
        Some((first, last)) => {
            &&& forall|r: int|
                0 <= r < dropped.len() ==> {
                    &&& touched_keys(cache, first, last).contains((#[trigger] dropped[r]).0)
                    &&& dropped[r].1 == cache[dropped[r].0].data
                }
            &&& forall|k: usize|
                touched_keys(cache, first, last).contains(k) ==> exists|r: int|
                    0 <= r < dropped.len() && (#[trigger] dropped[r]).0 == k
        },
        None => dropped.len() == 0,
    }
}

/// Where the guest goes on after a suspension: at the target of the jump
/// that the last block asked for, else at its program counter.
pub open spec fn next_pc(state: State) -> u64 {
    match state.interruption {
        Interruption::PrepareJump(addr) => addr,
        Interruption::Empty => state.cpu.pc,
    }
}

/// One turn of the engine, with what happens inside it named: the blocks
/// `dropped` as stale, the cache `mid` behind the resolution of a jump, the
/// target block of the jump and the entry found for it.
///
/// Stale blocks go first, with the entries of the jump table that point
/// into them. Without a jump the block at the program counter is run from
/// its entry. With a jump the target is resolved; where the jump table has
/// an entry for it the suspended block is resumed, else the target block is
/// run from its entry.
pub open spec fn turn<F: Fn(&Vec<u8>) -> Option<usize>>(
    cache: (Map<usize, RangeItem<Rc<CompiledBlock>>>, Map<usize, RangeItem<Rc<CompiledBlock>>>),
    jumps: (Map<u64, Option<JumpEntry>>, Map<u64, Option<JumpEntry>>),
    before: State,
    after: State,
    env: Env,
    make_exec: &F,
    r: Result<Action, JitError>,
    dropped: Seq<(usize, Rc<CompiledBlock>)>,
    target: Result<Rc<CompiledBlock>, JitError>,
    entry: Result<Option<JumpEntry>, JitError>,
) -> bool {
    let fresh = swept(cache.0, before.cache_invalidation);
    let known = without_blocks(jumps.0, dropped, dropped.len());
    &&& lists_swept(cache.0, before.cache_invalidation, dropped)
    &&& match before.interruption {
        Interruption::Empty => {
            &&& jumps.1 == known
            &&& compile_outcome(fresh, cache.1, after, env, before.cpu.pc, make_exec, target)
            &&& r == match target {
                Ok(b) => Ok::<Action, JitError>(Action::Execute(b)),
                Err(e) => Err::<Action, JitError>(e),
            }
        },
        Interruption::PrepareJump(addr) => {
            &&& compile_outcome(fresh, cache.1, after, env, addr, make_exec, target)
            &&& jump_outcome(known, jumps.1, addr, target, entry)
            &&& r == match (entry, target) {
                (Ok(Some(found)), _) => Ok::<Action, JitError>(
                    Action::Resume { resume_addr: before.resume_addr, target: found.target_block },
                ),
                (Ok(None), Ok(b)) => Ok::<Action, JitError>(Action::Execute(b)),
                (Ok(None), Err(e)) => Err::<Action, JitError>(e),
                (Err(e), _) => Err::<Action, JitError>(e),
            }
        },
    }
}

impl JitEngine {
    /// The blocks in the cache.
    pub closed spec fn cache(&self) -> Map<usize, RangeItem<Rc<CompiledBlock>>> {
        self.cache@
    }

    /// The jump table.
    pub closed spec fn jumps(&self) -> Map<u64, Option<JumpEntry>> {
        self.jump_table@
    }

    /// The cache is in order.
    pub closed spec fn wf(&self) -> bool {
        self.cache.wf()
    }

    pub fn new() -> (e: Self)
        ensures
            e.wf(),
            e.cache() == Map::<usize, RangeItem<Rc<CompiledBlock>>>::empty(),
            e.jumps() == Map::<u64, Option<JumpEntry>>::empty(),
    {
        Self { cache: Cache::default(), jump_table: JumpTable::new() }
    }

    /// The jump table, for the host function that looks jumps up on behalf
    /// of emitted code.
    pub fn jump_table(&mut self) -> (table: &mut JumpTable)
        requires
            old(self).wf(),
        ensures
            table@ == old(self).jumps(),
            final(self).jumps() == final(table)@,
            final(self).cache() == old(self).cache(),
            final(self).wf(),
    {
        &mut self.jump_table
    }

    /// The block that starts at the physical address `addr`, if the cache
    /// has it.
    pub fn cached(&self, addr: usize) -> (r: Option<Rc<CompiledBlock>>)
        requires
            self.wf(),
        ensures
            match r {
                Some(block) => self.cache().contains_key(addr) && block == self.cache()[addr].data,
                None => !self.cache().contains_key(addr),
            },
    {
        self.cache.get(addr)
    }

    /// Drops what the guest has written over since the engine last looked:
    /// every block whose range the written interval reaches, and every
    /// entry of the jump table that points into such a block.
    pub fn invalidate_cache(&mut self, state: &mut State) -> (dropped: Vec<
        (usize, Rc<CompiledBlock>),
    >)
        requires
            old(self).wf(),
        ensures
            final(self).wf(),
            final(state).cache_invalidation is None,
            final(state).mmu == old(state).mmu,
            final(state).cpu == old(state).cpu,
            final(state).interruption == old(state).interruption,
            final(state).resume_addr == old(state).resume_addr,
            final(self).cache() == swept(old(self).cache(), old(state).cache_invalidation),
            lists_swept(old(self).cache(), old(state).cache_invalidation, dropped@),
            final(self).jumps() == without_blocks(old(self).jumps(), dropped@, dropped@.len()),
    {
        let inv = state.cache_invalidation;
        state.cache_invalidation = None;
        match inv {
            Some((first, last)) => {
                let dropped = self.cache.invalidate_range(first, last);
                let mut i: usize = 0;
                while i < dropped.len()
                    invariant
                        i <= dropped@.len(),
                        self.cache.wf(),
                        self.cache@ == old(self).cache@.remove_keys(
                            touched_keys(old(self).cache@, first, last),
                        ),
                        self.jump_table@ == without_blocks(
                            old(self).jump_table@,
                            dropped@,
                            i as nat,
                        ),
                    decreases dropped@.len() - i,
                {
                    self.jump_table.invalidate_block(&dropped[i].1);
                    i = i + 1;
                }
                dropped
            },
            None => Vec::new(),
        }
    }

    /// The block that starts at the guest address `virtual_pc`: the one in
    /// the cache, or else a new one, which is compiled, made executable by
    /// `make_exec` and put into the cache.
    pub fn compile<F: Fn(&Vec<u8>) -> Option<usize>>(
        &mut self,
        state: &State,
        env: Env,
        virtual_pc: u64,
        make_exec: &F,
    ) -> (r: Result<Rc<CompiledBlock>, JitError>)
        requires
            old(self).wf(),
            state.mmu.wf(),
            forall|code: &Vec<u8>| call_requires(make_exec, (code,)),
        ensures
            final(self).wf(),
            final(self).jumps() == old(self).jumps(),
            compile_outcome(
                old(self).cache(),
                final(self).cache(),
                *state,
                env,
                virtual_pc,
                make_exec,
                r,
            ),
    {
        let physical_pc = match state.cpu.translate_virtual(virtual_pc) {
            Some(p) => p as usize,
            None => {
                return Err(JitError::Unmapped(virtual_pc));
            },
        };
        if let Some(block) = self.cache.get(physical_pc) {
            return Ok(block);
        }
        let compiler = Compiler::new(env, virtual_pc);
        let (code, len) = match compiler.compile(&state.cpu, &state.mmu, BLOCK_CYCLES) {
            Ok(pair) => pair,
            Err(e) => {
                return Err(JitError::Assemble(e));
            },
        };
        if len >= usize::MAX - physical_pc {
            return Err(JitError::TooLarge);
        }
        let ptr = match make_exec(&code) {
            Some(ptr) => ptr,
            None => {
                return Err(JitError::Memory);
            },
        };
        let block = CompiledBlock::new(code, ptr, virtual_pc, len);
        Ok(self.cache.insert(physical_pc, block))
    }

    /// The block that starts at the guest's program counter.
    pub fn compile_current_pc<F: Fn(&Vec<u8>) -> Option<usize>>(
        &mut self,
        state: &State,
        env: Env,
        make_exec: &F,
    ) -> (r: Result<Rc<CompiledBlock>, JitError>)
        requires
            old(self).wf(),
            state.mmu.wf(),
            forall|code: &Vec<u8>| call_requires(make_exec, (code,)),
        ensures
            final(self).wf(),
            final(self).jumps() == old(self).jumps(),
            compile_outcome(
                old(self).cache(),
                final(self).cache(),
                *state,
                env,
                state.cpu.pc,
                make_exec,
                r,
            ),
    {
        self.compile(state, env, state.cpu.pc, make_exec)
    }

    /// Resolves the jump to the guest address `addr`: the target block is
    /// compiled if it has to be, and the entry of the jump table for the
    /// target, if the table has seen the target, points at the block
    /// afterwards unless it pointed somewhere before.
    pub fn resolve_jump<F: Fn(&Vec<u8>) -> Option<usize>>(
        &mut self,
        state: &State,
        env: Env,
        addr: u64,
        make_exec: &F,
    ) -> (r: Result<Option<JumpEntry>, JitError>)
        requires
            old(self).wf(),
            state.mmu.wf(),
            forall|code: &Vec<u8>| call_requires(make_exec, (code,)),
        ensures
            final(self).wf(),
            exists|target: Result<Rc<CompiledBlock>, JitError>|
                {
                    &&& compile_outcome(
                        old(self).cache(),
                        final(self).cache(),
                        *state,
                        env,
                        addr,
                        make_exec,
                        target,
                    )
                    &&& #[trigger] jump_outcome(
                        old(self).jumps(),
                        final(self).jumps(),
                        addr,
                        target,
                        r,
                    )
                },
    {
        let ghost jumps = self.jumps();
        let compiled = self.compile(state, env, addr, make_exec);
        let ghost target = compiled;
        let block = match compiled {
            Ok(block) => block,
            Err(e) => {
                proof {
                    assert(jump_outcome(
                        jumps,
                        self.jumps(),
                        addr,
                        target,
                        Err::<Option<JumpEntry>, JitError>(e),
                    ));
                }
                return Err(e);
            },
        };
        let entry = match state.cpu.translate_virtual(addr) {
            Some(phys) => self.jump_table.resolve_with_block(phys, &block),
            None => None,
        };
        proof {
            assert(jump_outcome(
                jumps,
                self.jumps(),
                addr,
                target,
                Ok::<Option<JumpEntry>, JitError>(entry),
            ));
        }
        Ok(entry)
    }

    /// One turn of the engine between two runs of emitted code: stale blocks
    /// are dropped, the interruption that the last block left is consumed,
    /// and the next thing to run is found. After a jump the guest's program
    /// counter is the target of the jump; where the jump table has the
    /// target resolved the suspended block is resumed, else the block at
    /// the program counter is run from its entry.
    pub fn dispatch<F: Fn(&Vec<u8>) -> Option<usize>>(
        &mut self,
        state: &mut State,
        env: Env,
        make_exec: &F,
    ) -> (r: Result<Action, JitError>)
        requires
            old(self).wf(),
            old(state).mmu.wf(),
            forall|code: &Vec<u8>| call_requires(make_exec, (code,)),
        ensures
            final(self).wf(),
            final(state).mmu == old(state).mmu,
            final(state).resume_addr == old(state).resume_addr,
            final(state).cache_invalidation is None,
            final(state).interruption == Interruption::Empty,
            final(state).cpu.pc == next_pc(*old(state)),
            exists|
                dropped: Seq<(usize, Rc<CompiledBlock>)>,
                target: Result<Rc<CompiledBlock>, JitError>,
                entry: Result<Option<JumpEntry>, JitError>,
            |
                #[trigger] turn(
                    (old(self).cache(), final(self).cache()),
                    (old(self).jumps(), final(self).jumps()),
                    *old(state),
                    *final(state),
                    env,
                    make_exec,
                    r,
                    dropped,
                    target,
                    entry,
                ),
    {
        let ghost cache = self.cache();
        let ghost jumps = self.jumps();
        let dropped = self.invalidate_cache(state);
        let ghost fresh = self.cache();
        let ghost known = self.jumps();
        let interruption = state.interruption.take();
        match interruption {
            Interruption::PrepareJump(addr) => {
                state.cpu.pc = addr;
                let found = self.resolve_jump(state, env, addr, make_exec);
                let ghost target = choose|target: Result<Rc<CompiledBlock>, JitError>|
                    {
                        &&& compile_outcome(
                            fresh,
                            self.cache(),
                            *state,
                            env,
                            addr,
                            make_exec,
                            target,
                        )
                        &&& #[trigger] jump_outcome(known, self.jumps(), addr, target, found)
                    };
                let ghost mid = self.cache();
                let r = match found {
                    Err(e) => Err(e),
                    Ok(Some(entry)) => Ok(
                        Action::Resume {
                            resume_addr: state.resume_addr,
                            target: entry.target_block,
                        },
                    ),
                    Ok(None) => match self.compile_current_pc(state, env, make_exec) {
                        Ok(code) => Ok(Action::Execute(code)),
                        Err(e) => Err(e),
                    },
                };
                proof {
                    assert(self.cache() == mid);
                    assert(turn(
                        (cache, self.cache()),
                        (jumps, self.jumps()),
                        *old(state),
                        *state,
                        env,
                        make_exec,
                        r,
                        dropped@,
                        target,
                        found,
                    ));
                }
                r
            },
            Interruption::Empty => {
                let compiled = self.compile_current_pc(state, env, make_exec);
                let ghost target = compiled;
                let r = match compiled {
                    Ok(code) => Ok(Action::Execute(code)),
                    Err(e) => Err(e),
                };
                proof {
                    assert(turn(
                        (cache, self.cache()),
                        (jumps, self.jumps()),
                        *old(state),
                        *state,
                        env,
                        make_exec,
                        r,
                        dropped@,
                        target,
                        Ok::<Option<JumpEntry>, JitError>(None),
                    ));
                }
                r
            },
        }
    }
}

/// A jump that emitted code has asked the jump table for is resolved to the
/// block at its target. Where the target block can be had, the cache holds
/// it under the physical address of the target afterwards, compiled only if
/// it was missing, and the entry is handed out: an entry that was resolved
/// before is left as it was, one that was not points at the entry of the
/// block.
pub proof fn lemma_asked_jump_is_resolved<F: Fn(&Vec<u8>) -> Option<usize>>(
    cache: (Map<usize, RangeItem<Rc<CompiledBlock>>>, Map<usize, RangeItem<Rc<CompiledBlock>>>),
    jumps: (Map<u64, Option<JumpEntry>>, Map<u64, Option<JumpEntry>>),
    state: State,
    env: Env,
    addr: u64,
    make_exec: &F,
    target: Result<Rc<CompiledBlock>, JitError>,
    r: Result<Option<JumpEntry>, JitError>,
    phys: u64,
)
    requires
        compile_outcome(cache.0, cache.1, state, env, addr, make_exec, target),
        jump_outcome(jumps.0, jumps.1, addr, target, r),
        physical(addr) == Some(phys),
        jumps.0.contains_key(phys),
        target is Ok,
    ensures
        cache.1.contains_key(phys as usize),
        cache.1[phys as usize].data == target->Ok_0,
        cache.0.contains_key(phys as usize) ==> cache.1 == cache.0,
        r matches Ok(Some(entry)) && jumps.1[phys] == Some(entry) && match jumps.0[phys] {
            Some(known) => entry == known && jumps.1 == jumps.0,
            None => entry.target_block == (target->Ok_0)@.ptr,
        },
{
}

/// A turn without a store behind it reuses the block that the cache has
/// for the place where the guest goes on: the cache stays as it is, nothing
/// is compiled, and the turn hands out that block or resumes the suspended
/// one at the entry that the jump table has for the place.
pub proof fn lemma_turn_reuses_cached_block<F: Fn(&Vec<u8>) -> Option<usize>>(
    cache: (Map<usize, RangeItem<Rc<CompiledBlock>>>, Map<usize, RangeItem<Rc<CompiledBlock>>>),
    jumps: (Map<u64, Option<JumpEntry>>, Map<u64, Option<JumpEntry>>),
    before: State,
    after: State,
    env: Env,
    make_exec: &F,
    r: Result<Action, JitError>,
    dropped: Seq<(usize, Rc<CompiledBlock>)>,
    target: Result<Rc<CompiledBlock>, JitError>,
    entry: Result<Option<JumpEntry>, JitError>,
    phys: u64,
)
    requires
        turn(cache, jumps, before, after, env, make_exec, r, dropped, target, entry),
        before.cache_invalidation is None,
        physical(next_pc(before)) == Some(phys),
        cache.0.contains_key(phys as usize),
    ensures
        cache.1 == cache.0,
        target == Ok::<Rc<CompiledBlock>, JitError>(cache.0[phys as usize].data),
        match r {
            Ok(Action::Execute(b)) => b == cache.0[phys as usize].data,
            Ok(Action::Resume { resume_addr, target }) => {
                &&& before.interruption is PrepareJump
                &&& resume_addr == before.resume_addr
                &&& jumps.0.contains_key(phys)
                &&& jumps.1[phys] == Some(JumpEntry { target_block: target })
            },
            Err(_) => false,
        },
{
}

/// A block that a store of the guest has reached is gone after the next
/// turn. Its key is in the cache again only where the guest goes on at that
/// very place, and then with a block that the turn has compiled anew.
pub proof fn lemma_turn_drops_written_block<F: Fn(&Vec<u8>) -> Option<usize>>(
    cache: (Map<usize, RangeItem<Rc<CompiledBlock>>>, Map<usize, RangeItem<Rc<CompiledBlock>>>),
    jumps: (Map<u64, Option<JumpEntry>>, Map<u64, Option<JumpEntry>>),
    before: State,
    after: State,
    env: Env,
    make_exec: &F,
    r: Result<Action, JitError>,
    dropped: Seq<(usize, Rc<CompiledBlock>)>,
    target: Result<Rc<CompiledBlock>, JitError>,
    entry: Result<Option<JumpEntry>, JitError>,
    k: usize,
)
    requires
        turn(cache, jumps, before, after, env, make_exec, r, dropped, target, entry),
        before.cache_invalidation matches Some((first, last)) && touched_keys(
            cache.0,
            first,
            last,
        ).contains(k),
    ensures
        !swept(cache.0, before.cache_invalidation).contains_key(k),
        exists|i: int| 0 <= i < dropped.len() && (#[trigger] dropped[i]).0 == k,
        cache.1.contains_key(k) ==> {
            &&& physical(next_pc(before)) matches Some(phys) && phys as usize == k
            &&& target matches Ok(b) && cache.1[k] == entry_of(k, b) && compiled(
                env,
                after,
                next_pc(before),
                b@,
            )
        },
{
}

/// Dropping the entries that point into blocks takes entries away and
/// changes none.
pub proof fn lemma_without_blocks_shrinks(
    table: Map<u64, Option<JumpEntry>>,
    blocks: Seq<(usize, Rc<CompiledBlock>)>,
    n: nat,
    k: u64,
)
    requires
        without_blocks(table, blocks, n).contains_key(k),
    ensures
        table.contains_key(k),
        without_blocks(table, blocks, n)[k] == table[k],
    decreases n,
{
    if n > 0 {
        lemma_without_blocks_shrinks(table, blocks, (n - 1) as nat, k);
    }
}

/// Once the entries of dropped blocks are gone, no entry of the jump table
/// points into any of the dropped blocks.
pub proof fn lemma_no_entry_points_into_dropped(
    table: Map<u64, Option<JumpEntry>>,
    blocks: Seq<(usize, Rc<CompiledBlock>)>,
    n: nat,
    i: int,
    k: u64,
)
    requires
        0 <= i < n <= blocks.len(),
        without_blocks(table, blocks, n).contains_key(k),
    ensures
        !points_into(without_blocks(table, blocks, n)[k], blocks[i].1@),
    decreases n,
{
    let rest = without_blocks(table, blocks, (n - 1) as nat);
    if i == n - 1 {
        assert(!pointing_into(rest, blocks[i].1@).contains(k));
    } else {
        lemma_no_entry_points_into_dropped(table, blocks, (n - 1) as nat, i, k);
    }
}

} // verus!
