//! The jump table: for each physical address that a block jumps to, the host
//! address of the compiled target, once there is one.

use crate::jit::code::{CompiledBlock, CompiledBlockView};
use crate::jit::tables::{jump_map, JumpEntry, JumpMap};
use vstd::prelude::*;

verus! {

/// The targets of the jumps that emitted code has asked for.
pub struct JumpTable {
    table: JumpMap,
}

impl View for JumpTable {
    type V = Map<u64, Option<JumpEntry>>;

    closed spec fn view(&self) -> Map<u64, Option<JumpEntry>> {
        jump_map(self.table)
    }
}

/// The table after a query for `addr`: an address that was unknown is known
/// afterwards, unresolved.
pub open spec fn queried(before: Map<u64, Option<JumpEntry>>, addr: u64) -> Map<
    u64,
    Option<JumpEntry>,
> {
    if before.contains_key(addr) {
        before
    } else {
        before.insert(addr, None)
    }
}

/// The table after `addr` was resolved with a block entered at `ptr`: an
/// address that is known and unresolved points at the block afterwards.
pub open spec fn resolved(before: Map<u64, Option<JumpEntry>>, addr: u64, ptr: usize) -> Map<
    u64,
    Option<JumpEntry>,
> {
    if before.contains_key(addr) && before[addr] is None {
        before.insert(addr, Some(JumpEntry { target_block: ptr }))
    } else {
        before
    }
}

/// Whether an entry is resolved to a host address inside the code of `block`.
pub open spec fn points_into(entry: Option<JumpEntry>, block: CompiledBlockView) -> bool {
    match entry {
        Some(e) => block.holds(e.target_block),
        None => false,
    }
}

/// The addresses whose resolved target lies inside the code of `block`.
pub open spec fn pointing_into(table: Map<u64, Option<JumpEntry>>, block: CompiledBlockView) -> Set<
    u64,
> {
    Set::new(|k: u64| table.contains_key(k) && points_into(table[k], block))
}

impl JumpTable {
    pub fn new() -> (t: Self)
        ensures
            t@ == Map::<u64, Option<JumpEntry>>::empty(),
    {
        Self { table: JumpMap::new() }
    }

    /// The resolved target of the jump to `phys_jump_addr`. An address that
    /// the table has not seen is entered as unresolved.
    pub fn get(&mut self, phys_jump_addr: u64) -> (r: Option<JumpEntry>)
        ensures
            final(self)@ == queried(old(self)@, phys_jump_addr),
            r == final(self)@[phys_jump_addr],
    {
        match self.table.get(phys_jump_addr) {
            Some(entry) => entry,
            None => {
                self.table.insert(phys_jump_addr, None);
                None
            },
        }
    }

    /// Resolves the jump to `phys_addr` with the entry of `block`, unless it
    /// is resolved already. An address that the table has not seen stays
    /// unseen.
    pub fn resolve_with_block(&mut self, phys_addr: u64, block: &CompiledBlock) -> (r: Option<
        JumpEntry,
    >)
        ensures
            final(self)@ == resolved(old(self)@, phys_addr, block@.ptr),
            r == if old(self)@.contains_key(phys_addr) {
                final(self)@[phys_addr]
            } else {
                None
            },
    {
        match self.table.get(phys_addr) {
            Some(Some(entry)) => Some(entry),
            Some(None) => {
                let entry = JumpEntry { target_block: block.ptr() };
                self.table.insert(phys_addr, Some(entry));
                Some(entry)
            },
            None => None,
        }
    }

    /// Drops every entry whose resolved target lies inside the code of
    /// `block`. This is what has to happen when the cache drops the block.
    pub fn invalidate_block(&mut self, block: &CompiledBlock)
        ensures
            final(self)@ == old(self)@.remove_keys(pointing_into(old(self)@, block@)),
    {
        let keys = self.table.keys();
        let ghost before = jump_map(self.table);
        let mut i: usize = 0;
        while i < keys.len()
            invariant
                i <= keys@.len(),
                keys@.no_duplicates(),
                forall|k: u64| keys@.contains(k) <==> before.contains_key(k),
                forall|k: u64|
                    jump_map(self.table).contains_key(k) <==> before.contains_key(k) && !(seen(
                        keys@,
                        i as int,
                        k,
                    ) && pointing_into(before, block@).contains(k)),
                forall|k: u64| #[trigger]
                    jump_map(self.table).contains_key(k) ==> jump_map(self.table)[k] == before[k],
            decreases keys@.len() - i,
        {
            let key = keys[i];
            proof {
                assert(keys@.contains(key));
                assert(!seen(keys@, i as int, key)) by {
                    if seen(keys@, i as int, key) {
                        let j = choose|j: int| 0 <= j < i && #[trigger] keys@[j] == key;
                        assert(keys@[j] == keys@[i as int]);
                    }
                }
                assert forall|k: u64| seen(keys@, i as int + 1, k) <==> seen(keys@, i as int, k)
                    || k == key by {
                    if seen(keys@, i as int + 1, k) {
                        let j = choose|j: int| 0 <= j < i + 1 && #[trigger] keys@[j] == k;
                        if j < i {
                            assert(seen(keys@, i as int, k));
                        }
                    }
                    if seen(keys@, i as int, k) {
                        let j = choose|j: int| 0 <= j < i && #[trigger] keys@[j] == k;
                        assert(0 <= j < i + 1 && keys@[j] == k);
                    }
                    if k == key {
                        assert(keys@[i as int] == k);
                    }
                }
            }
            match self.table.get(key) {
                Some(Some(entry)) => {
                    if block.contains_host_address(entry.target_block) {
                        self.table.remove(key);
                    }
                },
                _ => {},
            }
            i = i + 1;
        }
        proof {
            assert forall|k: u64| before.contains_key(k) implies seen(keys@, i as int, k) by {
                assert(keys@.contains(k));
                let j = choose|j: int| 0 <= j < keys@.len() && keys@[j] == k;
                assert(keys@[j] == k);
            }
            assert(jump_map(self.table) =~= before.remove_keys(pointing_into(before, block@)));
        }
    }
}

/// Whether `k` stands among the first `i` keys.
pub open spec fn seen(keys: Seq<u64>, i: int, k: u64) -> bool {
    exists|j: int| 0 <= j < i && #[trigger] keys[j] == k
}

/// Once a block's entries are dropped, no entry of the table points into the
/// block.
pub proof fn lemma_no_entry_points_into_dropped_block(
    table: Map<u64, Option<JumpEntry>>,
    block: CompiledBlockView,
)
    ensures
        pointing_into(table.remove_keys(pointing_into(table, block)), block) == Set::<
            u64,
        >::empty(),
{
    assert(pointing_into(table.remove_keys(pointing_into(table, block)), block) =~= Set::<
        u64,
    >::empty());
}

} // verus!
