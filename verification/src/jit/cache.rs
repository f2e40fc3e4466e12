//! The translation cache: compiled blocks by the physical address of their
//! first instruction, dropped when the guest writes into what they cover.

use crate::jit::code::CompiledBlock;
use crate::utils::btree_range::{
    in_both, lemma_touches_is_intersection, touched_keys, touches, BTreeRange, RangeItem,
};
use std::rc::Rc;
use vstd::prelude::*;

verus! {

/// The compiled blocks, each with the range of guest addresses it covers.
pub struct Cache {
    blocks: BTreeRange<Rc<CompiledBlock>>,
}

impl View for Cache {
    type V = Map<usize, RangeItem<Rc<CompiledBlock>>>;

    closed spec fn view(&self) -> Map<usize, RangeItem<Rc<CompiledBlock>>> {
        self.blocks@
    }
}

/// `Rc::clone`: another pointer to the same block.
#[verifier::external_body]
fn share(block: &Rc<CompiledBlock>) -> (r: Rc<CompiledBlock>)
    ensures
        r == *block,
{
    Rc::clone(block)
}

/// The entry under which a block that starts at `addr` is kept: its range
/// ends after the last address the block covers.
pub open spec fn entry_of(addr: usize, block: Rc<CompiledBlock>) -> RangeItem<Rc<CompiledBlock>> {
    RangeItem { data: block, end: (addr + block@.len + 1) as usize }
}

/// What a lookup owes: a block that is there is returned as it is and the
/// cache stays as it was; a block that was built is in the cache afterwards,
/// under the address asked for.
pub open spec fn fetched(
    before: Map<usize, RangeItem<Rc<CompiledBlock>>>,
    after: Map<usize, RangeItem<Rc<CompiledBlock>>>,
    addr: usize,
    block: Rc<CompiledBlock>,
) -> bool {
    if before.contains_key(addr) {
        block == before[addr].data && after == before
    } else {
        after == before.insert(addr, entry_of(addr, block))
    }
}

impl Cache {
    /// The entries are in order.
    pub closed spec fn wf(&self) -> bool {
        self.blocks.wf()
    }

    /// The block that starts at `addr`, if the cache has it.
    pub fn get(&self, addr: usize) -> (r: Option<Rc<CompiledBlock>>)
        requires
            self.wf(),
        ensures
            match r {
                Some(block) => self@.contains_key(addr) && block == self@[addr].data,
                None => !self@.contains_key(addr),
            },
    {
        match self.blocks.get_exact(addr) {
            Some(block) => Some(share(block)),
            None => None,
        }
    }

    /// Puts `block` into the cache as the block that starts at `addr`.
    pub fn insert(&mut self, addr: usize, block: CompiledBlock) -> (r: Rc<CompiledBlock>)
        requires
            old(self).wf(),
            addr + block@.len < usize::MAX,
        ensures
            final(self).wf(),
            *r == block,
            final(self)@ == old(self)@.insert(addr, entry_of(addr, r)),
    {
        let block = Rc::new(block);
        let end = addr + block.len() + 1;
        self.blocks.insert_range(addr, end, share(&block));
        block
    }

    /// The block that starts at `addr`: the one in the cache, or else the
    /// one that `f` builds, which is then put into the cache. Where the
    /// cache has the block nothing is asked of `f`, which is not called.
    /// Else `f` must be callable, and the block that it builds must end
    /// below the last address of the machine.
    pub fn get_or_insert_with<F: FnOnce() -> CompiledBlock>(&mut self, addr: usize, f: F) -> (r:
        Rc<CompiledBlock>)
        requires
            old(self).wf(),
            !old(self)@.contains_key(addr) ==> call_requires(f, ()) && forall|b: CompiledBlock|
                call_ensures(f, (), b) ==> addr + b@.len < usize::MAX,
        ensures
            final(self).wf(),
            fetched(old(self)@, final(self)@, addr, r),
            !old(self)@.contains_key(addr) ==> call_ensures(f, (), *r),
    {
        if let Some(block) = self.get(addr) {
            return block;
        }
        let block = f();
        self.insert(addr, block)
    }

    /// Drops every block whose range the interval `[inv_start, inv_end]`
    /// reaches, and hands the dropped blocks back.
    pub fn invalidate_range(&mut self, inv_start: usize, inv_end: usize) -> (dropped: Vec<
        (usize, Rc<CompiledBlock>),
    >)
        requires
            old(self).wf(),
        ensures
            final(self).wf(),
            final(self)@ == old(self)@.remove_keys(touched_keys(old(self)@, inv_start, inv_end)),
            forall|r: int|
                0 <= r < dropped@.len() ==> {
                    &&& touched_keys(old(self)@, inv_start, inv_end).contains(
                        (#[trigger] dropped@[r]).0,
                    )
                    &&& dropped@[r].1 == old(self)@[dropped@[r].0].data
                },
            forall|k: usize|
                touched_keys(old(self)@, inv_start, inv_end).contains(k) ==> exists|r: int|
                    0 <= r < dropped@.len() && (#[trigger] dropped@[r]).0 == k,
    {
        self.blocks.remove_touching(inv_start, inv_end)
    }
}

impl Default for Cache {
    /// A cache that holds no block.
    fn default() -> (c: Cache)
        ensures
            c.wf(),
            c@ == Map::<usize, RangeItem<Rc<CompiledBlock>>>::empty(),
    {
        Self { blocks: BTreeRange::new() }
    }
}

/// A second lookup under the same address returns the block of the first
/// and leaves the cache as the first left it.
pub proof fn lemma_lookup_is_idempotent(
    c0: Map<usize, RangeItem<Rc<CompiledBlock>>>,
    c1: Map<usize, RangeItem<Rc<CompiledBlock>>>,
    c2: Map<usize, RangeItem<Rc<CompiledBlock>>>,
    addr: usize,
    first: Rc<CompiledBlock>,
    second: Rc<CompiledBlock>,
)
    requires
        fetched(c0, c1, addr, first),
        fetched(c1, c2, addr, second),
    ensures
        second == first,
        c2 == c1,
{
}

/// A lookup changes nothing but the block under the address asked for: the
/// block that is handed out is in the cache under that address afterwards,
/// a block that was built with the range from the address to the last guest
/// byte that it covers, and every other block is as it was.
pub proof fn lemma_lookup_keeps_other_blocks(
    before: Map<usize, RangeItem<Rc<CompiledBlock>>>,
    after: Map<usize, RangeItem<Rc<CompiledBlock>>>,
    addr: usize,
    block: Rc<CompiledBlock>,
    other: usize,
)
    requires
        fetched(before, after, addr, block),
        other != addr,
    ensures
        after.contains_key(addr),
        after[addr].data == block,
        !before.contains_key(addr) ==> after[addr].end == (addr + block@.len + 1) as usize,
        after.contains_key(other) == before.contains_key(other),
        before.contains_key(other) ==> after[other] == before[other],
{
}

/// Invalidation drops exactly the blocks whose range and the interval have
/// an address in common: a block is there afterwards if and only if it was
/// there before and no address lies in both.
pub proof fn lemma_invalidation_is_exact(
    before: Map<usize, RangeItem<Rc<CompiledBlock>>>,
    inv_start: usize,
    inv_end: usize,
    addr: usize,
)
    ensures
        before.remove_keys(touched_keys(before, inv_start, inv_end)).contains_key(addr) <==> (
        before.contains_key(addr) && !touches(addr, before[addr].end, inv_start, inv_end)),
        touches(addr, before[addr].end, inv_start, inv_end) <==> exists|x: usize|
            #![trigger in_both(addr, before[addr].end, inv_start, inv_end, x)]
            in_both(addr, before[addr].end, inv_start, inv_end, x),
{
    lemma_touches_is_intersection(addr, before[addr].end, inv_start, inv_end);
}

/// A block that survives an invalidation is still found under its address,
/// with its range.
pub proof fn lemma_survivors_stay_fetchable(
    before: Map<usize, RangeItem<Rc<CompiledBlock>>>,
    inv_start: usize,
    inv_end: usize,
    addr: usize,
)
    requires
        before.contains_key(addr),
        !touches(addr, before[addr].end, inv_start, inv_end),
    ensures
        before.remove_keys(touched_keys(before, inv_start, inv_end)).contains_key(addr),
        before.remove_keys(touched_keys(before, inv_start, inv_end))[addr] == before[addr],
{
}

} // verus!
