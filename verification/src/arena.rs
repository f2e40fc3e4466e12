//! An arena: one block of memory, made of pages, in which values are kept as
//! bytes, each behind the one before. A value is known by the offset of its
//! first byte, which stays the same while the arena grows. Cells in the
//! arena count how often their value is borrowed.

use vstd::prelude::*;

verus! {

/// The size of a page of the arena.
pub const PAGE_SIZE_IN_BYTES: u32 = 65536;

/// The number of pages that hold `size` bytes.
pub open spec fn pages_of(size: u32) -> int {
    size / 65536 + if size % 65536 > 0 {
        1int
    } else {
        0int
    }
}

/// The bytes `bytes` with `data` written over them from position `at` on.
pub open spec fn written(bytes: Seq<u8>, at: int, data: Seq<u8>) -> Seq<u8> {
    bytes.take(at) + data + bytes.skip(at + data.len())
}

/// Counts the pages that hold `size` bytes.
pub fn pages_for(size: u32) -> (n: u32)
    ensures
        n == pages_of(size),
        size > 0 ==> n > 0,
        n <= 65536,
{
    let rest: u32 = if size % PAGE_SIZE_IN_BYTES > 0 {
        1
    } else {
        0
    };
    size / PAGE_SIZE_IN_BYTES + rest
}

/// The arena.
pub struct Arena {
    memory: Vec<u8>,
    index: usize,
}

/// What an arena holds: its memory, and the offset at which the next value
/// goes.
pub struct ArenaView {
    pub memory: Seq<u8>,
    pub index: nat,
}

impl View for Arena {
    type V = ArenaView;

    closed spec fn view(&self) -> ArenaView {
        ArenaView { memory: self.memory@, index: self.index as nat }
    }
}

/// A value in the arena: the offset of its first byte and its length.
#[derive(Debug, Clone, Copy, PartialEq, Eq, Structural)]
pub struct ArenaBox {
    offset: usize,
    len: usize,
}

impl Arena {
    /// The memory is made of whole pages, and values go behind its first
    /// byte.
    pub open spec fn wf(&self) -> bool {
        &&& 1 <= self@.index <= self@.memory.len()
        &&& self@.memory.len() % 65536 == 0
    }

    /// An arena of at least `size` bytes, all zero: as many pages as hold
    /// them. There is none where the machine cannot address that many bytes.
    pub fn new(size: u32) -> (r: Option<Arena>)
        requires
            size > 0,
        ensures
            r is Some <==> pages_of(size) * 65536 <= usize::MAX,
            r matches Some(a) ==> {
                &&& a.wf()
                &&& a@.index == 1
                &&& a@.memory == Seq::new((pages_of(size) * 65536) as nat, |i: int| 0u8)
            },
    {
        let pages = pages_for(size) as u64;
        let bytes: u64 = pages * 65536;
        if bytes > usize::MAX as u64 {
            return None;
        }
        let memory: Vec<u8> = vec![0u8; bytes as usize];
        proof {
            assert(memory@ =~= Seq::new((pages_of(size) * 65536) as nat, |i: int| 0u8));
        }
        Some(Arena { memory, index: 1 })
    }

    /// The number of pages of the memory.
    pub fn pages(&self) -> (n: usize)
        ensures
            n == self@.memory.len() / 65536,
    {
        self.memory.len() / 65536
    }

    /// The offset at which the next value goes.
    pub fn index(&self) -> (n: usize)
        ensures
            n == self@.index,
    {
        self.index
    }

    /// Adds `pages` pages of zero bytes behind the memory. What the arena
    /// holds stays where it is. Tells whether it did: it does not where the
    /// machine cannot address that many bytes.
    pub fn grow(&mut self, pages: u32) -> (done: bool)
        requires
            old(self).wf(),
        ensures
            final(self).wf(),
            final(self)@.index == old(self)@.index,
            done == (old(self)@.memory.len() + pages * 65536 <= usize::MAX),
            done ==> final(self)@.memory == old(self)@.memory + Seq::new(
                (pages * 65536) as nat,
                |i: int| 0u8,
            ),
            !done ==> final(self)@ == old(self)@,
    {
        let more: u64 = (pages as u64) * 65536;
        if more > (usize::MAX - self.memory.len()) as u64 {
            return false;
        }
        let fresh: Vec<u8> = vec![0u8; more as usize];
        self.memory.extend_from_slice(fresh.as_slice());
        proof {
            assert(self.memory@ =~= old(self).memory@ + Seq::new(
                (pages * 65536) as nat,
                |i: int| 0u8,
            ));
        }
        true
    }

    /// Puts the bytes of a value behind the values that are there, and
    /// hands out its offset. Nothing happens where the memory has too few
    /// bytes left.
    pub fn allocate(&mut self, data: &[u8]) -> (r: Option<usize>)
        requires
            old(self).wf(),
        ensures
            final(self).wf(),
            match r {
                Some(offset) => {
                    &&& offset == old(self)@.index
                    &&& offset + data@.len() <= old(self)@.memory.len()
                    &&& final(self)@.index == offset + data@.len()
                    &&& final(self)@.memory == written(old(self)@.memory, offset as int, data@)
                },
                None => {
                    &&& old(self)@.index + data@.len() > old(self)@.memory.len()
                    &&& final(self)@ == old(self)@
                },
            },
    {
        if data.len() > self.memory.len() - self.index {
            return None;
        }
        Some(self.put(data))
    }

    /// Puts the bytes of a value behind the values that are there.
    fn put(&mut self, data: &[u8]) -> (offset: usize)
        requires
            old(self).wf(),
            old(self)@.index + data@.len() <= old(self)@.memory.len(),
        ensures
            final(self).wf(),
            offset == old(self)@.index,
            final(self)@.index == offset + data@.len(),
            final(self)@.memory == written(old(self)@.memory, offset as int, data@),
    {
        let offset = self.index;
        let len = self.memory.len();
        let ghost before = self.memory@;
        let mut i: usize = 0;
        while i < data.len()
            invariant
                i <= data@.len(),
                offset + data@.len() <= len,
                self.memory@.len() == len,
                before.len() == len,
                self.index == offset,
                self.memory@ == before.take(offset as int) + data@.take(i as int) + before.skip(
                    offset + i,
                ),
            decreases data@.len() - i,
        {
            self.memory[offset + i] = data[i];
            proof {
                assert(self.memory@ =~= before.take(offset as int) + data@.take(i as int + 1)
                    + before.skip(offset + i + 1));
            }
            i = i + 1;
        }
        proof {
            assert(data@.take(i as int) =~= data@);
        }
        self.index = offset + data.len();
        offset
    }

    /// Puts the bytes of a slice of values into the arena.
    pub fn boxed_slice(&mut self, slice: &[u8]) -> (r: Option<ArenaBox>)
        requires
            old(self).wf(),
        ensures
            final(self).wf(),
            match r {
                Some(b) => {
                    &&& b.at() == old(self)@.index
                    &&& b.size() == slice@.len()
                    &&& b.at() + b.size() <= old(self)@.memory.len()
                    &&& final(self)@.index == b.at() + b.size()
                    &&& final(self)@.memory == written(old(self)@.memory, b.at() as int, slice@)
                },
                None => {
                    &&& old(self)@.index + slice@.len() > old(self)@.memory.len()
                    &&& final(self)@ == old(self)@
                },
            },
    {
        match self.allocate(slice) {
            Some(offset) => Some(ArenaBox { offset, len: slice.len() }),
            None => None,
        }
    }

    /// The bytes of the value `b`.
    pub fn get(&self, b: ArenaBox) -> (bytes: &[u8])
        requires
            b.at() + b.size() <= self@.memory.len(),
        ensures
            bytes@ == self@.memory.subrange(b.at() as int, b.at() + b.size()),
    {
        proof {
            assert(self.memory@.len() == self.memory.len());
        }
        vstd::slice::slice_subrange(self.memory.as_slice(), b.offset, b.offset + b.len)
    }

    /// The offset in the arena of the byte at the address `addr`, where the
    /// memory of the arena starts at the address `base`. There is none where
    /// the byte is not in the arena.
    pub fn wasm_offset(&self, base: usize, addr: usize) -> (r: Option<u32>)
        requires
            base + self@.memory.len() <= usize::MAX,
            self@.memory.len() <= 0x1_0000_0000,
        ensures
            r == if base <= addr < base + self@.memory.len() {
                Some((addr - base) as u32)
            } else {
                None
            },
    {
        let end = base + self.memory.len();
        if addr < base || addr >= end {
            None
        } else {
            Some((addr - base) as u32)
        }
    }
}

impl ArenaBox {
    /// The offset of the first byte of the value.
    pub closed spec fn at(self) -> usize {
        self.offset
    }

    /// The number of bytes of the value.
    pub closed spec fn size(self) -> usize {
        self.len
    }

    /// Puts the bytes of a value into the arena.
    pub fn new(arena: &mut Arena, data: &[u8]) -> (b: ArenaBox)
        requires
            old(arena).wf(),
            old(arena)@.index + data@.len() <= old(arena)@.memory.len(),
        ensures
            final(arena).wf(),
            b.at() == old(arena)@.index,
            b.size() == data@.len(),
            final(arena)@.index == b.at() + b.size(),
            final(arena)@.memory == written(old(arena)@.memory, b.at() as int, data@),
    {
        ArenaBox { offset: arena.put(data), len: data.len() }
    }

    /// Puts the bytes of a slice of values into the arena.
    pub fn boxed_slice(arena: &mut Arena, slice: &[u8]) -> (b: ArenaBox)
        requires
            old(arena).wf(),
            old(arena)@.index + slice@.len() <= old(arena)@.memory.len(),
        ensures
            final(arena).wf(),
            b.at() == old(arena)@.index,
            b.size() == slice@.len(),
            final(arena)@.index == b.at() + b.size(),
            final(arena)@.memory == written(old(arena)@.memory, b.at() as int, slice@),
    {
        ArenaBox::new(arena, slice)
    }

    /// The offset of the value in the arena.
    pub fn wasm_offset(&self) -> (n: usize)
        ensures
            n == self.at(),
    {
        self.offset
    }

    /// The number of bytes of the value.
    pub fn len(&self) -> (n: usize)
        ensures
            n == self.size(),
    {
        self.len
    }
}

/// The count of a cell once its value is borrowed to read: one more, where
/// nobody writes and the count can still grow.
pub open spec fn shared_after(count: isize) -> Option<isize> {
    if 0 <= count < isize::MAX {
        Some((count + 1) as isize)
    } else {
        None
    }
}

/// The count of a cell once its value is borrowed to write: -1, where
/// nobody has borrowed the value.
pub open spec fn exclusive_after(count: isize) -> Option<isize> {
    if count == 0 {
        Some(-1isize)
    } else {
        None
    }
}

/// A value of the arena as it is borrowed to read.
#[derive(Debug, PartialEq, Eq)]
pub struct ArenaRef {
    data: ArenaBox,
}

/// A value of the arena as it is borrowed to write.
#[derive(Debug, PartialEq, Eq)]
pub struct ArenaRefMut {
    data: ArenaBox,
}

/// A value in the arena that is borrowed to read by many or to write by
/// one. Its count is the number of those who read, or -1 while one writes.
#[derive(Debug, PartialEq, Eq)]
pub struct ArenaCell {
    data: ArenaBox,
    borrow: isize,
}

impl ArenaRef {
    /// The value that is borrowed.
    pub closed spec fn value(&self) -> ArenaBox {
        self.data
    }

    /// The value that is borrowed.
    pub fn data(&self) -> (b: ArenaBox)
        ensures
            b == self.value(),
    {
        self.data
    }

    /// Another borrow of the same value: the cell counts one more. The count
    /// must be able to grow.
    pub fn clone(&self, cell: &mut ArenaCell) -> (r: ArenaRef)
        requires
            old(cell).count() < isize::MAX,
        ensures
            r.value() == self.value(),
            final(cell).value() == old(cell).value(),
            final(cell).count() == old(cell).count() + 1,
    {
        cell.borrow = cell.borrow + 1;
        ArenaRef { data: self.data }
    }
}

impl ArenaRefMut {
    /// The value that is borrowed.
    pub closed spec fn value(&self) -> ArenaBox {
        self.data
    }

    /// The value that is borrowed.
    pub fn data(&self) -> (b: ArenaBox)
        ensures
            b == self.value(),
    {
        self.data
    }
}

impl ArenaCell {
    /// The value of the cell.
    pub closed spec fn value(&self) -> ArenaBox {
        self.data
    }

    /// The count of the cell.
    pub closed spec fn count(&self) -> isize {
        self.borrow
    }

    /// A cell for a value whose bytes are put into the arena. Nobody has
    /// borrowed it.
    pub fn new(arena: &mut Arena, data: &[u8]) -> (c: ArenaCell)
        requires
            old(arena).wf(),
            old(arena)@.index + data@.len() <= old(arena)@.memory.len(),
        ensures
            final(arena).wf(),
            c.count() == 0,
            c.value().at() == old(arena)@.index,
            c.value().size() == data@.len(),
            final(arena)@.index == old(arena)@.index + data@.len(),
            final(arena)@.memory == written(
                old(arena)@.memory,
                old(arena)@.index as int,
                data@,
            ),
    {
        ArenaCell { data: ArenaBox::new(arena, data), borrow: 0 }
    }

    /// The offset of the value in the arena.
    pub fn wasm_offset(&self) -> (n: usize)
        ensures
            n == self.value().at(),
    {
        self.data.wasm_offset()
    }

    /// Borrows the value to read, unless somebody writes.
    pub fn try_borrow(&mut self) -> (r: Option<ArenaRef>)
        ensures
            final(self).value() == old(self).value(),
            match shared_after(old(self).count()) {
                Some(count) => {
                    &&& final(self).count() == count
                    &&& r matches Some(b) && b.value() == old(self).value()
                },
                None => final(self).count() == old(self).count() && r is None,
            },
    {
        if self.borrow >= 0 && self.borrow < isize::MAX {
            self.borrow = self.borrow + 1;
            Some(ArenaRef { data: self.data })
        } else {
            None
        }
    }

    /// Borrows the value to read. Nobody may be writing.
    pub fn borrow(&mut self) -> (r: ArenaRef)
        requires
            shared_after(old(self).count()) is Some,
        ensures
            final(self).value() == old(self).value(),
            Some(final(self).count()) == shared_after(old(self).count()),
            r.value() == old(self).value(),
    {
        self.borrow = self.borrow + 1;
        ArenaRef { data: self.data }
    }

    /// Borrows the value to write, unless somebody has borrowed it.
    pub fn try_borrow_mut(&mut self) -> (r: Option<ArenaRefMut>)
        ensures
            final(self).value() == old(self).value(),
            match exclusive_after(old(self).count()) {
                Some(count) => {
                    &&& final(self).count() == count
                    &&& r matches Some(b) && b.value() == old(self).value()
                },
                None => final(self).count() == old(self).count() && r is None,
            },
    {
        if self.borrow == 0 {
            self.borrow = -1;
            Some(ArenaRefMut { data: self.data })
        } else {
            None
        }
    }

    /// Borrows the value to write. Nobody may have borrowed it.
    pub fn borrow_mut(&mut self) -> (r: ArenaRefMut)
        requires
            old(self).count() == 0,
        ensures
            final(self).value() == old(self).value(),
            final(self).count() == -1,
            r.value() == old(self).value(),
    {
        self.borrow = -1;
        ArenaRefMut { data: self.data }
    }

    /// Takes back what was borrowed to read: the cell counts one less.
    pub fn release(&mut self, borrowed: ArenaRef)
        ensures
            final(self).value() == old(self).value(),
            final(self).count() == if old(self).count() == isize::MIN {
                isize::MAX
            } else {
                (old(self).count() - 1) as isize
            },
    {
        self.borrow = if self.borrow == isize::MIN {
            isize::MAX
        } else {
            self.borrow - 1
        };
    }

    /// Takes back what was borrowed to write: the cell counts one more.
    pub fn release_mut(&mut self, borrowed: ArenaRefMut)
        ensures
            final(self).value() == old(self).value(),
            final(self).count() == if old(self).count() == isize::MAX {
                isize::MIN
            } else {
                (old(self).count() + 1) as isize
            },
    {
        self.borrow = if self.borrow == isize::MAX {
            isize::MIN
        } else {
            self.borrow + 1
        };
    }
}

/// While a value is borrowed to read nobody gets it to write, and while it
/// is borrowed to write nobody gets it at all.
pub proof fn lemma_borrows_exclude_each_other(count: isize)
    ensures
        shared_after(count) matches Some(next) ==> exclusive_after(next) is None,
        exclusive_after(count) matches Some(next) ==> exclusive_after(next) is None && shared_after(
            next,
        ) is None,
{
}

/// A value that was only ever borrowed to read can be borrowed to write once
/// all have given it back: giving back undoes borrowing.
pub proof fn lemma_release_undoes_borrow(count: isize)
    ensures
        shared_after(count) matches Some(next) ==> next - 1 == count,
        exclusive_after(count) matches Some(next) ==> next + 1 == count,
{
}

} // verus!
