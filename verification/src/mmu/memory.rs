//! The memory manager: the units of guest memory by the physical addresses
//! they answer to.

use crate::endian::{
    be16_value, be32, be32_value, be_bytes_u32, be_read_u16, be_read_u32,
};
use crate::hardware::cartridge::Cartridge;
use crate::mmu::map::{
    CART_D1A2_END, CART_D1A2_START, PIF_RAM_END, PIF_RAM_START, RDRAM_END, RDRAM_START,
    SP_DMEM_END, SP_DMEM_START,
};
use crate::utils::btree_range::{covers, lemma_covers_unique, BTreeRange, RangeItem};
use vstd::prelude::*;

verus! {

/// The size of the built-in memory, in bytes.
pub const RDRAM_SIZE_IN_BYTES: usize = 4 * 1024 * 1024;

/// One unit of guest memory.
#[derive(Debug)]
pub enum MemoryUnits {
    BoxedSlice(Vec<u8>),
    Cartridge(Cartridge),
}

impl MemoryUnits {
    /// The bytes of the unit.
    pub open spec fn bytes(self) -> Seq<u8> {
        match self {
            MemoryUnits::BoxedSlice(data) => data@,
            MemoryUnits::Cartridge(cartridge) => cartridge.data@,
        }
    }

    /// The bytes of the unit.
    pub fn buffer(&self) -> (b: &Vec<u8>)
        ensures
            b@ == self.bytes(),
    {
        match self {
            MemoryUnits::BoxedSlice(data) => data,
            MemoryUnits::Cartridge(cartridge) => &cartridge.data,
        }
    }

    /// The bytes of the unit, to be changed in place.
    pub fn buffer_mut(&mut self) -> (b: &mut Vec<u8>)
        ensures
            b@ == old(self).bytes(),
            final(self).bytes() == final(b)@,
    {
        match self {
            MemoryUnits::BoxedSlice(data) => data,
            MemoryUnits::Cartridge(cartridge) => &mut cartridge.data,
        }
    }
}

/// The guest's memory.
pub struct MemoryManager {
    units: BTreeRange<MemoryUnits>,
}

/// The `width` bytes at the physical address `addr`, where one unit holds
/// them all.
pub open spec fn loaded(
    units: Map<usize, RangeItem<MemoryUnits>>,
    addr: usize,
    width: nat,
) -> Option<Seq<u8>> {
    if exists|k: usize| covers(units, addr, k) {
        let k = choose|k: usize| covers(units, addr, k);
        let bytes = units[k].data.bytes();
        if addr - k + width <= bytes.len() {
            Some(bytes.subrange(addr - k, addr - k + width))
        } else {
            None
        }
    } else {
        None
    }
}

/// The bytes `bytes` with `data` written over them from position `at` on.
pub open spec fn spliced(bytes: Seq<u8>, at: int, data: Seq<u8>) -> Seq<u8> {
    bytes.take(at) + data + bytes.skip(at + data.len())
}

/// The units after `data` was written at the physical address `addr`: where
/// one unit holds all the bytes at `addr` they are replaced, else nothing
/// changes.
pub open spec fn stored(
    units: Map<usize, RangeItem<MemoryUnits>>,
    now: Map<usize, RangeItem<MemoryUnits>>,
    addr: usize,
    data: Seq<u8>,
) -> bool {
    if loaded(units, addr, data.len()) is Some {
        let k = choose|k: usize| covers(units, addr, k);
        exists|unit: MemoryUnits|
            {
                &&& #[trigger] unit.bytes() == spliced(units[k].data.bytes(), addr - k, data)
                &&& now == units.insert(k, RangeItem { data: unit, end: units[k].end })
            }
    } else {
        now == units
    }
}

impl MemoryManager {
    /// The units by the physical address at which each starts.
    pub closed spec fn view(&self) -> Map<usize, RangeItem<MemoryUnits>> {
        self.units@
    }

    /// The units are in order.
    pub closed spec fn wf(&self) -> bool {
        self.units.wf()
    }

    /// The memory of a console with the given cartridge inserted: the
    /// built-in memory, the data memory of the signal processor, the memory
    /// of the peripheral interface, all zeroed, and the cartridge.
    pub fn new(cartridge: Cartridge) -> (m: MemoryManager)
        ensures
            m.wf(),
            m.view().dom() == set![RDRAM_START, SP_DMEM_START, PIF_RAM_START, CART_D1A2_START],
            m.view()[RDRAM_START].end == RDRAM_END,
            m.view()[RDRAM_START].data.bytes() == Seq::new(
                (2 * RDRAM_SIZE_IN_BYTES) as nat,
                |i: int| 0u8,
            ),
            m.view()[SP_DMEM_START].end == SP_DMEM_END,
            m.view()[SP_DMEM_START].data.bytes() == Seq::new(0x1000, |i: int| 0u8),
            m.view()[PIF_RAM_START].end == PIF_RAM_END,
            m.view()[PIF_RAM_START].data.bytes() == Seq::new(0x1000, |i: int| 0u8),
            m.view()[CART_D1A2_START].end == CART_D1A2_END,
            m.view()[CART_D1A2_START].data.bytes() == cartridge.data@,
    {
        let rdram: Vec<u8> = vec![0u8; 2 * RDRAM_SIZE_IN_BYTES];
        let dmem: Vec<u8> = vec![0u8; 0x1000];
        let pif: Vec<u8> = vec![0u8; 0x1000];
        proof {
            assert(rdram@ =~= Seq::new((2 * RDRAM_SIZE_IN_BYTES) as nat, |i: int| 0u8));
            assert(dmem@ =~= Seq::new(0x1000, |i: int| 0u8));
            assert(pif@ =~= Seq::new(0x1000, |i: int| 0u8));
        }
        let mut units: BTreeRange<MemoryUnits> = BTreeRange::new();
        units.insert_range(RDRAM_START, RDRAM_END, MemoryUnits::BoxedSlice(rdram));
        units.insert_range(SP_DMEM_START, SP_DMEM_END, MemoryUnits::BoxedSlice(dmem));
        units.insert_range(PIF_RAM_START, PIF_RAM_END, MemoryUnits::BoxedSlice(pif));
        units.insert_range(CART_D1A2_START, CART_D1A2_END, MemoryUnits::Cartridge(cartridge));
        let m = Self { units };
        proof {
            assert(m.view().dom() =~= set![
                RDRAM_START,
                SP_DMEM_START,
                PIF_RAM_START,
                CART_D1A2_START,
            ]);
        }
        m
    }

    /// The unit that holds the `width` bytes at `addr`, and where in it they
    /// start.
    fn locate(&self, addr: usize, width: usize) -> (r: Option<(usize, &Vec<u8>)>)
        requires
            self.wf(),
        ensures
            match r {
                Some((offset, bytes)) => {
                    &&& offset + width <= bytes@.len() <= usize::MAX
                    &&& loaded(self.view(), addr, width as nat) == Some(
                        bytes@.subrange(offset as int, offset + width),
                    )
                },
                None => loaded(self.view(), addr, width as nat) is None,
            },
    {
        match self.units.get_offset_value(addr) {
            Some((offset, unit)) => {
                proof {
                    let k = (addr - offset) as usize;
                    let c = choose|c: usize| covers(self.view(), addr, c);
                    lemma_covers_unique(self.view(), addr, k, c);
                }
                let bytes = unit.buffer();
                if offset <= bytes.len() && width <= bytes.len() - offset {
                    Some((offset, bytes))
                } else {
                    None
                }
            },
            None => None,
        }
    }

    /// The byte at the physical address `addr`, or zero where no unit
    /// holds it.
    pub fn read_u8(&self, addr: usize) -> (v: u8)
        requires
            self.wf(),
        ensures
            v == match loaded(self.view(), addr, 1) {
                Some(b) => b[0],
                None => 0u8,
            },
    {
        match self.locate(addr, 1) {
            Some((offset, bytes)) => bytes[offset],
            None => 0,
        }
    }

    /// The big-endian half word at the physical address `addr`, or zero
    /// where no unit holds it.
    pub fn read_u16(&self, addr: usize) -> (v: u16)
        requires
            self.wf(),
        ensures
            v == match loaded(self.view(), addr, 2) {
                Some(b) => be16_value(b),
                None => 0u16,
            },
    {
        match self.locate(addr, 2) {
            Some((offset, bytes)) => {
                let end = offset + 2;
                let window = vstd::slice::slice_subrange(bytes.as_slice(), offset, end);
                be_read_u16(window)
            },
            None => 0,
        }
    }

    /// The big-endian word at the physical address `addr`, or zero where no
    /// unit holds it.
    pub fn read_u32(&self, addr: usize) -> (v: u32)
        requires
            self.wf(),
        ensures
            v == match loaded(self.view(), addr, 4) {
                Some(b) => be32_value(b),
                None => 0u32,
            },
    {
        match self.locate(addr, 4) {
            Some((offset, bytes)) => {
                let end = offset + 4;
                let window = vstd::slice::slice_subrange(bytes.as_slice(), offset, end);
                be_read_u32(window)
            },
            None => 0,
        }
    }

    /// Writes `data` at the physical address `addr`, if one unit holds all
    /// the bytes there. Tells whether it did.
    pub fn store_bytes(&mut self, addr: usize, data: &[u8]) -> (done: bool)
        requires
            old(self).wf(),
        ensures
            final(self).wf(),
            done == (loaded(old(self).view(), addr, data@.len()) is Some),
            stored(old(self).view(), final(self).view(), addr, data@),
    {
        let ghost before = self.view();
        let done = match self.units.get_offset_value_mut(addr) {
            Some((offset, unit)) => {
                proof {
                    let k = (addr - offset) as usize;
                    let c = choose|c: usize| covers(before, addr, c);
                    lemma_covers_unique(before, addr, k, c);
                }
                let len = unit.buffer().len();
                if offset <= len && data.len() <= len - offset {
                    let bytes = unit.buffer_mut();
                    let ghost old_bytes = bytes@;
                    let mut i: usize = 0;
                    while i < data.len()
                        invariant
                            i <= data@.len(),
                            offset + data@.len() <= len,
                            bytes@.len() == len,
                            old_bytes.len() == len,
                            bytes@ == old_bytes.take(offset as int) + data@.take(i as int)
                                + old_bytes.skip(offset + i),
                        decreases data@.len() - i,
                    {
                        bytes[offset + i] = data[i];
                        proof {
                            assert(bytes@ =~= old_bytes.take(offset as int) + data@.take(
                                i as int + 1,
                            ) + old_bytes.skip(offset + i + 1));
                        }
                        i = i + 1;
                    }
                    proof {
                        assert(data@.take(i as int) =~= data@);
                        assert(bytes@ == spliced(old_bytes, offset as int, data@));
                    }
                    true
                } else {
                    false
                }
            },
            None => false,
        };
        proof {
            if loaded(before, addr, data@.len()) is Some {
                let k = choose|k: usize| covers(before, addr, k);
                assert(self.view().contains_key(k));
                let unit = self.view()[k].data;
                assert(unit.bytes() == spliced(before[k].data.bytes(), addr - k, data@));
                assert(self.view() =~= before.insert(
                    k,
                    RangeItem { data: unit, end: before[k].end },
                ));
            } else {
                assert(self.view() =~= before);
            }
        }
        done
    }

    /// Writes the big-endian word `value` at the physical address `addr`, if
    /// one unit holds the four bytes there.
    pub fn store_u32(&mut self, addr: usize, value: u32) -> (done: bool)
        requires
            old(self).wf(),
        ensures
            final(self).wf(),
            done == (loaded(old(self).view(), addr, 4) is Some),
            stored(old(self).view(), final(self).view(), addr, be32(value)),
    {
        let b = be_bytes_u32(value);
        self.store_bytes(addr, b.as_slice())
    }

    /// Copies `n` bytes from the physical address `src` to the physical
    /// address `dst`, if one unit holds all the bytes at `src` and one all
    /// those at `dst`.
    pub fn copy_from(&mut self, dst: usize, src: usize, n: usize) -> (done: bool)
        requires
            old(self).wf(),
        ensures
            final(self).wf(),
            match loaded(old(self).view(), src, n as nat) {
                Some(data) => {
                    &&& done == (loaded(old(self).view(), dst, n as nat) is Some)
                    &&& stored(old(self).view(), final(self).view(), dst, data)
                },
                None => !done && final(self).view() == old(self).view(),
            },
    {
        let data: Vec<u8> = match self.locate(src, n) {
            Some((offset, bytes)) => {
                let end = offset + n;
                let mut data: Vec<u8> = Vec::new();
                data.extend_from_slice(vstd::slice::slice_subrange(bytes.as_slice(), offset, end));
                proof {
                    assert(data@ =~= bytes@.subrange(offset as int, offset + n));
                }
                data
            },
            None => {
                return false;
            },
        };
        self.store_bytes(dst, data.as_slice())
    }
}

} // verus!
