use std::rc::Rc;
use wicked64::jit::cache::Cache;
use wicked64::jit::code::CompiledBlock;
use wicked64::jit::interruption::Interruption;
use wicked64::jit::jump_table::JumpTable;
use wicked64::jit::tables::JumpEntry;
use wicked64::utils::btree_range::{BTreeRange, Bound, RangeItem};

fn block(ptr: usize, code_len: usize, start_pc: u64, len: usize) -> CompiledBlock {
    CompiledBlock::new(vec![0x90; code_len], ptr, start_pc, len)
}

#[test]
fn range_items_keep_their_parts() {
    let item = RangeItem::new("data", 12);
    assert_eq!(item.data, "data");
    assert_eq!(item.end, 12);
}

#[test]
fn ranges_are_found_by_any_address_inside() {
    let mut map = BTreeRange::new();
    map.insert(Bound::Included(0x1000), Bound::Excluded(0x2000), 'a');
    map.insert(Bound::Included(0x3000), Bound::Included(0x3fff), 'b');
    map.insert(Bound::Excluded(0x4fff), Bound::Excluded(0x6000), 'c');
    assert_eq!(map.len(), 3);
    assert_eq!(map.get(0x0fff), None);
    assert_eq!(map.get(0x1000), Some(&'a'));
    assert_eq!(map.get(0x1fff), Some(&'a'));
    assert_eq!(map.get(0x2000), None);
    assert_eq!(map.get(0x2fff), None);
    assert_eq!(map.get(0x3fff), Some(&'b'));
    assert_eq!(map.get(0x4000), None);
    assert_eq!(map.get(0x4fff), None);
    assert_eq!(map.get(0x5000), Some(&'c'));
    assert_eq!(map.get_offset_value(0x1234), Some((0x234, &'a')));
    assert_eq!(map.get_offset_value(0x3000), Some((0, &'b')));
    assert_eq!(map.get_offset_value(0x7000), None);
    assert_eq!(map.get_exact(0x3000), Some(&'b'));
    assert_eq!(map.get_exact(0x3001), None);
    assert!(map.contains_exact(0x5000));
    assert!(!map.contains_exact(0x4fff));
}

#[test]
fn unbounded_ranges_reach_to_the_ends() {
    let mut map = BTreeRange::new();
    map.insert(Bound::Unbounded, Bound::Excluded(16), 1u8);
    map.insert(Bound::Included(32), Bound::Unbounded, 2u8);
    assert_eq!(map.get(0), Some(&1));
    assert_eq!(map.get(15), Some(&1));
    assert_eq!(map.get(16), None);
    assert_eq!(map.get(32), Some(&2));
    assert_eq!(map.get(usize::MAX - 1), Some(&2));
    assert_eq!(map.get(usize::MAX), None);
}

#[test]
fn a_range_under_the_same_start_is_replaced() {
    let mut map = BTreeRange::new();
    map.insert_range(10, 20, 'a');
    map.insert_range(10, 12, 'b');
    assert_eq!(map.len(), 1);
    assert_eq!(map.get(11), Some(&'b'));
    assert_eq!(map.get(15), None);
}

#[test]
fn ranges_can_be_changed_in_place() {
    let mut map = BTreeRange::new();
    map.insert_range(30, 40, vec![3]);
    map.insert_range(10, 20, vec![1]);
    map.insert_range(20, 30, vec![2]);
    map.get_mut(25).unwrap().push(22);
    let (offset, data) = map.get_offset_value_mut(35).unwrap();
    assert_eq!(offset, 5);
    data.push(33);
    assert!(map.get_mut(45).is_none());
    assert_eq!(map.get(10), Some(&vec![1]));
    assert_eq!(map.get(20), Some(&vec![2, 22]));
    assert_eq!(map.get(30), Some(&vec![3, 33]));
}

#[test]
fn remove_touching_drops_what_the_interval_reaches() {
    let mut map = BTreeRange::new();
    for start in [0x400usize, 0x100, 0x300, 0x200] {
        map.insert_range(start, start + 0x80, start / 0x100);
    }
    let removed = map.remove_touching(0x17f, 0x300);
    assert_eq!(removed, vec![(0x100, 1), (0x200, 2), (0x300, 3)]);
    assert_eq!(map.len(), 1);
    assert_eq!(map.get_exact(0x400), Some(&4));
    // an interval that starts where the range ends does not reach it
    assert!(map.remove_touching(0x480, 0x500).is_empty());
    // nor does one that ends in front of it, or one that holds nothing
    assert!(map.remove_touching(0, 0x3ff).is_empty());
    assert!(map.remove_touching(0x440, 0x43f).is_empty());
    let removed = map.remove_touching(0x47f, 0x500);
    assert_eq!(removed, vec![(0x400, 4)]);
    assert_eq!(map.len(), 0);
    assert!(map.remove_touching(0, usize::MAX).is_empty());
}

#[test]
fn compiled_blocks_know_their_code() {
    let b = CompiledBlock::new(vec![1, 2, 3], 0x7000, 0x8000_1000, 12);
    assert_eq!(b.ptr(), 0x7000);
    assert_eq!(b.len(), 12);
    assert_eq!(b.start_pc(), 0x8000_1000);
    assert_eq!(b.as_slice(), &[1, 2, 3]);
    assert!(!b.contains_host_address(0x6fff));
    assert!(b.contains_host_address(0x7000));
    assert!(b.contains_host_address(0x7002));
    assert!(!b.contains_host_address(0x7003));
}

#[test]
fn get_or_insert_with_builds_a_block_once() {
    let mut cache = Cache::default();
    let mut built = 0;
    let first = cache.get_or_insert_with(0x1000, || {
        built += 1;
        block(0x7000, 16, 0x8000_1000, 8)
    });
    let second = cache.get_or_insert_with(0x1000, || {
        built += 1;
        block(0x9000, 16, 0x8000_1000, 8)
    });
    assert_eq!(built, 1);
    assert!(Rc::ptr_eq(&first, &second));
    assert_eq!(second.ptr(), 0x7000);
    assert!(cache.get(0x1000).is_some());
    assert!(cache.get(0x1004).is_none());
}

#[test]
fn invalidation_drops_exactly_the_blocks_it_reaches() {
    let mut cache = Cache::default();
    cache.insert(0x1000, block(0x7000, 16, 0x8000_1000, 8));
    cache.insert(0x2000, block(0x7100, 16, 0x8000_2000, 16));
    cache.insert(0x3000, block(0x7200, 16, 0x8000_3000, 4));
    // a store of four bytes into the second block
    let dropped = cache.invalidate_range(0x2008, 0x200c);
    assert_eq!(dropped.len(), 1);
    assert_eq!(dropped[0].0, 0x2000);
    assert_eq!(dropped[0].1.start_pc(), 0x8000_2000);
    assert!(cache.get(0x2000).is_none());
    // the others are still found under their addresses
    assert_eq!(cache.get(0x1000).unwrap().ptr(), 0x7000);
    assert_eq!(cache.get(0x3000).unwrap().ptr(), 0x7200);
    // a store far from any block drops nothing
    assert!(cache.invalidate_range(0x5000, 0x5004).is_empty());
    // a store that spans two blocks drops both
    let dropped = cache.invalidate_range(0x1004, 0x3000);
    assert_eq!(dropped.iter().map(|d| d.0).collect::<Vec<_>>(), vec![0x1000, 0x3000]);
    assert!(cache.get(0x1000).is_none());
    assert!(cache.get(0x3000).is_none());
}

#[test]
fn a_block_is_reached_from_its_first_to_its_last_address() {
    let mut cache = Cache::default();
    cache.insert(0x1000, block(0x7000, 16, 0x8000_1000, 8));
    assert!(cache.invalidate_range(0x1009, 0x100d).is_empty());
    assert!(cache.invalidate_range(0x0ff0, 0x0fff).is_empty());
    assert!(cache.invalidate_range(0x1004, 0x1003).is_empty());
    assert_eq!(cache.invalidate_range(0x1008, 0x100c).len(), 1);
    cache.insert(0x1000, block(0x7000, 16, 0x8000_1000, 8));
    assert_eq!(cache.invalidate_range(0x0ffc, 0x1000).len(), 1);
}

#[test]
fn interruptions_are_consumed_by_taking_them() {
    let mut slot = Interruption::PrepareJump(0x8000_4000);
    assert_eq!(slot.discriminant(), 1);
    assert_eq!(slot.take(), Interruption::PrepareJump(0x8000_4000));
    assert_eq!(slot, Interruption::Empty);
    assert_eq!(slot.take(), Interruption::Empty);
    assert_eq!(slot.discriminant(), 0);
}

#[test]
fn the_jump_table_remembers_what_was_asked_for() {
    let mut table = JumpTable::new();
    let b = block(0x7000, 32, 0x8000_4000, 8);
    // resolving an address that nobody asked for does nothing
    assert_eq!(table.resolve_with_block(0x4000, &b), None);
    assert_eq!(table.get(0x4000), None);
    // now the address is known, and resolving it points it at the block
    assert_eq!(
        table.resolve_with_block(0x4000, &b),
        Some(JumpEntry { target_block: 0x7000 })
    );
    assert_eq!(table.get(0x4000), Some(JumpEntry { target_block: 0x7000 }));
    // a resolved address keeps its target
    let other = block(0x9000, 32, 0x8000_4000, 8);
    assert_eq!(
        table.resolve_with_block(0x4000, &other),
        Some(JumpEntry { target_block: 0x7000 })
    );
}

#[test]
fn dropping_a_block_drops_the_jumps_into_it() {
    let mut table = JumpTable::new();
    let a = block(0x7000, 32, 0x8000_4000, 8);
    let b = block(0x8000, 32, 0x8000_5000, 8);
    for addr in [0x4000, 0x5000, 0x6000] {
        table.get(addr);
    }
    table.resolve_with_block(0x4000, &a);
    table.resolve_with_block(0x5000, &b);
    table.invalidate_block(&a);
    // the jump into the dropped block is forgotten, so that it is unknown
    // again; the others stay as they were
    assert_eq!(table.resolve_with_block(0x4000, &b), None);
    assert_eq!(table.get(0x5000), Some(JumpEntry { target_block: 0x8000 }));
    assert_eq!(table.get(0x6000), None);
    assert_eq!(
        table.resolve_with_block(0x6000, &b),
        Some(JumpEntry { target_block: 0x8000 })
    );
    table.invalidate_block(&b);
    assert_eq!(table.resolve_with_block(0x5000, &a), None);
    assert_eq!(table.resolve_with_block(0x6000, &a), None);
}
