use wicked64::arena::{pages_for, Arena, ArenaBox, ArenaCell, PAGE_SIZE_IN_BYTES};

#[test]
fn arena_size() {
    let mut arena = Arena::new(0x1_400_000).unwrap();
    assert_eq!(arena.pages(), 320);
    arena.allocate(&0i32.to_le_bytes()).unwrap();
}

#[test]
fn arena_alloc() {
    let mut arena = Arena::new(1024).unwrap();
    assert_eq!(arena.pages(), 1);

    let mut foo = ArenaCell::new(&mut arena, &10u64.to_le_bytes());

    // check if the arena index is being set as expected
    let mut new_index = std::mem::size_of::<u64>() + 1;
    assert_eq!(arena.index(), new_index);

    let name = "Never gonna give you up\r\nNever gonna let you down\r\n...\r\n";
    let mut record = name.as_bytes().to_vec();
    record.extend_from_slice(&69usize.to_le_bytes());
    let mut bar = ArenaCell::new(&mut arena, &record);

    new_index += record.len();
    assert_eq!(arena.index(), new_index);

    {
        let foo_ref = foo.try_borrow().unwrap();
        let bar_ref = bar.try_borrow().unwrap();

        assert_eq!(arena.get(foo_ref.data()), 10u64.to_le_bytes());
        let bytes = arena.get(bar_ref.data());
        assert_eq!(&bytes[..name.len()], name.as_bytes());
        assert_eq!(bytes[name.len()..], 69usize.to_le_bytes());
        foo.release(foo_ref);
        bar.release(bar_ref);
    }

    assert!(arena.grow(2000));
    assert_eq!(arena.pages(), 2001);

    // values should remain the same after growing the memory
    {
        let foo_ref = foo.try_borrow().unwrap();
        let bar_ref = bar.try_borrow().unwrap();

        assert_eq!(arena.get(foo_ref.data()), 10u64.to_le_bytes());
        let bytes = arena.get(bar_ref.data());
        assert_eq!(&bytes[..name.len()], name.as_bytes());
        assert_eq!(bytes[name.len()..], 69usize.to_le_bytes());
    }
    assert_eq!(arena.index(), new_index);
}

#[test]
fn arena_cell_borrows() {
    let mut arena = Arena::new(1024).unwrap();

    let mut x = ArenaCell::new(&mut arena, b"Lorem Ipsum");

    let y = x.borrow();
    let z = x.borrow();

    assert_eq!(arena.get(y.data()), b"Lorem Ipsum");
    assert_eq!(arena.get(y.data()), arena.get(z.data()));

    let a = x.try_borrow_mut();
    assert!(a.is_none());

    x.release(y);
    x.release(z);

    let a = x.borrow_mut();
    assert_eq!(arena.get(a.data()), b"Lorem Ipsum");

    let y = x.try_borrow();
    assert!(y.is_none());
    assert!(x.try_borrow_mut().is_none());

    x.release_mut(a);

    let y = x.try_borrow();
    assert!(y.is_some());
}

#[test]
fn wasm_offset() {
    let mut arena = Arena::new(1024).unwrap();

    let foo = ArenaCell::new(&mut arena, b"Something");
    let bar = ArenaCell::new(&mut arena, &420i32.to_le_bytes());
    let not_in_arena = 30;

    // the memory of the arena, as if it started at this address
    let base = 0x7000_0000usize;

    assert_eq!(arena.wasm_offset(base, base + foo.wasm_offset()), Some(1));
    assert!(foo.wasm_offset() == 0x01);
    assert_eq!(arena.wasm_offset(base, base + bar.wasm_offset()), Some(10));
    assert!(arena.wasm_offset(base, not_in_arena).is_none());
    assert!(arena.wasm_offset(base, base - 1).is_none());
    assert_eq!(arena.wasm_offset(base, base), Some(0));
    assert_eq!(arena.wasm_offset(base, base + 65535), Some(65535));
    assert!(arena.wasm_offset(base, base + 65536).is_none());
}

#[test]
fn pages_hold_the_bytes_asked_for() {
    assert_eq!(PAGE_SIZE_IN_BYTES, 65536);
    assert_eq!(pages_for(0), 0);
    assert_eq!(pages_for(1), 1);
    assert_eq!(pages_for(65536), 1);
    assert_eq!(pages_for(65537), 2);
    assert_eq!(pages_for(u32::MAX), 65536);
}

#[test]
fn a_full_arena_takes_nothing_more() {
    let mut arena = Arena::new(1).unwrap();
    let filler = vec![0xabu8; 65535 - 4];
    assert_eq!(arena.allocate(&filler), Some(1));
    assert_eq!(arena.index(), 65532);
    // five bytes are one too many
    assert_eq!(arena.allocate(&[1, 2, 3, 4, 5]), None);
    assert_eq!(arena.boxed_slice(&[1, 2, 3, 4, 5]), None);
    assert_eq!(arena.index(), 65532);
    let last = arena.boxed_slice(&[1, 2, 3, 4]).unwrap();
    assert_eq!(last.wasm_offset(), 65532);
    assert_eq!(last.len(), 4);
    assert_eq!(arena.get(last), [1, 2, 3, 4]);
    assert_eq!(arena.allocate(&[]), Some(65536));
    assert_eq!(arena.allocate(&[0]), None);
    assert!(arena.grow(1));
    let more = ArenaBox::boxed_slice(&mut arena, &[9, 8]);
    assert_eq!(more.wasm_offset(), 65536);
    assert_eq!(arena.get(more), [9, 8]);
    assert_eq!(arena.get(last), [1, 2, 3, 4]);
}

#[test]
fn a_borrow_can_be_shared() {
    let mut arena = Arena::new(1024).unwrap();
    let mut cell = ArenaCell::new(&mut arena, b"shared");
    let first = cell.borrow();
    let second = first.clone(&mut cell);
    assert_eq!(second, first);
    assert!(cell.try_borrow_mut().is_none());
    cell.release(first);
    assert!(cell.try_borrow_mut().is_none());
    cell.release(second);
    assert!(cell.try_borrow_mut().is_some());
}
