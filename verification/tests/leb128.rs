use wicked64::jit::wasm::leb128::{write_i32, write_i64, write_u32, write_u64};
use wicked64::jit::wasm::sections::{
    CodeSection, ExportSection, FunctionSection, GlobalSection, ImportSection, TypeSection,
    WasmSection,
};

#[test]
fn signed() {
    let mut buf = Vec::new();
    assert_eq!(write_i32(&mut buf, 0x9FFFFFFFu32 as i32), 5);
    assert_eq!(buf, b"\xff\xff\xff\xff\x79");
}

#[test]
fn unsigned() {
    let mut buf = Vec::new();
    assert_eq!(write_u32(&mut buf, 0x9FFFFFFF), 5);
    assert_eq!(buf, b"\xff\xff\xff\xff\x09");
}

#[test]
fn signed_numbers_end_where_only_the_sign_is_left() {
    let cases: [(i64, &[u8]); 10] = [
        (0, &[0x00]),
        (1, &[0x01]),
        (63, &[0x3f]),
        (64, &[0xc0, 0x00]),
        (-1, &[0x7f]),
        (-64, &[0x40]),
        (-65, &[0xbf, 0x7f]),
        (-123456, &[0xc0, 0xbb, 0x78]),
        (i64::MAX, &[0xff, 0xff, 0xff, 0xff, 0xff, 0xff, 0xff, 0xff, 0xff, 0x00]),
        (i64::MIN, &[0x80, 0x80, 0x80, 0x80, 0x80, 0x80, 0x80, 0x80, 0x80, 0x7f]),
    ];
    for (value, expected) in cases {
        let mut buf = vec![0xaa];
        assert_eq!(write_i64(&mut buf, value), expected.len(), "{value}");
        assert_eq!(&buf[1..], expected, "{value}");
        assert_eq!(buf[0], 0xaa);
    }
}

#[test]
fn unsigned_numbers_take_seven_bits_per_byte() {
    let cases: [(u64, &[u8]); 6] = [
        (0, &[0x00]),
        (127, &[0x7f]),
        (128, &[0x80, 0x01]),
        (624485, &[0xe5, 0x8e, 0x26]),
        (u64::from(u32::MAX), &[0xff, 0xff, 0xff, 0xff, 0x0f]),
        (u64::MAX, &[0xff, 0xff, 0xff, 0xff, 0xff, 0xff, 0xff, 0xff, 0xff, 0x01]),
    ];
    for (value, expected) in cases {
        let mut buf = Vec::new();
        assert_eq!(write_u64(&mut buf, value), expected.len(), "{value}");
        assert_eq!(buf, expected, "{value}");
    }
}

#[test]
fn sections_are_built_from_id_length_count_and_content() {
    assert_eq!(TypeSection::id(), 0x01);
    assert_eq!(ImportSection::id(), 0x02);
    assert_eq!(FunctionSection::id(), 0x03);
    assert_eq!(GlobalSection::id(), 0x06);
    assert_eq!(ExportSection::id(), 0x07);
    assert_eq!(CodeSection::id(), 0x0a);

    let mut functions = FunctionSection::new(1);
    functions.extend(&[0x00]);
    assert_eq!(functions.cont(), 1);
    assert_eq!(functions.buffer(), &vec![0x00]);
    assert_eq!(functions.build(), Some(vec![0x03, 0x02, 0x01, 0x00]));

    let empty = TypeSection::new(0);
    assert_eq!(empty.build(), Some(vec![0x01, 0x01, 0x00]));

    // a count that takes two bytes widens the length
    let mut imports = ImportSection::new(200);
    imports.extend(&[1, 2, 3]);
    assert_eq!(imports.build(), Some(vec![0x02, 0x05, 0xc8, 0x01, 1, 2, 3]));
}

#[test]
fn functions_are_pushed_with_their_length() {
    let mut code = CodeSection::new(1);
    assert!(code.push_function(&[0x00, 0x0b]));
    assert_eq!(code.buffer(), &vec![0x02, 0x00, 0x0b]);
    let body = vec![0x01; 130];
    assert!(code.push_function(&body));
    assert_eq!(code.buffer().len(), 3 + 2 + 130);
    assert_eq!(&code.buffer()[3..5], &[0x82, 0x01]);
    let built = code.build().unwrap();
    assert_eq!(&built[..4], &[0x0a, 0x88, 0x01, 0x01]);
    assert_eq!(built.len(), 4 + 135);
}
