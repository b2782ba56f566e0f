use bch3ds::Reader;

#[test]
fn scalar_reads_little_endian() {
    let data = vec![0x78, 0x56, 0x34, 0x12, 0xFF, 0x7F, 0x80];
    let mut r = Reader::new(&data);
    assert_eq!(r.read_u32_le(), Some(0x12345678));
    assert_eq!(r.read_u16_le(), Some(0x7FFF));
    assert_eq!(r.read_u8(), Some(0x80));
    assert_eq!(r.read_u8(), None);
}

#[test]
fn signed_reads() {
    let data = vec![0xFF, 0xFE, 0xFF, 0xFF, 0xFF, 0xFF, 0xFF];
    let mut r = Reader::new(&data);
    assert_eq!(r.read_i8(), Some(-1));
    assert_eq!(r.read_i16_le(), Some(-2));
    assert_eq!(r.read_i32_le(), Some(-1));
}

#[test]
fn null_terminated_string() {
    let data = vec![b'B', b'C', b'H', 0, 7];
    let mut r = Reader::new(&data);
    let s = r.read_null_terminated_ascii_string().expect("string present");
    assert_eq!(s, "BCH");
    assert_eq!(r.pos, 4);
}

#[test]
fn null_terminated_string_missing_nul() {
    let data = vec![b'B', b'C', b'H'];
    let mut r = Reader::new(&data);
    assert!(r.read_null_terminated_ascii_string().is_none());
}

#[test]
fn referenced_null_pointer_is_absent() {
    // a reference word of zero yields "absent" and leaves the cursor right
    // after the word
    let data = vec![0, 0, 0, 0, 9, 9];
    let mut r = Reader::new(&data);
    let res = r.read_referenced_null_terminated_ascii_string().expect("no read failure");
    assert!(res.is_none());
    assert_eq!(r.pos, 4);
}

#[test]
fn referenced_string_restores_cursor() {
    // pointer to offset 6 where "ok\0" lives; cursor must come back to 4
    let data = vec![6, 0, 0, 0, 0xAA, 0xBB, b'o', b'k', 0];
    let mut r = Reader::new(&data);
    let res = r.read_referenced_null_terminated_ascii_string().expect("no read failure");
    assert_eq!(res.as_deref(), Some("ok"));
    assert_eq!(r.pos, 4);
}

#[test]
fn pad_aligns_forward_to_next_multiple() {
    let data = vec![0u8; 32];
    let mut r = Reader::new(&data);
    r.seek(3);
    r.pad(8);
    assert_eq!(r.pos, 8);
    r.pad(8);
    assert_eq!(r.pos, 8);
    r.seek(9);
    r.pad(2);
    assert_eq!(r.pos, 10);
    r.seek(10);
    r.pad(2);
    assert_eq!(r.pos, 10);
}

#[test]
fn referenced_string_failure_restores_cursor() {
    // the reference points past the end: the read fails, and the cursor
    // still ends right after the offset word
    let data = vec![200, 0, 0, 0, 9, 9];
    let mut r = Reader::new(&data);
    assert!(r.read_referenced_null_terminated_ascii_string().is_err());
    assert_eq!(r.pos, 4);
}
