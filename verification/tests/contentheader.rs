use bch3ds::{BCHContentHeader, Reader, ReferenceDict, ReferenceDictError};

#[test]
fn reference_dict_reads_three_words() {
    let mut data = Vec::new();
    data.extend_from_slice(&0x11223344u32.to_le_bytes());
    data.extend_from_slice(&7u32.to_le_bytes());
    data.extend_from_slice(&0xDEADBEEFu32.to_le_bytes());
    let mut r = Reader::new(&data);
    let d = ReferenceDict::read(&mut r, "models").expect("parses");
    assert_eq!(d.pointer_table_offset, 0x11223344);
    assert_eq!(d.pointer_table_entries, 7);
    assert_eq!(d.name_offset, 0xDEADBEEF);
    assert_eq!(r.pos, 12);
}

#[test]
fn reference_dict_short_data_rejected() {
    let data = vec![1, 2, 3, 4, 5];
    let mut r = Reader::new(&data);
    match ReferenceDict::read(&mut r, "models") {
        Err(ReferenceDictError::IOError(_, _)) => {}
        other => panic!("expected IOError, got {:?}", other),
    }
}

#[test]
fn content_header_reads_fifteen_dicts() {
    let mut data = Vec::new();
    for k in 0..45u32 {
        data.extend_from_slice(&k.to_le_bytes());
    }
    let mut r = Reader::new(&data);
    let c = BCHContentHeader::read(&mut r).expect("parses");
    assert_eq!(c.models.pointer_table_offset, 0);
    assert_eq!(c.models.pointer_table_entries, 1);
    assert_eq!(c.models.name_offset, 2);
    assert_eq!(c.materials.pointer_table_offset, 3);
    assert_eq!(c.scene.name_offset, 44);
    assert_eq!(r.pos, 180);
}

#[test]
fn content_header_short_data_rejected() {
    let data = vec![0u8; 100];
    let mut r = Reader::new(&data);
    assert!(BCHContentHeader::read(&mut r).is_err());
}
