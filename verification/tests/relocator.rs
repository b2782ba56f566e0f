use bch3ds::{bch_to_absolute, BCHHeader, BCHRelocateError, BCHSection, BCHSectionError};

fn header_zeroed() -> BCHHeader {
    BCHHeader {
        backward_compatibility: 0,
        forward_compatibility: 0,
        converter_version: 0,
        contents_address: 0,
        strings_address: 0,
        commands_address: 0,
        raw_data_address: 0,
        raw_ext_address: 0,
        relocation_address: 0,
        contents_length: 0,
        strings_length: 0,
        commands_length: 0,
        raw_data_length: 0,
        raw_ext_length: 0,
        relocation_length: 0,
        un_init_data_length: 0,
        un_init_commands_length: 0,
        flags: 0,
        address_count: 0,
    }
}

#[test]
fn empty_table_leaves_blob_identical() {
    let mut h = header_zeroed();
    h.relocation_address = 4;
    h.relocation_length = 0;
    let mut blob: Vec<u8> = (0..64u8).collect();
    let snapshot = blob.clone();
    bch_to_absolute(&h, &mut blob).expect("empty relocation succeeds");
    assert_eq!(blob, snapshot);
}

#[test]
fn single_contents_entry_adds_base() {
    // entry (src=Contents, tgt=Contents, ptr_addr=0) over a blob whose word
    // at the contents base holds 0x10; contents_address = 0x40
    let mut h = header_zeroed();
    h.contents_address = 0x40;
    h.relocation_address = 0x80;
    h.relocation_length = 4;
    let mut blob = vec![0u8; 0x100];
    blob[0x40] = 0x10;
    // entry word: source 0 (bits 31..29), target 0 (bits 28..25), ptr 0
    blob[0x80] = 0;
    blob[0x81] = 0;
    blob[0x82] = 0;
    blob[0x83] = 0;
    bch_to_absolute(&h, &mut blob).expect("relocation succeeds");
    let word = u32::from_le_bytes([blob[0x40], blob[0x41], blob[0x42], blob[0x43]]);
    assert_eq!(word, 0x50);
}

#[test]
fn strings_target_pointer_not_shifted() {
    // target = Strings (code 1): the pointer stays a byte offset
    let mut h = header_zeroed();
    h.contents_address = 0;
    h.strings_address = 0x20;
    h.relocation_address = 0x40;
    h.relocation_length = 4;
    let mut blob = vec![0u8; 0x60];
    // entry: source=Contents(0), target=Strings(1), ptr=8 -> rewrites word at 0+8
    let entry: u32 = (1 << 25) | 8;
    blob[0x40..0x44].copy_from_slice(&entry.to_le_bytes());
    blob[8] = 4;
    bch_to_absolute(&h, &mut blob).expect("relocation succeeds");
    let word = u32::from_le_bytes([blob[8], blob[9], blob[10], blob[11]]);
    assert_eq!(word, 4 + 0x20);
}

#[test]
fn non_strings_pointer_shifted_by_two() {
    // target = Commands (code 2): pointer is a word index, shifted left by 2
    let mut h = header_zeroed();
    h.commands_address = 0x10;
    h.relocation_address = 0x40;
    h.relocation_length = 4;
    let mut blob = vec![0u8; 0x60];
    // entry: source=Commands(2 in 3 high bits), target=Commands(2), ptr=1 -> byte 0x10 + 4
    let entry: u32 = (2u32 << 29) | (2 << 25) | 1;
    blob[0x40..0x44].copy_from_slice(&entry.to_le_bytes());
    blob[0x14] = 1;
    bch_to_absolute(&h, &mut blob).expect("relocation succeeds");
    let word = u32::from_le_bytes([blob[0x14], blob[0x15], blob[0x16], blob[0x17]]);
    assert_eq!(word, 1 + 0x10);
}

#[test]
fn invalid_target_code_rejected() {
    let mut h = header_zeroed();
    h.relocation_address = 0;
    h.relocation_length = 4;
    // target code 15 (bits 28..25) is undefined
    let entry: u32 = 15 << 25;
    let mut blob = vec![0u8; 16];
    blob[0..4].copy_from_slice(&entry.to_le_bytes());
    match bch_to_absolute(&h, &mut blob) {
        Err(BCHRelocateError::BCHSectionError(BCHSectionError::InvalidCast(15))) => {}
        other => panic!("expected InvalidCast(15), got {:?}", other),
    }
}

#[test]
fn table_past_end_rejected() {
    let mut h = header_zeroed();
    h.relocation_address = 12;
    h.relocation_length = 8;
    let mut blob = vec![0u8; 14];
    match bch_to_absolute(&h, &mut blob) {
        Err(BCHRelocateError::NotLongEnought) => {}
        other => panic!("expected NotLongEnought, got {:?}", other),
    }
}

#[test]
fn pointer_past_end_rejected() {
    let mut h = header_zeroed();
    h.contents_address = 0x4000;
    h.relocation_address = 0;
    h.relocation_length = 4;
    let mut blob = vec![0u8; 16];
    // entry targets contents base 0x4000, beyond the blob
    match bch_to_absolute(&h, &mut blob) {
        Err(BCHRelocateError::NotLongEnought) => {}
        other => panic!("expected NotLongEnought, got {:?}", other),
    }
}

#[test]
fn section_codes_decode() {
    assert_eq!(BCHSection::new(0), Ok(BCHSection::Contents));
    assert_eq!(BCHSection::new(1), Ok(BCHSection::Strings));
    assert_eq!(BCHSection::new(7), Ok(BCHSection::RawDataIndex16));
    assert_eq!(BCHSection::new(14), Ok(BCHSection::BaseAddress));
    assert_eq!(BCHSection::new(15), Err(BCHSectionError::InvalidCast(15)));
    assert_eq!(BCHSection::new(200), Err(BCHSectionError::InvalidCast(200)));
}
