use bch3ds::{IndexBufferFormat, PICACommandReader, PICACommandReaderError, Reader, VSHAttribute};

fn push_word(buf: &mut Vec<u8>, w: u32) {
    buf.extend_from_slice(&w.to_le_bytes());
}

/// One packet: a data word, then a header word for `id` with `mask` and no
/// extra words.
fn push_packet(buf: &mut Vec<u8>, data: u32, id: u32, mask: u32) {
    push_word(buf, data);
    push_word(buf, id | (mask << 16));
}

fn block_end(buf: &mut Vec<u8>) {
    push_packet(buf, 0, 0x23D, 0);
}

#[test]
fn single_write_then_block_end() {
    let mut buf = Vec::new();
    push_packet(&mut buf, 0x12345678, 0x1, 0xF);
    block_end(&mut buf);
    let mut r = Reader::new(&buf);
    let snap = PICACommandReader::read(&mut r, 4).expect("decodes");
    assert_eq!(snap.commands[1], 0x12345678);
    // the decode stopped at the BlockEnd packet, 16 bytes in
    assert_eq!(r.pos, 16);
}

#[test]
fn block_end_first_writes_once() {
    let mut buf = Vec::new();
    push_packet(&mut buf, 0xAABBCCDD, 0x23D, 0xF);
    push_packet(&mut buf, 0xFFFFFFFF, 0x2, 0xF);
    let mut r = Reader::new(&buf);
    let snap = PICACommandReader::read(&mut r, 4).expect("decodes");
    assert_eq!(snap.commands[0x23D], 0xAABBCCDD);
    // nothing after the BlockEnd was interpreted
    assert_eq!(snap.commands[0x2], 0);
    for bank in &snap.float_uniform {
        assert!(bank.is_empty());
    }
}

#[test]
fn masked_write_formula() {
    // two writes to one register: the mask picks low-nibble bits from the
    // old value, the rest comes from the data word
    let mut buf = Vec::new();
    push_packet(&mut buf, 0xFFFFFFFF, 0x10, 0xF);
    push_packet(&mut buf, 0x00000000, 0x10, 0x3);
    block_end(&mut buf);
    let mut r = Reader::new(&buf);
    let snap = PICACommandReader::read(&mut r, 6).expect("decodes");
    // reg = 0xFFFFFFFF, then (reg & (!3 & 0xF)) | (0 & (0xFFFFFFF0 | 3)) = 0xC
    assert_eq!(snap.commands[0x10], 0xC);
}

#[test]
fn uniform_append_order_and_pop() {
    let mut buf = Vec::new();
    push_packet(&mut buf, 6, 0x2C0, 0xF);
    push_packet(&mut buf, 1.0f32.to_bits(), 0x2C1, 0xF);
    push_packet(&mut buf, 2.0f32.to_bits(), 0x2C1, 0xF);
    push_packet(&mut buf, 3.0f32.to_bits(), 0x2C1, 0xF);
    push_packet(&mut buf, 4.0f32.to_bits(), 0x2C1, 0xF);
    block_end(&mut buf);
    let mut r = Reader::new(&buf);
    let snap = PICACommandReader::read(&mut r, 12).expect("decodes");
    let bank: Vec<f32> = snap.float_uniform[6].iter().map(|b| f32::from_bits(*b)).collect();
    assert_eq!(bank, vec![1.0, 2.0, 3.0, 4.0]);
    // consumers pop from the end: last written comes first
    let mut popping = snap.float_uniform[6].clone();
    let mut popped = Vec::new();
    for _ in 0..4 {
        popped.push(f32::from_bits(popping.pop().unwrap()));
    }
    assert_eq!(popped, vec![4.0, 3.0, 2.0, 1.0]);
}

#[test]
fn consecutive_extra_words_align_to_eight() {
    // one packet with one extra word (3 words = 12 bytes), so the reader
    // must swallow one filler word to realign to 8 before the next packet
    let mut buf = Vec::new();
    push_word(&mut buf, 0x11111111);
    // id 0x100, mask F, extra 1, consecutive writing
    push_word(&mut buf, 0x100 | (0xF << 16) | (1 << 20) | 0x8000_0000);
    push_word(&mut buf, 0x22222222);
    push_word(&mut buf, 0xDEADBEEF); // filler
    block_end(&mut buf);
    let mut r = Reader::new(&buf);
    let snap = PICACommandReader::read(&mut r, 8).expect("decodes");
    assert_eq!(snap.commands[0x100], 0x11111111);
    assert_eq!(snap.commands[0x101], 0x22222222);
    assert_eq!(r.pos % 8, 0);
}

#[test]
fn uniform_data_without_config_rejected() {
    let mut buf = Vec::new();
    push_packet(&mut buf, 0x42, 0x2C1, 0xF);
    block_end(&mut buf);
    let mut r = Reader::new(&buf);
    match PICACommandReader::read(&mut r, 4) {
        Err(PICACommandReaderError::UndefinedCurrentUniform) => {}
        other => panic!("expected UndefinedCurrentUniform, got {:?}", other),
    }
}

#[test]
fn uniform_bank_out_of_range_rejected() {
    let mut buf = Vec::new();
    push_packet(&mut buf, 96, 0x2C0, 0xF);
    push_packet(&mut buf, 0x42, 0x2C1, 0xF);
    block_end(&mut buf);
    let mut r = Reader::new(&buf);
    match PICACommandReader::read(&mut r, 6) {
        Err(PICACommandReaderError::UniformIndexOutOfRange(96)) => {}
        other => panic!("expected UniformIndexOutOfRange(96), got {:?}", other),
    }
}

#[test]
fn lookup_table_write_unimplemented() {
    let mut buf = Vec::new();
    push_packet(&mut buf, 0x1, 0x1C8, 0xF);
    block_end(&mut buf);
    let mut r = Reader::new(&buf);
    match PICACommandReader::read(&mut r, 4) {
        Err(PICACommandReaderError::Unimplemented) => {}
        other => panic!("expected Unimplemented, got {:?}", other),
    }
}

#[test]
fn truncated_stream_rejected() {
    let buf = vec![1, 2, 3, 4, 5];
    let mut r = Reader::new(&buf);
    match PICACommandReader::read(&mut r, 4) {
        Err(PICACommandReaderError::IOError(_)) => {}
        other => panic!("expected IOError, got {:?}", other),
    }
}

#[test]
fn snapshot_accessors() {
    let mut buf = Vec::new();
    // index buffer: address 0x123 with the 16-bit mark, 7 entries
    push_packet(&mut buf, 0x8000_0123, 0x227, 0xF);
    push_packet(&mut buf, 7, 0x228, 0xF);
    // group 0: offset, permutation low, stride 12 / total 2 / perm high 0
    push_packet(&mut buf, 0x40, 0x203, 0xF);
    push_packet(&mut buf, 0x10, 0x204, 0xF);
    push_packet(&mut buf, (2 << 28) | (12 << 16), 0x205, 0xF);
    // main permutation: nibble 0 = Position, nibble 1 = Normal
    push_packet(&mut buf, 0x10, 0x2BB, 0xF);
    push_packet(&mut buf, 0, 0x2BC, 0xF);
    // formats: nibble 0 = Single/len 2, nibble 1 = SignedByte/len 2
    push_packet(&mut buf, 0x8B, 0x201, 0xF);
    push_packet(&mut buf, 0, 0x202, 0xF);
    block_end(&mut buf);
    let mut r = Reader::new(&buf);
    let snap = PICACommandReader::read(&mut r, 20).expect("decodes");
    assert_eq!(snap.get_index_buffer_address(), 0x123);
    assert_eq!(snap.get_index_buffer_format(), IndexBufferFormat::U16);
    assert_eq!(snap.get_index_buffer_total_vertices(), 7);
    assert_eq!(snap.get_vsh_attributes_buffer_offset(0), 0x40);
    assert_eq!(snap.get_vsh_attributes_buffer_stride(0), 12);
    assert_eq!(snap.get_vsh_total_attributes(0), 2);
    let main_perm = snap.get_vsh_attributes_buffer_permutation_none();
    assert_eq!(main_perm[0], VSHAttribute::Position);
    assert_eq!(main_perm[1], VSHAttribute::Normal);
    assert_eq!(main_perm[2], VSHAttribute::Position);
    let perm0 = snap.get_vsh_attributes_buffer_permutation(0);
    assert_eq!(perm0[0], 0);
    assert_eq!(perm0[1], 1);
    let formats = snap.get_vsh_attributes_buffer_format();
    assert_eq!(formats[0].format_type, bch3ds::AttributeFormatType::Single);
    assert_eq!(formats[0].attribute_length, 2);
    assert_eq!(formats[1].format_type, bch3ds::AttributeFormatType::SignedByte);
    assert_eq!(formats[1].attribute_length, 2);
}

#[test]
fn word_count_limit_stops_decode() {
    let mut buf = Vec::new();
    push_packet(&mut buf, 0xAA, 0x5, 0xF);
    push_packet(&mut buf, 0xBB, 0x6, 0xF);
    let mut r = Reader::new(&buf);
    // only the first packet's two words are owed
    let snap = PICACommandReader::read(&mut r, 2).expect("decodes");
    assert_eq!(snap.commands[0x5], 0xAA);
    assert_eq!(snap.commands[0x6], 0);
}
