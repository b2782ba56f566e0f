use bch3ds::{BCHHeader, BCHHeaderError, Reader};

fn sample_header() -> BCHHeader {
    BCHHeader {
        backward_compatibility: 0x21,
        forward_compatibility: 0x42,
        converter_version: 0xBEEF,
        contents_address: 68,
        strings_address: -4,
        commands_address: 0x1000,
        raw_data_address: 0x2000,
        raw_ext_address: 0x3000,
        relocation_address: 0x4000,
        contents_length: 0x11,
        strings_length: 0x22,
        commands_length: 0x33,
        raw_data_length: 0x44,
        raw_ext_length: 0x55,
        relocation_length: 0,
        un_init_data_length: -1,
        un_init_commands_length: 0x7FFFFFFF,
        flags: 0xA5,
        address_count: 0x1234,
    }
}

#[test]
fn header_round_trip() {
    let h = sample_header();
    let bytes = h.write();
    assert_eq!(bytes.len(), 68);
    let mut r = Reader::new(&bytes);
    let parsed = BCHHeader::read(&mut r).expect("round trip parses");
    assert_eq!(parsed, h);
    assert_eq!(r.pos, 68);
}

#[test]
fn header_round_trip_extremes() {
    let mut h = sample_header();
    h.contents_address = i32::MIN;
    h.strings_address = i32::MAX;
    h.converter_version = u16::MAX;
    h.address_count = 0;
    h.flags = 0;
    let bytes = h.write();
    let mut r = Reader::new(&bytes);
    let parsed = BCHHeader::read(&mut r).expect("round trip parses");
    assert_eq!(parsed, h);
}

#[test]
fn header_magic_rejected() {
    let h = sample_header();
    for bad in [0u8, b'A', b'b', 0xFF, b'C'] {
        let mut bytes = h.write();
        bytes[0] = bad;
        let mut r = Reader::new(&bytes);
        match BCHHeader::read(&mut r) {
            Err(BCHHeaderError::InvalidMagic(_)) => {}
            other => panic!("expected InvalidMagic, got {:?}", other),
        }
    }
}

#[test]
fn header_magic_string_payload() {
    let mut bytes = sample_header().write();
    bytes[0] = b'X';
    let mut r = Reader::new(&bytes);
    match BCHHeader::read(&mut r) {
        Err(BCHHeaderError::InvalidMagic(m)) => assert_eq!(m, "XCH"),
        other => panic!("expected InvalidMagic, got {:?}", other),
    }
}

#[test]
fn header_truncated_before_magic_end() {
    for len in 0..4usize {
        let bytes: Vec<u8> = sample_header().write()[..len].to_vec();
        let mut r = Reader::new(&bytes);
        match BCHHeader::read(&mut r) {
            Err(BCHHeaderError::IOError(_)) => {}
            other => panic!("expected IOError for len {}, got {:?}", len, other),
        }
    }
}

#[test]
fn header_truncated_fields() {
    let bytes: Vec<u8> = sample_header().write()[..40].to_vec();
    let mut r = Reader::new(&bytes);
    match BCHHeader::read(&mut r) {
        Err(BCHHeaderError::IOError(_)) => {}
        other => panic!("expected IOError, got {:?}", other),
    }
}

#[test]
fn get_version_is_backward_compatibility() {
    let h = sample_header();
    assert_eq!(h.get_version(), 0x21);
}
