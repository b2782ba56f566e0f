use bch3ds::{
    BCHHeader, Model, ModelError, ModelHeader, ModelHeaderError, Reader, BCH,
};

fn push_u32(buf: &mut Vec<u8>, w: u32) {
    buf.extend_from_slice(&w.to_le_bytes());
}

/// A model header whose dictionaries are empty and whose name points at a
/// short string appended after the fixed fields.
fn model_header_blob(null_magic: u32, name_ptr: u32) -> Vec<u8> {
    let mut data = vec![0u8; 152];
    data[0] = 0x11; // flags
    data[1] = 0x22; // skeleton scaling type
    data[2] = 0x33; // silhouette entries (low byte)
    data[132..136].copy_from_slice(&name_ptr.to_le_bytes());
    data[144..148].copy_from_slice(&null_magic.to_le_bytes());
    data.extend_from_slice(b"pikmin\0");
    data
}

#[test]
fn model_header_fields() {
    let data = model_header_blob(0, 152);
    let mut r = Reader::new(&data);
    let h = ModelHeader::read(&mut r).expect("parses");
    assert_eq!(h.flags, 0x11);
    assert_eq!(h.skeleton_scaling_type, 0x22);
    assert_eq!(h.silhouette_material_entries, 0x33);
    assert_eq!(h.world_transform.len(), 12);
    assert_eq!(h.model_name, "pikmin");
    assert_eq!(h.vertices.pointer_table_entries, 0);
    assert_eq!(r.pos, 152);
}

#[test]
fn model_header_null_magic_rejected() {
    let data = model_header_blob(0x99, 152);
    let mut r = Reader::new(&data);
    match ModelHeader::read(&mut r) {
        Err(ModelHeaderError::InvalidNullMagic(0x99)) => {}
        other => panic!("expected InvalidNullMagic, got {:?}", other.map(|_| ())),
    }
}

#[test]
fn model_header_null_name_rejected() {
    let data = model_header_blob(0, 0);
    let mut r = Reader::new(&data);
    match ModelHeader::read(&mut r) {
        Err(ModelHeaderError::NullPointerToName) => {}
        other => panic!("expected NullPointerToName, got {:?}", other.map(|_| ())),
    }
}

#[test]
fn model_without_meshes() {
    let data = model_header_blob(0, 152);
    let mut r = Reader::new(&data);
    let m = Model::read(&mut r).expect("model parses");
    assert!(m.mesh.is_empty());
}

#[test]
fn model_header_truncated() {
    let data = vec![0u8; 50];
    let mut r = Reader::new(&data);
    match ModelHeader::read(&mut r) {
        Err(ModelHeaderError::IOError(_)) | Err(ModelHeaderError::ReferenceDictError(_)) => {}
        other => panic!("expected exhaustion, got {:?}", other.map(|_| ())),
    }
}

fn minimal_header(contents_address: i32) -> BCHHeader {
    BCHHeader {
        backward_compatibility: 7,
        forward_compatibility: 0,
        converter_version: 42,
        contents_address,
        strings_address: 0,
        commands_address: 0,
        raw_data_address: 0,
        raw_ext_address: 0,
        relocation_address: 0,
        contents_length: 0,
        strings_length: 0,
        commands_length: 0,
        raw_data_length: 0,
        raw_ext_length: 0,
        relocation_length: 0,
        un_init_data_length: 0,
        un_init_commands_length: 0,
        flags: 0,
        address_count: 0,
    }
}

#[test]
fn minimum_viable_bch_has_no_models() {
    // magic, all lengths zero, contents address pointing at fifteen
    // zero-filled dictionaries
    let mut blob = minimal_header(68).write();
    blob.extend_from_slice(&[0u8; 180]);
    let mut bytes = blob;
    let bch = BCH::read(&mut bytes).expect("package parses");
    assert!(bch.models.is_empty());
}

#[test]
fn bch_with_one_empty_model() {
    // content header at 68; the models dictionary names a one-entry pointer
    // table; the table's single offset points at a mesh-less model
    let mut blob = minimal_header(68).write();
    let table_at: u32 = 248;
    let model_at: u32 = 252;
    // models dictionary
    push_u32(&mut blob, table_at);
    push_u32(&mut blob, 1);
    push_u32(&mut blob, 0);
    blob.extend_from_slice(&[0u8; 168]); // the other fourteen dictionaries
    assert_eq!(blob.len(), 248);
    push_u32(&mut blob, model_at);
    assert_eq!(blob.len() as u32, model_at);
    let name_ptr = model_at + 152;
    blob.extend_from_slice(&model_header_blob(0, name_ptr));
    let mut bytes = blob;
    let bch = BCH::read(&mut bytes).expect("package parses");
    assert_eq!(bch.models.len(), 1);
    assert!(bch.models[0].mesh.is_empty());
}

#[test]
fn bch_bad_magic_rejected() {
    let mut blob = minimal_header(68).write();
    blob.extend_from_slice(&[0u8; 180]);
    blob[0] = b'Z';
    let mut bytes = blob;
    match BCH::read(&mut bytes) {
        Err(bch3ds::BCHError::BCHHeaderError(bch3ds::BCHHeaderError::InvalidMagic(_))) => {}
        other => panic!("expected InvalidMagic, got {:?}", other.map(|_| ())),
    }
}

#[test]
fn bch_missing_content_rejected() {
    let blob = minimal_header(68).write();
    let mut bytes = blob;
    match BCH::read(&mut bytes) {
        Err(bch3ds::BCHError::BCHContentHeaderError(_)) => {}
        other => panic!("expected content header failure, got {:?}", other.map(|_| ())),
    }
}

#[test]
fn bch_model_error_propagates() {
    // the single model's null magic is wrong
    let mut blob = minimal_header(68).write();
    let table_at: u32 = 248;
    let model_at: u32 = 252;
    push_u32(&mut blob, table_at);
    push_u32(&mut blob, 1);
    push_u32(&mut blob, 0);
    blob.extend_from_slice(&[0u8; 168]);
    push_u32(&mut blob, model_at);
    let name_ptr = model_at + 152;
    blob.extend_from_slice(&model_header_blob(5, name_ptr));
    let mut bytes = blob;
    match BCH::read(&mut bytes) {
        Err(bch3ds::BCHError::ModelReadError(bch3ds::reader::ReadVecError::ReadingValueError(
            ModelError::ModelHeaderError(ModelHeaderError::InvalidNullMagic(5)),
        ))) => {}
        other => panic!("expected model null-magic failure, got {:?}", other.map(|_| ())),
    }
}

#[test]
fn relocated_bch_parses_through_moved_pointer() {
    // the models dictionary's pointer-table offset is stored relative to the
    // contents section and relocated before parsing: stored 248 - 68, plus
    // base 68 after relocation
    let mut h = minimal_header(68);
    h.relocation_address = 432;
    h.relocation_length = 4;
    let mut blob = h.write();
    let table_at: u32 = 248;
    let model_at: u32 = 252;
    push_u32(&mut blob, table_at - 68);
    push_u32(&mut blob, 1);
    push_u32(&mut blob, 0);
    blob.extend_from_slice(&[0u8; 168]);
    push_u32(&mut blob, model_at);
    let name_ptr = model_at + 152;
    blob.extend_from_slice(&model_header_blob(0, name_ptr));
    assert_eq!(blob.len(), 252 + 159);
    blob.extend_from_slice(&[0u8; 21]);
    assert_eq!(blob.len(), 432);
    // one relocation entry: source Contents, target Contents, pointer 0 ->
    // rewrites the word at the contents base (the models pointer-table
    // offset) by adding the contents base to it
    let entry: u32 = 0;
    push_u32(&mut blob, entry);
    let mut bytes = blob;
    let bch = BCH::read(&mut bytes).expect("package parses after relocation");
    assert_eq!(bch.models.len(), 1);
}
