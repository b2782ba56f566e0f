use bch3ds::{
    AttributeData, Object, ObjectEntry, ObjectEntryError, ObjectError, Reader, SkinningMode,
};

fn push_word(buf: &mut Vec<u8>, w: u32) {
    buf.extend_from_slice(&w.to_le_bytes());
}

fn push_packet(buf: &mut Vec<u8>, data: u32, id: u32, mask: u32) {
    push_word(buf, data);
    push_word(buf, id | (mask << 16));
}

fn to_f32(a: &AttributeData) -> f32 {
    match a {
        AttributeData::I8(v) => f32::from(*v),
        AttributeData::U8(v) => f32::from(*v),
        AttributeData::I16(v) => f32::from(*v),
        AttributeData::Single(bits) => f32::from_bits(*bits),
        AttributeData::Absent => 0.0,
    }
}

fn scaled_position(o: &Object, k: usize) -> (f32, f32, f32) {
    let s = f32::from_bits(o.position_scale);
    let off: Vec<f32> = o.position_offset.iter().map(|b| f32::from_bits(*b)).collect();
    let v = &o.vertices[k];
    (
        to_f32(&v.position[0]) * s + off[0],
        to_f32(&v.position[1]) * s + off[1],
        to_f32(&v.position[2]) * s + off[2],
    )
}

/// A single-mesh fixture: one face, a three-entry u8 index buffer, stride
/// 12, and three float positions.
fn single_mesh_blob() -> (Vec<u8>, u32, u32, u32) {
    let mut buf = Vec::new();
    // layout-authority stream at 0
    push_packet(&mut buf, 6, 0x2C0, 0xF);
    for _ in 0..4 {
        push_packet(&mut buf, 0.0f32.to_bits(), 0x2C1, 0xF);
    }
    push_packet(&mut buf, 7, 0x2C0, 0xF);
    for _ in 0..8 {
        push_packet(&mut buf, 1.0f32.to_bits(), 0x2C1, 0xF);
    }
    let vertex_buffer: u32 = 260;
    push_packet(&mut buf, vertex_buffer, 0x203, 0xF);
    push_packet(&mut buf, 0, 0x204, 0xF);
    push_packet(&mut buf, (1 << 28) | (12 << 16), 0x205, 0xF);
    push_packet(&mut buf, 0, 0x2BB, 0xF);
    push_packet(&mut buf, 0, 0x2BC, 0xF);
    // format nibble 0: Single (3) with length code 2
    push_packet(&mut buf, 0xB, 0x201, 0xF);
    push_packet(&mut buf, 0, 0x202, 0xF);
    push_packet(&mut buf, 0, 0x23D, 0);
    let vsh_words = (buf.len() / 4) as u32;
    assert_eq!(buf.len(), 176);
    // faces header at 176: skinning 0, no nodes, stream pointer at +0x2C
    let faces_header: u32 = 176;
    buf.extend_from_slice(&[0u8; 0x2C]);
    push_word(&mut buf, 232); // face stream offset
    push_word(&mut buf, 6); // face stream word count
    assert_eq!(buf.len(), 228);
    buf.extend_from_slice(&[0u8; 4]);
    // face stream at 232: index buffer at 256, u8 entries, three of them
    assert_eq!(buf.len(), 232);
    push_packet(&mut buf, 256, 0x227, 0xF);
    push_packet(&mut buf, 3, 0x228, 0xF);
    push_packet(&mut buf, 0, 0x23D, 0);
    assert_eq!(buf.len(), 256);
    // index buffer
    buf.extend_from_slice(&[0, 1, 2, 0]);
    // vertex buffer at 260: three positions, stride 12
    assert_eq!(buf.len(), 260);
    for (x, y, z) in [(0.0f32, 0.0f32, 0.0f32), (1.0, 0.0, 0.0), (0.0, 1.0, 0.0)] {
        push_word(&mut buf, x.to_bits());
        push_word(&mut buf, y.to_bits());
        push_word(&mut buf, z.to_bits());
    }
    // slack for the fourth scalar of the last vertex
    push_word(&mut buf, 0);
    (buf, vsh_words, faces_header, 1)
}

fn entry_for(vsh_words: u32, faces_header: u32, faces: u32, node_id: u16) -> ObjectEntry {
    ObjectEntry {
        material_id: 5,
        flags: 0,
        node_id,
        render_priority: 9,
        vsh_attributes_buffer_commands_word_count: vsh_words,
        vsh_attributes_buffer_commands_offset: 0,
        faces_header_offset: faces_header,
        faces_header_entries: faces,
        vsh_extra_attributes_buffer_commands_offset: 0,
        vsh_extra_attributes_buffer_commands_word_counts: 0,
        center_vector: [0, 0, 0],
        flags_offset: 0,
        bounding_box_offset: 0,
    }
}

#[test]
fn single_mesh_three_vertices() {
    let (blob, vsh_words, faces_header, faces) = single_mesh_blob();
    let entry = entry_for(vsh_words, faces_header, faces, 0);
    let names: Vec<String> = Vec::new();
    let mut r = Reader::new(&blob);
    let o = Object::read(&mut r, &entry, &names).expect("mesh materializes");
    assert_eq!(o.vertices.len(), 3);
    assert_eq!(scaled_position(&o, 0), (0.0, 0.0, 0.0));
    assert_eq!(scaled_position(&o, 1), (1.0, 0.0, 0.0));
    assert_eq!(scaled_position(&o, 2), (0.0, 1.0, 0.0));
    assert_eq!(o.material_id, 5);
    assert_eq!(o.render_priority, 9);
    assert_eq!(o.name, "mesh0");
    assert!(o.is_visible);
    assert!(!o.has_normal);
    assert!(!o.has_tangent);
    assert!(!o.has_color);
    assert!(!o.has_node);
    assert!(!o.has_weight);
    assert_eq!(o.tex_uv_count, 0);
    assert_eq!(f32::from_bits(o.position_scale), 1.0);
    // the empty node list is copied (nothing) and still backed by a unit weight
    assert!(o.vertices[0].node.is_empty());
    assert_eq!(o.vertices[0].weight, vec![1.0f32.to_bits()]);
    assert_eq!(o.vertices[0].diffuse_color, 0xFFFFFFFF);
}

#[test]
fn fallback_name_uses_node_id_digits() {
    let (blob, vsh_words, faces_header, faces) = single_mesh_blob();
    let entry = entry_for(vsh_words, faces_header, faces, 127);
    let names: Vec<String> = Vec::new();
    let mut r = Reader::new(&blob);
    let o = Object::read(&mut r, &entry, &names).expect("mesh materializes");
    assert_eq!(o.name, "mesh127");
}

#[test]
fn name_table_entry_used_when_present() {
    let (blob, vsh_words, faces_header, faces) = single_mesh_blob();
    let entry = entry_for(vsh_words, faces_header, faces, 1);
    let names: Vec<String> = vec![String::from("alpha"), String::from("beta")];
    let mut r = Reader::new(&blob);
    let o = Object::read(&mut r, &entry, &names).expect("mesh materializes");
    assert_eq!(o.name, "beta");
}

#[test]
fn zero_faces_unimplemented() {
    let (blob, vsh_words, faces_header, _) = single_mesh_blob();
    let entry = entry_for(vsh_words, faces_header, 0, 0);
    let names: Vec<String> = Vec::new();
    let mut r = Reader::new(&blob);
    match Object::read(&mut r, &entry, &names) {
        Err(ObjectError::Unimplemented(_)) => {}
        other => panic!("expected Unimplemented, got {:?}", other.map(|_| ())),
    }
}

#[test]
fn short_uniform_bank_rejected() {
    // a stream that configures nothing: bank 6 stays empty
    let mut blob = Vec::new();
    push_packet(&mut blob, 0, 0x23D, 0);
    let entry = entry_for(2, 0, 1, 0);
    let names: Vec<String> = Vec::new();
    let mut r = Reader::new(&blob);
    match Object::read(&mut r, &entry, &names) {
        Err(ObjectError::NotLongEnoughtError(_)) => {}
        other => panic!("expected NotLongEnoughtError, got {:?}", other.map(|_| ())),
    }
}

#[test]
fn invalid_skinning_rejected() {
    let (mut blob, vsh_words, faces_header, faces) = single_mesh_blob();
    // corrupt the face's skinning code
    blob[176] = 3;
    let entry = entry_for(vsh_words, faces_header, faces, 0);
    let names: Vec<String> = Vec::new();
    let mut r = Reader::new(&blob);
    match Object::read(&mut r, &entry, &names) {
        Err(ObjectError::InvalidSkinning) => {}
        other => panic!("expected InvalidSkinning, got {:?}", other.map(|_| ())),
    }
}

#[test]
fn node_list_copied_with_unit_weight() {
    let (mut blob, vsh_words, faces_header, faces) = single_mesh_blob();
    // give the face a two-entry node list; the list sits before offset 0x2C
    blob[176] = 2; // rigid skinning
    blob[178] = 2; // two node ids
    blob[180] = 4;
    blob[182] = 9;
    let entry = entry_for(vsh_words, faces_header, faces, 0);
    let names: Vec<String> = Vec::new();
    let mut r = Reader::new(&blob);
    let o = Object::read(&mut r, &entry, &names).expect("mesh materializes");
    assert!(o.has_node);
    assert!(o.has_weight);
    assert_eq!(o.vertices[0].node, vec![4, 9]);
    assert_eq!(o.vertices[0].weight, vec![1.0f32.to_bits()]);
}

#[test]
fn object_entry_null_magic_rejected() {
    // fifty-six bytes whose null-magic word holds 1
    let mut data = vec![0u8; 56];
    data[48] = 1;
    let mut r = Reader::new(&data);
    match ObjectEntry::read(&mut r) {
        Err(ObjectEntryError::NullMagicError(1)) => {}
        other => panic!("expected NullMagicError(1), got {:?}", other.map(|_| ())),
    }
}

#[test]
fn object_entry_fields() {
    let mut data = Vec::new();
    for w in [0x0005u16, 0x0001, 0x0002, 0x0003] {
        data.extend_from_slice(&w.to_le_bytes());
    }
    for w in [100u32, 200, 300, 400, 500, 600] {
        data.extend_from_slice(&w.to_le_bytes());
    }
    for f in [1.5f32, -2.5, 3.5] {
        data.extend_from_slice(&f.to_bits().to_le_bytes());
    }
    data.extend_from_slice(&7u32.to_le_bytes()); // flags offset
    data.extend_from_slice(&0u32.to_le_bytes()); // null magic
    data.extend_from_slice(&8u32.to_le_bytes()); // bounding box offset
    let mut r = Reader::new(&data);
    let e = ObjectEntry::read(&mut r).expect("parses");
    assert_eq!(e.material_id, 5);
    assert_eq!(e.flags, 1);
    assert_eq!(e.node_id, 2);
    assert_eq!(e.render_priority, 3);
    assert_eq!(e.vsh_attributes_buffer_commands_offset, 100);
    assert_eq!(e.vsh_attributes_buffer_commands_word_count, 200);
    assert_eq!(e.faces_header_offset, 300);
    assert_eq!(e.faces_header_entries, 400);
    assert_eq!(e.vsh_extra_attributes_buffer_commands_offset, 500);
    assert_eq!(e.vsh_extra_attributes_buffer_commands_word_counts, 600);
    assert_eq!(f32::from_bits(e.center_vector[0]), 1.5);
    assert_eq!(f32::from_bits(e.center_vector[1]), -2.5);
    assert_eq!(f32::from_bits(e.center_vector[2]), 3.5);
    assert_eq!(e.flags_offset, 7);
    assert_eq!(e.bounding_box_offset, 8);
    assert_eq!(r.pos, 56);
    // rigid-skinning check: the same blob ends exactly at the descriptor
    assert_eq!(SkinningMode::new(2), Some(SkinningMode::RigidSkinning));
}

/// A fixture like `single_mesh_blob` but with two attribute slots and
/// configurable permutation registers; stride 0 keeps every vertex inside
/// the buffer.
fn two_slot_blob(main_perm: u32) -> (Vec<u8>, u32, u32, u32) {
    let mut buf = Vec::new();
    push_packet(&mut buf, 6, 0x2C0, 0xF);
    for _ in 0..4 {
        push_packet(&mut buf, 0.0f32.to_bits(), 0x2C1, 0xF);
    }
    push_packet(&mut buf, 7, 0x2C0, 0xF);
    for _ in 0..8 {
        push_packet(&mut buf, 1.0f32.to_bits(), 0x2C1, 0xF);
    }
    let vertex_buffer: u32 = 260;
    push_packet(&mut buf, vertex_buffer, 0x203, 0xF);
    // slot 0 -> table nibble 0, slot 1 -> table nibble 1
    push_packet(&mut buf, 0x10, 0x204, 0xF);
    // two attributes, stride 0
    push_packet(&mut buf, 2 << 28, 0x205, 0xF);
    push_packet(&mut buf, main_perm, 0x2BB, 0xF);
    push_packet(&mut buf, 0, 0x2BC, 0xF);
    // both nibbles: Single with length code 2
    push_packet(&mut buf, 0xBB, 0x201, 0xF);
    push_packet(&mut buf, 0, 0x202, 0xF);
    push_packet(&mut buf, 0, 0x23D, 0);
    let vsh_words = (buf.len() / 4) as u32;
    assert_eq!(buf.len(), 176);
    let faces_header: u32 = 176;
    buf.extend_from_slice(&[0u8; 0x2C]);
    push_word(&mut buf, 232);
    push_word(&mut buf, 6);
    buf.extend_from_slice(&[0u8; 4]);
    push_packet(&mut buf, 256, 0x227, 0xF);
    push_packet(&mut buf, 3, 0x228, 0xF);
    push_packet(&mut buf, 0, 0x23D, 0);
    buf.extend_from_slice(&[0, 1, 2, 0]);
    assert_eq!(buf.len(), 260);
    for k in 0..10u32 {
        push_word(&mut buf, (k as f32).to_bits());
    }
    (buf, vsh_words, faces_header, 1)
}

#[test]
fn availability_scan_stops_at_first_texture_coordinate() {
    // slot 0 is TextureCoordinate0, slot 1 is Normal: the scan raises the
    // UV count and stops, so the normal's flag is never set, though the
    // normal data itself is still decoded into the vertices
    let (blob, vsh_words, faces_header, faces) = two_slot_blob(0x14);
    let entry = entry_for(vsh_words, faces_header, faces, 0);
    let names: Vec<String> = Vec::new();
    let mut r = Reader::new(&blob);
    let o = Object::read(&mut r, &entry, &names).expect("mesh materializes");
    assert_eq!(o.tex_uv_count, 1);
    assert!(!o.has_normal);
    assert_eq!(to_f32(&o.vertices[0].normal[0]), 4.0);
}

#[test]
fn availability_scan_flags_before_the_break() {
    // slot 0 is Normal, slot 1 is TextureCoordinate1: the flag lands before
    // the scan stops at the texture coordinate
    let (blob, vsh_words, faces_header, faces) = two_slot_blob(0x51);
    let entry = entry_for(vsh_words, faces_header, faces, 0);
    let names: Vec<String> = Vec::new();
    let mut r = Reader::new(&blob);
    let o = Object::read(&mut r, &entry, &names).expect("mesh materializes");
    assert_eq!(o.tex_uv_count, 2);
    assert!(o.has_normal);
    assert_eq!(to_f32(&o.vertices[0].normal[0]), 0.0);
}

/// A fixture like `single_mesh_blob` but with distinct values in uniform
/// bank 6, so the position-offset pop order is observable.
fn offset_mesh_blob() -> (Vec<u8>, u32, u32, u32) {
    let mut buf = Vec::new();
    push_packet(&mut buf, 6, 0x2C0, 0xF);
    for v in [1.0f32, 2.0, 3.0, 4.0] {
        push_packet(&mut buf, v.to_bits(), 0x2C1, 0xF);
    }
    push_packet(&mut buf, 7, 0x2C0, 0xF);
    for _ in 0..8 {
        push_packet(&mut buf, 1.0f32.to_bits(), 0x2C1, 0xF);
    }
    let vertex_buffer: u32 = 260;
    push_packet(&mut buf, vertex_buffer, 0x203, 0xF);
    push_packet(&mut buf, 0, 0x204, 0xF);
    push_packet(&mut buf, (1 << 28) | (12 << 16), 0x205, 0xF);
    push_packet(&mut buf, 0, 0x2BB, 0xF);
    push_packet(&mut buf, 0, 0x2BC, 0xF);
    push_packet(&mut buf, 0xB, 0x201, 0xF);
    push_packet(&mut buf, 0, 0x202, 0xF);
    push_packet(&mut buf, 0, 0x23D, 0);
    let vsh_words = (buf.len() / 4) as u32;
    assert_eq!(buf.len(), 176);
    let faces_header: u32 = 176;
    buf.extend_from_slice(&[0u8; 0x2C]);
    push_word(&mut buf, 232);
    push_word(&mut buf, 6);
    buf.extend_from_slice(&[0u8; 4]);
    push_packet(&mut buf, 256, 0x227, 0xF);
    push_packet(&mut buf, 3, 0x228, 0xF);
    push_packet(&mut buf, 0, 0x23D, 0);
    buf.extend_from_slice(&[0, 1, 2, 0]);
    for (x, y, z) in [(0.0f32, 0.0f32, 0.0f32), (1.0, 0.0, 0.0), (0.0, 1.0, 0.0)] {
        push_word(&mut buf, x.to_bits());
        push_word(&mut buf, y.to_bits());
        push_word(&mut buf, z.to_bits());
    }
    push_word(&mut buf, 0);
    (buf, vsh_words, faces_header, 1)
}

#[test]
fn position_offset_pops_in_reverse_append_order() {
    // bank 6 holds [1.0, 2.0, 3.0, 4.0] in append order; the offset vector
    // is consumed by pop, last-appended first: (4.0, 3.0, 2.0, 1.0)
    let (blob, vsh_words, faces_header, faces) = offset_mesh_blob();
    let entry = entry_for(vsh_words, faces_header, faces, 0);
    let names: Vec<String> = Vec::new();
    let mut r = Reader::new(&blob);
    let o = Object::read(&mut r, &entry, &names).expect("mesh materializes");
    let off: Vec<f32> = o.position_offset.iter().map(|b| f32::from_bits(*b)).collect();
    assert_eq!(off, vec![4.0, 3.0, 2.0, 1.0]);
    // each vertex lands at raw * 1.0 plus the (x, y, z) offset (4, 3, 2)
    assert_eq!(scaled_position(&o, 0), (4.0, 3.0, 2.0));
    assert_eq!(scaled_position(&o, 1), (5.0, 3.0, 2.0));
    assert_eq!(scaled_position(&o, 2), (4.0, 4.0, 2.0));
}
