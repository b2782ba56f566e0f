//! The object (mesh) materializer: from a per-mesh descriptor and the
//! relocated blob, decode the mesh's PICA command streams, resolve the
//! vertex layout, walk the index buffer, and assemble the vertices.

use vstd::prelude::*;
use crate::objectentry::ObjectEntry;
use crate::picacommand::{
    attribute_format_type_of, vsh_attribute_of, AttributeData, AttributeFormat,
    AttributeFormatType, IndexBufferFormat, VSHAttribute,
};
use crate::picacommandreader::{
    composite64, nibble_at, pica_err_kind, pica_init, pica_run, PicaFailure, PICACommandReader,
    PICACommandReaderError,
};
use crate::reader::{i16_at, i8_at, push_char, u16_at, u32_at, Reader};
use crate::skinningmode::{skinning_mode_of, SkinningMode};
use crate::vertex::Vertex;

verus! {

#[derive(Debug)]
pub enum ObjectError {
    /// The blob ended while the named part was being read.
    IOError(&'static str),
    /// A PICA command stream (the named one) failed to decode.
    PICACommandReaderError(PICACommandReaderError, &'static str),
    /// A uniform bank held fewer values than the named consumer needs.
    NotLongEnoughtError(&'static str),
    /// A face carried an unknown skinning-mode code.
    InvalidSkinning,
    /// The descriptor names no faces; such meshes are not implemented.
    Unimplemented(&'static str),
}

/// What failed, with the labels stripped: the shape of an `ObjectError`.
pub enum ObjectFailure {
    Exhausted,
    Pica(PicaFailure),
    NotLongEnough,
    BadSkinning,
    NoFaces,
}

/// The failure an error value reports.
pub open spec fn object_err_kind(e: ObjectError) -> ObjectFailure {
    match e {
        ObjectError::IOError(_) => ObjectFailure::Exhausted,
        ObjectError::PICACommandReaderError(pe, _) => ObjectFailure::Pica(pica_err_kind(pe)),
        ObjectError::NotLongEnoughtError(_) => ObjectFailure::NotLongEnough,
        ObjectError::InvalidSkinning => ObjectFailure::BadSkinning,
        ObjectError::Unimplemented(_) => ObjectFailure::NoFaces,
    }
}

/// The availability flags the layout scan accumulates.
#[derive(Debug, Clone, Copy, PartialEq, Eq, Structural)]
pub struct Avail {
    pub has_normal: bool,
    pub has_tangent: bool,
    pub has_color: bool,
    pub uv: i32,
}

/// The abstract value of one assembled vertex.
pub struct VertexSpec {
    pub position: Seq<AttributeData>,
    pub normal: Seq<AttributeData>,
    pub tangent: Seq<AttributeData>,
    pub node: Seq<i32>,
    pub weight: Seq<u32>,
    pub diffuse_color: u32,
}

/// The abstract value of an exec vertex.
pub open spec fn vertex_view(v: Vertex) -> VertexSpec {
    VertexSpec {
        position: v.position@,
        normal: v.normal@,
        tangent: v.tangent@,
        node: v.node@,
        weight: v.weight@,
        diffuse_color: v.diffuse_color,
    }
}

/// The abstract values of a vector of vertices.
pub open spec fn vertices_view(v: Seq<Vertex>) -> Seq<VertexSpec> {
    Seq::new(v.len(), |i: int| vertex_view(v[i]))
}

/// A vertex before any attribute is written: padded slots, no nodes, no
/// weights, white diffuse color.
pub open spec fn vertex_empty() -> VertexSpec {
    VertexSpec {
        position: seq![AttributeData::Absent, AttributeData::Absent, AttributeData::Absent],
        normal: seq![AttributeData::Absent, AttributeData::Absent, AttributeData::Absent],
        tangent: seq![AttributeData::Absent, AttributeData::Absent, AttributeData::Absent],
        node: Seq::empty(),
        weight: Seq::empty(),
        diffuse_color: 0xffffffff,
    }
}

/// The abstract value of an assembled mesh.
pub struct ObjectContents {
    pub vertices: Seq<VertexSpec>,
    pub material_id: u16,
    pub render_priority: u16,
    pub name: Seq<char>,
    pub is_visible: bool,
    pub has_normal: bool,
    pub has_tangent: bool,
    pub has_color: bool,
    pub has_node: bool,
    pub has_weight: bool,
    pub tex_uv_count: i32,
    pub position_offset: Seq<u32>,
    pub position_scale: u32,
    pub normal_scale: u32,
    pub tangent_scale: u32,
}

/// A mesh: its vertices (raw attribute scalars), identity and availability
/// flags, and the float-uniform factors (as 32-bit float bit patterns) a
/// consumer needs to place the vertices: the position offset vector and the
/// position, normal and tangent scales.
#[derive(Debug, Clone)]
pub struct Object {
    pub vertices: Vec<Vertex>,
    pub material_id: u16,
    pub render_priority: u16,
    pub name: String,
    pub is_visible: bool,
    pub has_normal: bool,
    pub has_tangent: bool,
    pub has_color: bool,
    pub has_node: bool,
    pub has_weight: bool,
    pub tex_uv_count: i32,
    pub position_offset: [u32; 4],
    pub position_scale: u32,
    pub normal_scale: u32,
    pub tangent_scale: u32,
}

/// The abstract value of an exec mesh.
pub open spec fn object_view(o: Object) -> ObjectContents {
    ObjectContents {
        vertices: vertices_view(o.vertices@),
        material_id: o.material_id,
        render_priority: o.render_priority,
        name: o.name@,
        is_visible: o.is_visible,
        has_normal: o.has_normal,
        has_tangent: o.has_tangent,
        has_color: o.has_color,
        has_node: o.has_node,
        has_weight: o.has_weight,
        tex_uv_count: o.tex_uv_count,
        position_offset: o.position_offset@,
        position_scale: o.position_scale,
        normal_scale: o.normal_scale,
        tangent_scale: o.tangent_scale,
    }
}

/// The decimal digits of a non-negative number.
pub open spec fn spec_decimal(n: int) -> Seq<char>
    decreases n,
{
    if n < 10 {
        seq![((0x30 + n) as u8) as char]
    } else {
        spec_decimal(n / 10).push(((0x30 + n % 10) as u8) as char)
    }
}

/// The name a mesh gets: the node's entry of the name table, or `mesh`
/// followed by the node id where the table is too short.
pub open spec fn object_name_spec(node_id: u16, names: Seq<Seq<char>>) -> Seq<char> {
    if node_id as int >= names.len() {
        seq!['m', 'e', 's', 'h'] + spec_decimal(node_id as int)
    } else {
        names[node_id as int]
    }
}

/// The abstract values of the name table.
pub open spec fn names_view(v: Seq<String>) -> Seq<Seq<char>> {
    Seq::new(v.len(), |i: int| v[i]@)
}

/// How many bytes one scalar of an element type takes.
pub open spec fn scalar_size(t: AttributeFormatType) -> int {
    match t {
        AttributeFormatType::SignedByte => 1,
        AttributeFormatType::UnsignedByte => 1,
        AttributeFormatType::SignedShort => 2,
        AttributeFormatType::Single => 4,
    }
}

/// One typed scalar read at `pos`.
pub open spec fn scalar_at(s: Seq<u8>, pos: int, t: AttributeFormatType) -> AttributeData {
    match t {
        AttributeFormatType::SignedByte => AttributeData::I8(i8_at(s, pos) as i8),
        AttributeFormatType::UnsignedByte => AttributeData::U8(s[pos]),
        AttributeFormatType::SignedShort => AttributeData::I16(i16_at(s, pos) as i16),
        AttributeFormatType::Single => AttributeData::Single(u32_at(s, pos) as u32),
    }
}

/// The four consecutive typed scalars of one attribute vector at `pos`.
pub open spec fn vector4_at(s: Seq<u8>, pos: int, t: AttributeFormatType) -> Seq<AttributeData> {
    seq![
        scalar_at(s, pos, t),
        scalar_at(s, pos + scalar_size(t), t),
        scalar_at(s, pos + 2 * scalar_size(t), t),
        scalar_at(s, pos + 3 * scalar_size(t), t),
    ]
}

/// The vertex-buffer offset of attribute group 0, from the register file.
pub open spec fn attrs_offset(regs: Seq<u32>) -> int {
    regs[0x203] as int
}

/// The per-vertex stride of attribute group 0.
pub open spec fn attrs_stride(regs: Seq<u32>) -> int {
    regs[0x205] as int / 0x1_0000 % 0x100
}

/// How many attributes group 0 carries per vertex.
pub open spec fn total_attrs(regs: Seq<u32>) -> int {
    regs[0x205] as int / 0x1000_0000
}

/// Entry `k` of the main attribute permutation (a nibble is at most 15, so
/// it always decodes).
pub open spec fn main_perm_at(regs: Seq<u32>, k: int) -> VSHAttribute {
    match vsh_attribute_of(
        nibble_at(composite64(regs[0x2bb] as int, regs[0x2bc] as int), k) as u8,
    ) {
        Some(a) => a,
        None => VSHAttribute::Position,
    }
}

/// Entry `k` of group 0's attribute permutation.
pub open spec fn perm0_at(regs: Seq<u32>, k: int) -> int {
    nibble_at(composite64(regs[0x204] as int, regs[0x205] as int % 0x10000), k)
}

/// Entry `k` of the attribute format table.
pub open spec fn format0_at(regs: Seq<u32>, k: int) -> AttributeFormat {
    let nib = nibble_at(composite64(regs[0x201] as int, regs[0x202] as int), k);
    AttributeFormat {
        format_type: match attribute_format_type_of((nib % 4) as u8) {
            Some(t) => t,
            None => AttributeFormatType::SignedByte,
        },
        attribute_length: (nib / 4) as u32,
    }
}

/// The semantic identity of vertex-stream slot `k`.
pub open spec fn slot_attr(regs: Seq<u32>, k: int) -> VSHAttribute {
    main_perm_at(regs, perm0_at(regs, k))
}

/// The format of vertex-stream slot `k`: the table entry, with bone weights
/// forced to unsigned bytes.
pub open spec fn slot_format(regs: Seq<u32>, k: int) -> AttributeFormat {
    let f = format0_at(regs, perm0_at(regs, k));
    if slot_attr(regs, k) == VSHAttribute::BoneWeight {
        AttributeFormat { format_type: AttributeFormatType::UnsignedByte, ..f }
    } else {
        f
    }
}

/// The availability scan over the vertex-stream slots: normals, tangents
/// and colors set their flag; the first texture coordinate raises the UV
/// count and stops the scan.
pub open spec fn avail_scan(regs: Seq<u32>, k: int, n: int, st: Avail) -> Avail
    decreases n - k,
{
    if k >= n {
        st
    } else {
        match slot_attr(regs, k) {
            VSHAttribute::Normal => avail_scan(regs, k + 1, n, Avail { has_normal: true, ..st }),
            VSHAttribute::Tangent => avail_scan(regs, k + 1, n, Avail { has_tangent: true, ..st }),
            VSHAttribute::Color => avail_scan(regs, k + 1, n, Avail { has_color: true, ..st }),
            VSHAttribute::TextureCoordinate0 => Avail {
                uv: if st.uv >= 1 {
                    st.uv
                } else {
                    1
                },
                ..st
            },
            VSHAttribute::TextureCoordinate1 => Avail {
                uv: if st.uv >= 2 {
                    st.uv
                } else {
                    2
                },
                ..st
            },
            VSHAttribute::TextureCoordinate2 => Avail {
                uv: if st.uv >= 3 {
                    st.uv
                } else {
                    3
                },
                ..st
            },
            _ => avail_scan(regs, k + 1, n, st),
        }
    }
}

/// The attribute slots of one vertex, read in order from `pos`: positions,
/// normals and tangents keep the first three scalars of their vector;
/// everything else is decoded and dropped.
pub open spec fn vertex_slots(
    s: Seq<u8>,
    regs: Seq<u32>,
    pos: int,
    k: int,
    n: int,
    v: VertexSpec,
) -> Result<VertexSpec, ObjectFailure>
    decreases n - k,
{
    if k >= n {
        Ok(v)
    } else {
        let f = slot_format(regs, k);
        let sz = scalar_size(f.format_type);
        if pos + 4 * sz > s.len() {
            Err(ObjectFailure::Exhausted)
        } else {
            let vec4 = vector4_at(s, pos, f.format_type);
            let v2 = match slot_attr(regs, k) {
                VSHAttribute::Position => VertexSpec { position: vec4.take(3), ..v },
                VSHAttribute::Normal => VertexSpec { normal: vec4.take(3), ..v },
                VSHAttribute::Tangent => VertexSpec { tangent: vec4.take(3), ..v },
                _ => v,
            };
            vertex_slots(s, regs, pos + 4 * sz, k + 1, n, v2)
        }
    }
}

/// The node and weight bookkeeping after a vertex's attributes: a face's
/// node list of at most four entries is copied in, a unit weight (the bit
/// pattern of 1.0) backs it, and non-smooth skinning ensures at least one
/// weight when nodes exist.
pub open spec fn apply_nodes(v: VertexSpec, node_list: Seq<u16>, skinning: SkinningMode) -> VertexSpec {
    let v1 = if v.node.len() == 0 && node_list.len() <= 4 {
        let vn = VertexSpec { node: node_list.map_values(|x: u16| x as i32), ..v };
        if vn.weight.len() == 0 {
            VertexSpec { weight: seq![0x3f800000u32], ..vn }
        } else {
            vn
        }
    } else {
        v
    };
    if skinning != SkinningMode::SmoothSkinning && v1.node.len() > 0 && v1.weight.len() == 0 {
        VertexSpec { weight: seq![0x3f800000u32], ..v1 }
    } else {
        v1
    }
}

/// The index-buffer walk of one face: indices `i` to `total` are read (one
/// or two bytes each), each names a vertex record at the group-0 offset
/// plus index times stride, and each assembled vertex lands in `acc`.
pub open spec fn vertices_loop(
    s: Seq<u8>,
    regs: Seq<u32>,
    idx_pos: int,
    i: int,
    total: int,
    idx16: bool,
    node_list: Seq<u16>,
    skinning: SkinningMode,
    acc: Seq<VertexSpec>,
) -> Result<Seq<VertexSpec>, ObjectFailure>
    decreases total - i,
{
    if i >= total {
        Ok(acc)
    } else {
        let isz: int = if idx16 {
            2
        } else {
            1
        };
        if idx_pos + isz > s.len() {
            Err(ObjectFailure::Exhausted)
        } else {
            let index: int = if idx16 {
                u16_at(s, idx_pos)
            } else {
                s[idx_pos] as int
            };
            let vpos = attrs_offset(regs) + index * attrs_stride(regs);
            match vertex_slots(s, regs, vpos, 0, total_attrs(regs), vertex_empty()) {
                Err(e) => Err(e),
                Ok(v) => vertices_loop(
                    s,
                    regs,
                    idx_pos + isz,
                    i + 1,
                    total,
                    idx16,
                    node_list,
                    skinning,
                    acc.push(apply_nodes(v, node_list, skinning)),
                ),
            }
        }
    }
}

/// What the faces loop accumulates.
pub struct FacesAcc {
    pub vertices: Seq<VertexSpec>,
    pub avail: Avail,
    pub has_node: bool,
    pub has_weight: bool,
}

/// One face: its header record (skinning mode, node list, and the face's
/// own PICA stream), the availability scan, and the index-buffer walk.
pub open spec fn face_step(
    s: Seq<u8>,
    regs: Seq<u32>,
    entry: ObjectEntry,
    f: int,
    acc: FacesAcc,
) -> Result<FacesAcc, ObjectFailure> {
    let base = entry.faces_header_offset + 0x34 * f;
    if base + 2 > s.len() {
        Err(ObjectFailure::Exhausted)
    } else {
        match skinning_mode_of(u16_at(s, base) as u16) {
            None => Err(ObjectFailure::BadSkinning),
            Some(skinning) => {
                if base + 4 > s.len() {
                    Err(ObjectFailure::Exhausted)
                } else {
                    let ne = u16_at(s, base + 2);
                    if base + 4 + 2 * ne > s.len() {
                        Err(ObjectFailure::Exhausted)
                    } else {
                        let node_list = Seq::new(
                            ne as nat,
                            |t: int| u16_at(s, base + 4 + 2 * t) as u16,
                        );
                        if base + 0x34 > s.len() {
                            Err(ObjectFailure::Exhausted)
                        } else {
                            let fho = u32_at(s, base + 0x2c);
                            let fhwc = u32_at(s, base + 0x30);
                            match pica_run(s, pica_init(fho), fhwc) {
                                Err(e) => Err(ObjectFailure::Pica(e)),
                                Ok(irun) => {
                                    let ib_addr = irun.regs[0x227] as int % 0x8000_0000;
                                    let idx16 = irun.regs[0x227] >= 0x8000_0000;
                                    let total = irun.regs[0x228] as int;
                                    let avail2 = avail_scan(regs, 0, total_attrs(regs), acc.avail);
                                    let hn = acc.has_node || node_list.len() > 0;
                                    let hw = acc.has_weight || node_list.len() > 0;
                                    match vertices_loop(
                                        s,
                                        regs,
                                        ib_addr,
                                        0,
                                        total,
                                        idx16,
                                        node_list,
                                        skinning,
                                        acc.vertices,
                                    ) {
                                        Err(e) => Err(e),
                                        Ok(vs) => Ok(
                                            FacesAcc {
                                                vertices: vs,
                                                avail: avail2,
                                                has_node: hn,
                                                has_weight: hw,
                                            },
                                        ),
                                    }
                                },
                            }
                        }
                    }
                }
            },
        }
    }
}

/// Faces `f` to `n` applied in order.
pub open spec fn faces_loop(
    s: Seq<u8>,
    regs: Seq<u32>,
    entry: ObjectEntry,
    f: int,
    n: int,
    acc: FacesAcc,
) -> Result<FacesAcc, ObjectFailure>
    decreases n - f,
{
    if f >= n {
        Ok(acc)
    } else {
        match face_step(s, regs, entry, f, acc) {
            Ok(a2) => faces_loop(s, regs, entry, f + 1, n, a2),
            Err(e) => Err(e),
        }
    }
}

/// The whole materialization of one mesh: the layout-authority PICA stream,
/// the scaling uniforms popped from banks 6 and 7 (in reverse of storage
/// order), and the faces.
#[verifier::opaque]
pub open spec fn object_read_spec(
    s: Seq<u8>,
    entry: ObjectEntry,
    names: Seq<Seq<char>>,
) -> Result<ObjectContents, ObjectFailure> {
    let name = object_name_spec(entry.node_id, names);
    match pica_run(
        s,
        pica_init(entry.vsh_attributes_buffer_commands_offset as int),
        entry.vsh_attributes_buffer_commands_word_count as int,
    ) {
        Err(e) => Err(ObjectFailure::Pica(e)),
        Ok(run) => {
            let u6 = run.uniforms[6];
            let u7 = run.uniforms[7];
            if u6.len() < 4 {
                Err(ObjectFailure::NotLongEnough)
            } else if u7.len() < 8 {
                Err(ObjectFailure::NotLongEnough)
            } else {
                let position_offset = seq![
                    u6[u6.len() - 1],
                    u6[u6.len() - 2],
                    u6[u6.len() - 3],
                    u6[u6.len() - 4],
                ];
                if entry.faces_header_entries == 0 {
                    Err(ObjectFailure::NoFaces)
                } else {
                    match faces_loop(
                        s,
                        run.regs,
                        entry,
                        0,
                        entry.faces_header_entries as int,
                        FacesAcc {
                            vertices: Seq::empty(),
                            avail: Avail {
                                has_normal: false,
                                has_tangent: false,
                                has_color: false,
                                uv: 0,
                            },
                            has_node: false,
                            has_weight: false,
                        },
                    ) {
                        Err(e) => Err(e),
                        Ok(acc) => Ok(
                            ObjectContents {
                                vertices: acc.vertices,
                                material_id: entry.material_id,
                                render_priority: entry.render_priority,
                                name: name,
                                is_visible: true,
                                has_normal: acc.avail.has_normal,
                                has_tangent: acc.avail.has_tangent,
                                has_color: acc.avail.has_color,
                                has_node: acc.has_node,
                                has_weight: acc.has_weight,
                                tex_uv_count: acc.avail.uv,
                                position_offset: position_offset,
                                position_scale: u7[u7.len() - 5],
                                normal_scale: u7[u7.len() - 6],
                                tangent_scale: u7[u7.len() - 7],
                            },
                        ),
                    }
                }
            }
        },
    }
}



/// Position-offset and scale pop order: whenever a mesh materializes, its
/// offset vector is the last four values of uniform bank 6 in reverse
/// append order (last-appended first), and its scales sit at the
/// documented depths of bank 7 (the fifth, sixth and seventh from the
/// end: position, normal, tangent).
pub proof fn lemma_uniform_pop_order(s: Seq<u8>, entry: ObjectEntry, names: Seq<Seq<char>>)
    requires
        object_read_spec(s, entry, names) is Ok,
    ensures
        ({
            let run = pica_run(
                s,
                pica_init(entry.vsh_attributes_buffer_commands_offset as int),
                entry.vsh_attributes_buffer_commands_word_count as int,
            );
            let oc = object_read_spec(s, entry, names)->Ok_0;
            &&& run is Ok
            &&& run->Ok_0.uniforms[6].len() >= 4
            &&& run->Ok_0.uniforms[7].len() >= 8
            &&& ({
                let u6 = run->Ok_0.uniforms[6];
                let u7 = run->Ok_0.uniforms[7];
                &&& oc.position_offset == seq![
                    u6[u6.len() - 1],
                    u6[u6.len() - 2],
                    u6[u6.len() - 3],
                    u6[u6.len() - 4],
                ]
                &&& oc.position_scale == u7[u7.len() - 5]
                &&& oc.normal_scale == u7[u7.len() - 6]
                &&& oc.tangent_scale == u7[u7.len() - 7]
            })
        }),
{
    reveal(object_read_spec);
}

/// The decimal digits of `n`.
fn u16_to_decimal(n: u16) -> (r: String)
    ensures
        r@ == spec_decimal(n as int),
    decreases n,
{
    if n < 10 {
        let mut out = String::new();
        push_char(&mut out, (0x30 + n as u8) as char);
        out
    } else {
        let mut out = u16_to_decimal(n / 10);
        push_char(&mut out, (0x30 + (n % 10) as u8) as char);
        out
    }
}

/// The tables of the layout authority, as the snapshot getters hand them
/// out, tied back to the register file.
pub open spec fn layout_tables_ok(
    regs: Seq<u32>,
    main_perm: Seq<VSHAttribute>,
    perm0: Seq<u8>,
    formats: Seq<AttributeFormat>,
    total0: u32,
    offset0: u32,
    stride0: u8,
) -> bool {
    &&& regs.len() == 0x10000
    &&& main_perm.len() == 16
    &&& (forall|k: int| 0 <= k < 16 ==> #[trigger] main_perm[k] == main_perm_at(regs, k))
    &&& perm0.len() == 16
    &&& (forall|k: int| 0 <= k < 16 ==> (#[trigger] perm0[k]) < 16)
    &&& (forall|k: int| 0 <= k < 16 ==> (#[trigger] perm0[k]) as int == perm0_at(regs, k))
    &&& formats.len() == 16
    &&& (forall|k: int| 0 <= k < 16 ==> #[trigger] formats[k] == format0_at(regs, k))
    &&& total0 as int == total_attrs(regs)
    &&& total0 <= 15
    &&& offset0 as int == attrs_offset(regs)
    &&& stride0 as int == attrs_stride(regs)
}

/// Reads one attribute vector: four scalars of the format's element type.
fn get_vector(r: &mut Reader, format: AttributeFormat) -> (res: Result<
    [AttributeData; 4],
    ObjectError,
>)
    ensures
        final(r).data == old(r).data,
        ({
            let sz = scalar_size(format.format_type);
            let p = old(r).pos as int;
            if p + 4 * sz > old(r).data@.len() {
                res matches Err(ObjectError::IOError(_))
            } else {
                &&& res matches Ok(a) && a@ == vector4_at(old(r).data@, p, format.format_type)
                &&& final(r).pos == p + 4 * sz
            }
        }),
{
    match format.format_type {
        AttributeFormatType::SignedByte => {
            let a0 = match r.read_i8() {
                Some(v) => v,
                None => return Err(ObjectError::IOError("i8 member of a vector")),
            };
            let a1 = match r.read_i8() {
                Some(v) => v,
                None => return Err(ObjectError::IOError("i8 member of a vector")),
            };
            let a2 = match r.read_i8() {
                Some(v) => v,
                None => return Err(ObjectError::IOError("i8 member of a vector")),
            };
            let a3 = match r.read_i8() {
                Some(v) => v,
                None => return Err(ObjectError::IOError("i8 member of a vector")),
            };
            let out = [
                AttributeData::I8(a0),
                AttributeData::I8(a1),
                AttributeData::I8(a2),
                AttributeData::I8(a3),
            ];
            proof {
                assert(out@ =~= vector4_at(old(r).data@, old(r).pos as int, format.format_type));
            }
            Ok(out)
        },
        AttributeFormatType::UnsignedByte => {
            let a0 = match r.read_u8() {
                Some(v) => v,
                None => return Err(ObjectError::IOError("u8 member of a vector")),
            };
            let a1 = match r.read_u8() {
                Some(v) => v,
                None => return Err(ObjectError::IOError("u8 member of a vector")),
            };
            let a2 = match r.read_u8() {
                Some(v) => v,
                None => return Err(ObjectError::IOError("u8 member of a vector")),
            };
            let a3 = match r.read_u8() {
                Some(v) => v,
                None => return Err(ObjectError::IOError("u8 member of a vector")),
            };
            let out = [
                AttributeData::U8(a0),
                AttributeData::U8(a1),
                AttributeData::U8(a2),
                AttributeData::U8(a3),
            ];
            proof {
                assert(out@ =~= vector4_at(old(r).data@, old(r).pos as int, format.format_type));
            }
            Ok(out)
        },
        AttributeFormatType::SignedShort => {
            let a0 = match r.read_i16_le() {
                Some(v) => v,
                None => return Err(ObjectError::IOError("i16 member of a vector")),
            };
            let a1 = match r.read_i16_le() {
                Some(v) => v,
                None => return Err(ObjectError::IOError("i16 member of a vector")),
            };
            let a2 = match r.read_i16_le() {
                Some(v) => v,
                None => return Err(ObjectError::IOError("i16 member of a vector")),
            };
            let a3 = match r.read_i16_le() {
                Some(v) => v,
                None => return Err(ObjectError::IOError("i16 member of a vector")),
            };
            let out = [
                AttributeData::I16(a0),
                AttributeData::I16(a1),
                AttributeData::I16(a2),
                AttributeData::I16(a3),
            ];
            proof {
                assert(out@ =~= vector4_at(old(r).data@, old(r).pos as int, format.format_type));
            }
            Ok(out)
        },
        AttributeFormatType::Single => {
            let a0 = match r.read_u32_le() {
                Some(v) => v,
                None => return Err(ObjectError::IOError("f32 member of a vector")),
            };
            let a1 = match r.read_u32_le() {
                Some(v) => v,
                None => return Err(ObjectError::IOError("f32 member of a vector")),
            };
            let a2 = match r.read_u32_le() {
                Some(v) => v,
                None => return Err(ObjectError::IOError("f32 member of a vector")),
            };
            let a3 = match r.read_u32_le() {
                Some(v) => v,
                None => return Err(ObjectError::IOError("f32 member of a vector")),
            };
            let out = [
                AttributeData::Single(a0),
                AttributeData::Single(a1),
                AttributeData::Single(a2),
                AttributeData::Single(a3),
            ];
            proof {
                assert(out@ =~= vector4_at(old(r).data@, old(r).pos as int, format.format_type));
            }
            Ok(out)
        },
    }
}

/// The availability scan, slot `k` on.
fn scan_avail(
    Ghost(regs): Ghost<Seq<u32>>,
    main_perm: &Vec<VSHAttribute>,
    perm0: &Vec<u8>,
    k: u32,
    n: u32,
    st: Avail,
) -> (r: Avail)
    requires
        regs.len() == 0x10000,
        main_perm@.len() == 16,
        forall|t: int| 0 <= t < 16 ==> #[trigger] main_perm@[t] == main_perm_at(regs, t),
        perm0@.len() == 16,
        forall|t: int| 0 <= t < 16 ==> (#[trigger] perm0@[t]) < 16,
        forall|t: int| 0 <= t < 16 ==> (#[trigger] perm0@[t]) as int == perm0_at(regs, t),
        k <= n <= 15,
    ensures
        r == avail_scan(regs, k as int, n as int, st),
    decreases n - k,
{
    if k >= n {
        st
    } else {
        let att = main_perm[perm0[k as usize] as usize];
        proof {
            assert(att == slot_attr(regs, k as int));
        }
        match att {
            VSHAttribute::Normal => scan_avail(
                Ghost(regs),
                main_perm,
                perm0,
                k + 1,
                n,
                Avail { has_normal: true, ..st },
            ),
            VSHAttribute::Tangent => scan_avail(
                Ghost(regs),
                main_perm,
                perm0,
                k + 1,
                n,
                Avail { has_tangent: true, ..st },
            ),
            VSHAttribute::Color => scan_avail(
                Ghost(regs),
                main_perm,
                perm0,
                k + 1,
                n,
                Avail { has_color: true, ..st },
            ),
            VSHAttribute::TextureCoordinate0 => Avail {
                uv: if st.uv >= 1 {
                    st.uv
                } else {
                    1
                },
                ..st
            },
            VSHAttribute::TextureCoordinate1 => Avail {
                uv: if st.uv >= 2 {
                    st.uv
                } else {
                    2
                },
                ..st
            },
            VSHAttribute::TextureCoordinate2 => Avail {
                uv: if st.uv >= 3 {
                    st.uv
                } else {
                    3
                },
                ..st
            },
            _ => scan_avail(Ghost(regs), main_perm, perm0, k + 1, n, st),
        }
    }
}

/// Assembles one vertex: every attribute slot read in order from the
/// cursor, then the node and weight bookkeeping.
#[verifier::loop_isolation(false)]
fn read_vertex(
    r: &mut Reader,
    Ghost(regs): Ghost<Seq<u32>>,
    main_perm: &Vec<VSHAttribute>,
    perm0: &Vec<u8>,
    formats: &Vec<AttributeFormat>,
    total0: u32,
    vpos: u64,
    node_list: &Vec<u16>,
    skinning: SkinningMode,
) -> (res: Result<Vertex, ObjectError>)
    requires
        main_perm@.len() == 16,
        forall|t: int| 0 <= t < 16 ==> #[trigger] main_perm@[t] == main_perm_at(regs, t),
        perm0@.len() == 16,
        forall|t: int| 0 <= t < 16 ==> (#[trigger] perm0@[t]) < 16,
        forall|t: int| 0 <= t < 16 ==> (#[trigger] perm0@[t]) as int == perm0_at(regs, t),
        formats@.len() == 16,
        forall|t: int| 0 <= t < 16 ==> #[trigger] formats@[t] == format0_at(regs, t),
        total0 as int == total_attrs(regs),
        total0 <= 15,
    ensures
        final(r).data == old(r).data,
        ({
            let step = vertex_slots(
                old(r).data@,
                regs,
                vpos as int,
                0,
                total0 as int,
                vertex_empty(),
            );
            match res {
                Ok(v) => step matches Ok(p) && vertex_view(v) == apply_nodes(
                    p,
                    node_list@,
                    skinning,
                ),
                Err(e) => step matches Err(k) && k == object_err_kind(e) && object_err_kind(e)
                    == ObjectFailure::Exhausted,
            }
        }),
{
    let ghost s = r.data@;
    proof {
        assert(s.len() == r.data.len());
    }
    r.seek64(vpos);
    let ghost p0 = r.pos as int;
    proof {
        assert(vertex_slots(s, regs, p0, 0, total0 as int, vertex_empty()) == vertex_slots(
            s,
            regs,
            vpos as int,
            0,
            total0 as int,
            vertex_empty(),
        ));
    }
    let mut vertex = Vertex {
        position: [AttributeData::Absent, AttributeData::Absent, AttributeData::Absent],
        normal: [AttributeData::Absent, AttributeData::Absent, AttributeData::Absent],
        tangent: [AttributeData::Absent, AttributeData::Absent, AttributeData::Absent],
        texture0: [0, 0],
        texture1: [0, 0],
        texture2: [0, 0],
        node: Vec::new(),
        weight: Vec::new(),
        diffuse_color: 0xffffffff,
    };
    proof {
        assert(vertex_view(vertex).position =~= vertex_empty().position);
        assert(vertex_view(vertex).normal =~= vertex_empty().normal);
        assert(vertex_view(vertex).tangent =~= vertex_empty().tangent);
        assert(vertex_view(vertex) == vertex_empty());
    }
    let mut attribute: u32 = 0;
    while attribute < total0
        invariant
            attribute <= total0,
            r.data == old(r).data,
            vertex_slots(s, regs, r.pos as int, attribute as int, total0 as int, vertex_view(vertex))
                == vertex_slots(s, regs, p0, 0, total0 as int, vertex_empty()),
            vertex.node@.len() == 0,
            vertex.weight@.len() == 0,
        decreases total0 - attribute,
    {
        let slot = perm0[attribute as usize] as usize;
        let att = main_perm[slot];
        let mut format = formats[slot];
        if att == VSHAttribute::BoneWeight {
            format = AttributeFormat {
                format_type: AttributeFormatType::UnsignedByte,
                attribute_length: format.attribute_length,
            };
        }
        proof {
            assert(att == slot_attr(regs, attribute as int));
            assert(format == slot_format(regs, attribute as int));
        }
        let ghost pre_vertex = vertex_view(vertex);
        let ghost pre_pos = r.pos as int;
        let vector = match get_vector(r, format) {
            Ok(v) => v,
            Err(e) => return Err(e),
        };
        match att {
            VSHAttribute::Position => {
                vertex.position = [vector[0], vector[1], vector[2]];
            },
            VSHAttribute::Normal => {
                vertex.normal = [vector[0], vector[1], vector[2]];
            },
            VSHAttribute::Tangent => {
                vertex.tangent = [vector[0], vector[1], vector[2]];
            },
            _ => {},
        }
        proof {
            let vec4 = vector4_at(s, pre_pos, format.format_type);
            assert(vector@ == vec4);
            assert(vector@.take(3) =~= seq![vector@[0], vector@[1], vector@[2]]);
            if att == VSHAttribute::Position {
                assert(vertex_view(vertex).position =~= vec4.take(3));
                assert(vertex_view(vertex) == (VertexSpec { position: vec4.take(3), ..pre_vertex }));
            } else if att == VSHAttribute::Normal {
                assert(vertex_view(vertex).normal =~= vec4.take(3));
                assert(vertex_view(vertex) == (VertexSpec { normal: vec4.take(3), ..pre_vertex }));
            } else if att == VSHAttribute::Tangent {
                assert(vertex_view(vertex).tangent =~= vec4.take(3));
                assert(vertex_view(vertex) == (VertexSpec { tangent: vec4.take(3), ..pre_vertex }));
            }
            assert(vertex_slots(s, regs, pre_pos, attribute as int, total0 as int, pre_vertex)
                == vertex_slots(
                s,
                regs,
                r.pos as int,
                attribute as int + 1,
                total0 as int,
                vertex_view(vertex),
            ));
        }
        attribute = attribute + 1;
    }
    // node and weight bookkeeping
    let ghost before_nodes = vertex_view(vertex);
    if vertex.node.len() == 0 && node_list.len() <= 4 {
        proof {
            assert(node_list@.take(0).map_values(|x: u16| x as i32) =~= Seq::<i32>::empty());
            assert(vertex.node@ =~= Seq::<i32>::empty());
        }
        let mut t: usize = 0;
        while t < node_list.len()
            invariant
                t <= node_list@.len(),
                vertex_view(vertex) == (VertexSpec {
                    node: node_list@.take(t as int).map_values(|x: u16| x as i32),
                    ..before_nodes
                }),
            decreases node_list@.len() - t,
        {
            vertex.node.push(node_list[t] as i32);
            proof {
                assert(node_list@.take(t as int + 1) =~= node_list@.take(t as int).push(
                    node_list@[t as int],
                ));
                assert(vertex.node@ =~= node_list@.take(t as int + 1).map_values(
                    |x: u16| x as i32,
                ));
            }
            t = t + 1;
        }
        proof {
            assert(node_list@.take(node_list@.len() as int) =~= node_list@);
            assert(vertex_view(vertex) == (VertexSpec {
                node: node_list@.map_values(|x: u16| x as i32),
                ..before_nodes
            }));
        }
        if vertex.weight.len() == 0 {
            vertex.weight.push(0x3f800000);
        }
    }
    if skinning != SkinningMode::SmoothSkinning && vertex.node.len() > 0 {
        if vertex.weight.len() == 0 {
            vertex.weight.push(0x3f800000);
        }
    }
    proof {
        assert(vertex_view(vertex).weight =~= apply_nodes(before_nodes, node_list@, skinning).weight);
        assert(vertex_view(vertex) == apply_nodes(before_nodes, node_list@, skinning));
    }
    Ok(vertex)
}


/// Reads one face: its header record, the face's own PICA stream for the
/// index buffer, the availability scan, and the index-buffer walk that
/// appends this face's vertices.
#[verifier::loop_isolation(false)]
#[verifier::rlimit(100)]
fn read_face(
    r: &mut Reader,
    Ghost(regs): Ghost<Seq<u32>>,
    entry: &ObjectEntry,
    f: u32,
    main_perm: &Vec<VSHAttribute>,
    perm0: &Vec<u8>,
    formats: &Vec<AttributeFormat>,
    total0: u32,
    offset0: u32,
    stride0: u8,
    vertices: &mut Vec<Vertex>,
    avail: &mut Avail,
    has_node: &mut bool,
    has_weight: &mut bool,
) -> (res: Result<(), ObjectError>)
    requires
        layout_tables_ok(regs, main_perm@, perm0@, formats@, total0, offset0, stride0),
    ensures
        final(r).data == old(r).data,
        ({
            let acc0 = FacesAcc {
                vertices: vertices_view(old(vertices)@),
                avail: *old(avail),
                has_node: *old(has_node),
                has_weight: *old(has_weight),
            };
            let step = face_step(old(r).data@, regs, *entry, f as int, acc0);
            match res {
                Ok(()) => {
                    &&& step matches Ok(a2)
                    &&& vertices_view(final(vertices)@) == a2.vertices
                    &&& *final(avail) == a2.avail
                    &&& *final(has_node) == a2.has_node
                    &&& *final(has_weight) == a2.has_weight
                },
                Err(e) => step == Err::<FacesAcc, ObjectFailure>(object_err_kind(e)),
            }
        }),
{
    let ghost s = r.data@;
    proof {
        assert(s.len() == r.data.len());
    }
    let base: u64 = entry.faces_header_offset as u64 + f as u64 * 0x34;
    r.seek64(base);
    let skin_code = match r.read_u16_le() {
        Some(v) => v,
        None => return Err(ObjectError::IOError("skinning mode")),
    };
    let skinning = match SkinningMode::new(skin_code) {
        Some(sm) => sm,
        None => return Err(ObjectError::InvalidSkinning),
    };
    let node_id_entries = match r.read_u16_le() {
        Some(v) => v,
        None => return Err(ObjectError::IOError("node id entries")),
    };
    let mut node_list: Vec<u16> = Vec::new();
    while node_list.len() < node_id_entries as usize
        invariant
            node_list@.len() <= node_id_entries,
            r.data == old(r).data,
            r.pos as int == base + 4 + 2 * node_list@.len(),
            base + 4 + 2 * node_list@.len() <= s.len(),
            forall|t: int|
                0 <= t < node_list@.len() ==> (#[trigger] node_list@[t]) as int == u16_at(
                    s,
                    base + 4 + 2 * t,
                ),
        decreases node_id_entries - node_list@.len(),
    {
        match r.read_u16_le() {
            Some(v) => node_list.push(v),
            None => return Err(ObjectError::IOError("node entry")),
        }
    }
    let ghost node_seq = Seq::new(
        node_id_entries as nat,
        |t: int| u16_at(s, base + 4 + 2 * t) as u16,
    );
    proof {
        assert(node_list@ =~= node_seq);
    }
    r.seek64(base + 0x2c);
    let face_header_offset = match r.read_u32_le() {
        Some(v) => v,
        None => return Err(ObjectError::IOError("face header offset")),
    };
    let face_header_word_count = match r.read_u32_le() {
        Some(v) => v,
        None => return Err(ObjectError::IOError("face header word count")),
    };
    r.seek(face_header_offset as usize);
    let idx_commands = match PICACommandReader::read(r, face_header_word_count as u64) {
        Ok(c) => c,
        Err(e) => return Err(ObjectError::PICACommandReaderError(e, "idx commands")),
    };
    let idx_buffer_offset = idx_commands.get_index_buffer_address();
    let idx_buffer_is_u16 = match idx_commands.get_index_buffer_format() {
        IndexBufferFormat::U16 => true,
        IndexBufferFormat::U8 => false,
    };
    let idx_buffer_total_vertices = idx_commands.get_index_buffer_total_vertices();
    *avail = scan_avail(Ghost(regs), main_perm, perm0, 0, total0, *avail);
    if node_list.len() > 0 {
        *has_node = true;
        *has_weight = true;
    }
    r.seek(idx_buffer_offset as usize);
    let ghost ib_addr = idx_buffer_offset as int;
    let ghost acc_begin = vertices_view(old(vertices)@);
    let ghost total = idx_buffer_total_vertices as int;
    let mut i: u32 = 0;
    while i < idx_buffer_total_vertices
        invariant
            i <= idx_buffer_total_vertices,
            r.data == old(r).data,
            vertices_loop(
                s,
                regs,
                r.pos as int,
                i as int,
                total,
                idx_buffer_is_u16,
                node_seq,
                skinning,
                vertices_view(vertices@),
            ) == vertices_loop(
                s,
                regs,
                ib_addr,
                0,
                total,
                idx_buffer_is_u16,
                node_seq,
                skinning,
                acc_begin,
            ),
        decreases idx_buffer_total_vertices - i,
    {
        let ghost pre_pos = r.pos as int;
        let ghost pre_views = vertices_view(vertices@);
        let index: u16 = if idx_buffer_is_u16 {
            match r.read_u16_le() {
                Some(v) => v,
                None => return Err(ObjectError::IOError("index")),
            }
        } else {
            match r.read_u8() {
                Some(v) => v as u16,
                None => return Err(ObjectError::IOError("index")),
            }
        };
        let file_position = r.pos;
        proof {
            assert(index as int * stride0 as int <= 0xffff * 0xff) by (nonlinear_arith)
                requires index <= 0xffff, stride0 <= 0xff;
        }
        let vertex_offset: u64 = offset0 as u64 + index as u64 * stride0 as u64;
        let vertex = match read_vertex(
            r,
            Ghost(regs),
            main_perm,
            perm0,
            formats,
            total0,
            vertex_offset,
            &node_list,
            skinning,
        ) {
            Ok(v) => v,
            Err(e) => return Err(e),
        };
        vertices.push(vertex);
        r.seek(file_position);
        proof {
            assert(vertices_view(vertices@) =~= pre_views.push(vertex_view(vertex)));
            assert(vertices_loop(
                s,
                regs,
                pre_pos,
                i as int,
                total,
                idx_buffer_is_u16,
                node_seq,
                skinning,
                pre_views,
            ) == vertices_loop(
                s,
                regs,
                r.pos as int,
                i as int + 1,
                total,
                idx_buffer_is_u16,
                node_seq,
                skinning,
                vertices_view(vertices@),
            ));
        }
        i = i + 1;
    }
    proof {
        assert(face_step(
            s,
            regs,
            *entry,
            f as int,
            FacesAcc {
                vertices: acc_begin,
                avail: *old(avail),
                has_node: *old(has_node),
                has_weight: *old(has_weight),
            },
        ) == Ok::<FacesAcc, ObjectFailure>(
            FacesAcc {
                vertices: vertices_view(vertices@),
                avail: *avail,
                has_node: *has_node,
                has_weight: *has_weight,
            },
        ));
    }
    Ok(())
}

impl Object {
    /// Materializes one mesh from its descriptor and the relocated blob,
    /// exactly as `object_read_spec` describes: the layout-authority PICA
    /// stream, the scaling uniforms, and the per-face index-buffer walks.
    #[verifier::loop_isolation(false)]
    #[verifier::rlimit(100)]
    pub fn read(r: &mut Reader, obj: &ObjectEntry, object_name: &Vec<String>) -> (res: Result<
        Object,
        ObjectError,
    >)
        ensures
            final(r).data == old(r).data,
            ({
                let spec = object_read_spec(old(r).data@, *obj, names_view(object_name@));
                match res {
                    Ok(o) => spec matches Ok(oc) && object_view(o) == oc,
                    Err(e) => spec == Err::<ObjectContents, ObjectFailure>(object_err_kind(e)),
                }
            }),
    {
        proof {
            reveal(object_read_spec);
        }
        let ghost s = r.data@;
        let name: String = if obj.node_id as usize >= object_name.len() {
            let mut base_name = u16_to_decimal(obj.node_id);
            let mut full = mesh_prefix();
            full.append(base_name.as_str());
            proof {
                assert(full@ == object_name_spec(obj.node_id, names_view(object_name@)));
            }
            full
        } else {
            let n = object_name[obj.node_id as usize].clone();
            proof {
                assert(n@ == names_view(object_name@)[obj.node_id as int]);
            }
            n
        };
        let is_visible = true;
        r.seek(obj.vsh_attributes_buffer_commands_offset as usize);
        let vsh_commands = match PICACommandReader::read(
            r,
            obj.vsh_attributes_buffer_commands_word_count as u64,
        ) {
            Ok(c) => c,
            Err(e) => return Err(ObjectError::PICACommandReaderError(e, "vsh commands")),
        };
        let ghost regs = vsh_commands.commands@;
        let bank6 = &vsh_commands.float_uniform[6];
        if bank6.len() < 4 {
            return Err(
                ObjectError::NotLongEnoughtError("vsh attributes uniform reg 6 for position offset"),
            );
        }
        let position_offset: [u32; 4] = [
            bank6[bank6.len() - 1],
            bank6[bank6.len() - 2],
            bank6[bank6.len() - 3],
            bank6[bank6.len() - 4],
        ];
        let bank7 = &vsh_commands.float_uniform[7];
        if bank7.len() < 8 {
            return Err(ObjectError::NotLongEnoughtError("vsh attributes uniform reg 7"));
        }
        let position_scale = bank7[bank7.len() - 5];
        let normal_scale = bank7[bank7.len() - 6];
        let tangent_scale = bank7[bank7.len() - 7];
        if obj.faces_header_entries == 0 {
            return Err(ObjectError::Unimplemented("faces"));
        }
        let vsh_attributes_buffer_offset = vsh_commands.get_vsh_attributes_buffer_offset(0);
        let vsh_attributes_buffer_stride = vsh_commands.get_vsh_attributes_buffer_stride(0);
        let vsh_total_attributes = vsh_commands.get_vsh_total_attributes(0);
        let main_perm = vsh_commands.get_vsh_attributes_buffer_permutation_none();
        let perm0 = vsh_commands.get_vsh_attributes_buffer_permutation(0);
        let formats = vsh_commands.get_vsh_attributes_buffer_format();
        let total0: u32 = vsh_total_attributes;
        proof {
            assert(total0 <= 15) by (nonlinear_arith)
                requires total0 as int == regs[0x205] as int / 0x1000_0000, regs[0x205] < 0x1_0000_0000;
            assert(layout_tables_ok(
                regs,
                main_perm@,
                perm0@,
                formats@,
                total0,
                vsh_attributes_buffer_offset,
                vsh_attributes_buffer_stride,
            ));
        }
        let mut vertices: Vec<Vertex> = Vec::new();
        let mut avail = Avail { has_normal: false, has_tangent: false, has_color: false, uv: 0 };
        let mut has_node = false;
        let mut has_weight = false;
        let ghost acc0 = FacesAcc {
            vertices: vertices_view(vertices@),
            avail: avail,
            has_node: has_node,
            has_weight: has_weight,
        };
        proof {
            assert(vertices_view(vertices@) =~= Seq::<VertexSpec>::empty());
        }
        let ghost n_faces = obj.faces_header_entries as int;
        let mut f: u32 = 0;
        while f < obj.faces_header_entries
            invariant
                f <= obj.faces_header_entries,
                r.data == old(r).data,
                layout_tables_ok(
                    regs,
                    main_perm@,
                    perm0@,
                    formats@,
                    total0,
                    vsh_attributes_buffer_offset,
                    vsh_attributes_buffer_stride,
                ),
                faces_loop(
                    s,
                    regs,
                    *obj,
                    f as int,
                    n_faces,
                    FacesAcc {
                        vertices: vertices_view(vertices@),
                        avail: avail,
                        has_node: has_node,
                        has_weight: has_weight,
                    },
                ) == faces_loop(s, regs, *obj, 0, n_faces, acc0),
            decreases obj.faces_header_entries - f,
        {
            let ghost acc_top = FacesAcc {
                vertices: vertices_view(vertices@),
                avail: avail,
                has_node: has_node,
                has_weight: has_weight,
            };
            match read_face(
                r,
                Ghost(regs),
                obj,
                f,
                &main_perm,
                &perm0,
                &formats,
                total0,
                vsh_attributes_buffer_offset,
                vsh_attributes_buffer_stride,
                &mut vertices,
                &mut avail,
                &mut has_node,
                &mut has_weight,
            ) {
                Ok(()) => {
                    proof {
                        assert(faces_loop(s, regs, *obj, f as int, n_faces, acc_top) == faces_loop(
                            s,
                            regs,
                            *obj,
                            f as int + 1,
                            n_faces,
                            FacesAcc {
                                vertices: vertices_view(vertices@),
                                avail: avail,
                                has_node: has_node,
                                has_weight: has_weight,
                            },
                        ));
                    }
                },
                Err(e) => {
                    proof {
                        assert(faces_loop(s, regs, *obj, f as int, n_faces, acc_top)
                            == Err::<FacesAcc, ObjectFailure>(object_err_kind(e)));
                    }
                    return Err(e);
                },
            }
            f = f + 1;
        }
        let out = Object {
            vertices,
            material_id: obj.material_id,
            render_priority: obj.render_priority,
            name,
            is_visible,
            has_normal: avail.has_normal,
            has_tangent: avail.has_tangent,
            has_color: avail.has_color,
            has_node,
            has_weight,
            tex_uv_count: avail.uv,
            position_offset,
            position_scale,
            normal_scale,
            tangent_scale,
        };
        proof {
            let spec = object_read_spec(s, *obj, names_view(object_name@));
            assert(out.position_offset@ =~= spec->Ok_0.position_offset);
            assert(object_view(out) == spec->Ok_0);
        }
        Ok(out)
    }
}

/// The four letters of the fallback mesh-name prefix.
fn mesh_prefix() -> (r: String)
    ensures
        r@ == seq!['m', 'e', 's', 'h'],
{
    let mut out = String::new();
    push_char(&mut out, 'm');
    push_char(&mut out, 'e');
    push_char(&mut out, 's');
    push_char(&mut out, 'h');
    proof {
        assert(out@ =~= seq!['m', 'e', 's', 'h']);
    }
    out
}

} // verus!
