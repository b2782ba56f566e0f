//! The per-model header: transform, the three embedded dictionaries, the
//! model's name, and object-node bookkeeping.

use vstd::prelude::*;
use crate::bchcontentheader::{dict_at, ReferenceDict, ReferenceDictError};
use crate::reader::{ascii_chars, nul_scan, u16_at, u32_at, Reader};

verus! {

#[derive(Debug)]
pub enum ModelHeaderError {
    /// The blob ended while the named field was being read.
    IOError(&'static str),
    ReferenceDictError(ReferenceDictError),
    /// The word after the name-offset pair was not zero.
    InvalidNullMagic(u32),
    /// The model-name reference was a null pointer.
    NullPointerToName,
}

/// What failed, with the labels stripped: the shape of a
/// `ModelHeaderError`.
pub enum ModelHeaderFailure {
    Exhausted,
    NullName,
    BadMagic(u32),
}

/// The failure an error value reports.
pub open spec fn model_header_kind(e: ModelHeaderError) -> ModelHeaderFailure {
    match e {
        ModelHeaderError::IOError(_) => ModelHeaderFailure::Exhausted,
        ModelHeaderError::ReferenceDictError(_) => ModelHeaderFailure::Exhausted,
        ModelHeaderError::InvalidNullMagic(m) => ModelHeaderFailure::BadMagic(m),
        ModelHeaderError::NullPointerToName => ModelHeaderFailure::NullName,
    }
}

/// The abstract value of a parsed model header.
pub struct ModelHeaderParts {
    pub flags: u8,
    pub skeleton_scaling_type: u8,
    pub silhouette_material_entries: u16,
    pub world_transform: Seq<u32>,
    pub materials: ReferenceDict,
    pub vertices: ReferenceDict,
    pub skeletons: ReferenceDict,
    pub object_node_visibility_offset: u32,
    pub object_node_count: u32,
    pub model_name: Seq<char>,
    pub object_node_name_entries: u32,
    pub object_node_name_offsets: u32,
    pub meta_data_pointer_offset: u32,
}

/// The abstract value of an exec model header.
pub open spec fn model_header_view(h: ModelHeader) -> ModelHeaderParts {
    ModelHeaderParts {
        flags: h.flags,
        skeleton_scaling_type: h.skeleton_scaling_type,
        silhouette_material_entries: h.silhouette_material_entries,
        world_transform: h.world_transform@,
        materials: h.materials,
        vertices: h.vertices,
        skeletons: h.skeletons,
        object_node_visibility_offset: h.object_node_visibility_offset,
        object_node_count: h.object_node_count,
        model_name: h.model_name@,
        object_node_name_entries: h.object_node_name_entries,
        object_node_name_offsets: h.object_node_name_offsets,
        meta_data_pointer_offset: h.meta_data_pointer_offset,
    }
}

/// The model header laid out at `p`: fixed fields, three dictionaries with
/// 36 unknown bytes skipped before the third, the referenced name, and a
/// word that must be zero.
pub open spec fn model_header_spec(s: Seq<u8>, p: int) -> Result<
    ModelHeaderParts,
    ModelHeaderFailure,
> {
    if p + 136 > s.len() {
        Err(ModelHeaderFailure::Exhausted)
    } else {
        let t = u32_at(s, model_name_ptr_at(p));
        if t == 0 {
            Err(ModelHeaderFailure::NullName)
        } else {
            match nul_scan(s, t) {
                None => Err(ModelHeaderFailure::Exhausted),
                Some(j) => {
                    if p + 148 > s.len() {
                        Err(ModelHeaderFailure::Exhausted)
                    } else if u32_at(s, p + 144) != 0 {
                        Err(ModelHeaderFailure::BadMagic(u32_at(s, p + 144) as u32))
                    } else if model_header_end(p) > s.len() {
                        Err(ModelHeaderFailure::Exhausted)
                    } else {
                        Ok(
                            ModelHeaderParts {
                                flags: s[p],
                                skeleton_scaling_type: s[p + 1],
                                silhouette_material_entries: u16_at(s, p + 2) as u16,
                                world_transform: Seq::new(
                                    12,
                                    |j: int| u32_at(s, p + 4 + 4 * j) as u32,
                                ),
                                materials: dict_at(s, p + 52),
                                vertices: dict_at(s, p + 64),
                                skeletons: dict_at(s, p + 112),
                                object_node_visibility_offset: u32_at(s, p + 124) as u32,
                                object_node_count: u32_at(s, p + 128) as u32,
                                model_name: ascii_chars(s.subrange(t, j)),
                                object_node_name_entries: u32_at(s, p + 136) as u32,
                                object_node_name_offsets: u32_at(s, p + 140) as u32,
                                meta_data_pointer_offset: u32_at(s, p + 148) as u32,
                            },
                        )
                    }
                },
            }
        }
    }
}

/// A per-model record. The world transform holds the bit patterns of its
/// twelve 32-bit floats, in read order (four rows of three).
#[derive(Debug, Clone)]
pub struct ModelHeader {
    pub flags: u8,
    pub skeleton_scaling_type: u8,
    pub silhouette_material_entries: u16,
    pub world_transform: Vec<u32>,
    pub materials: ReferenceDict,
    pub vertices: ReferenceDict,
    pub skeletons: ReferenceDict,
    pub object_node_visibility_offset: u32,
    pub object_node_count: u32,
    pub model_name: String,
    pub object_node_name_entries: u32,
    pub object_node_name_offsets: u32,
    pub meta_data_pointer_offset: u32,
}

/// Offset of the model-name reference word within a header at `p`.
pub open spec fn model_name_ptr_at(p: int) -> int {
    p + 132
}

/// Offset one past a model header at `p`.
pub open spec fn model_header_end(p: int) -> int {
    p + 152
}

impl ModelHeader {
    /// Parses one model header at the cursor: fixed fields, three
    /// dictionaries with 36 unknown bytes skipped before the third, the
    /// referenced model name (whose null reference is an error), and a word
    /// that must be zero.
    pub fn read(r: &mut Reader) -> (res: Result<ModelHeader, ModelHeaderError>)
        ensures
            final(r).data == old(r).data,
            ({
                let spec = model_header_spec(old(r).data@, old(r).pos as int);
                match res {
                    Ok(h) => {
                        &&& spec matches Ok(parts)
                        &&& model_header_view(h) == parts
                        &&& final(r).pos == model_header_end(old(r).pos as int)
                    },
                    Err(e) => spec == Err::<ModelHeaderParts, ModelHeaderFailure>(
                        model_header_kind(e),
                    ),
                }
            }),
    {
        let flags = match r.read_u8() {
            Some(v) => v,
            None => return Err(ModelHeaderError::IOError("flags")),
        };
        let skeleton_scaling_type = match r.read_u8() {
            Some(v) => v,
            None => return Err(ModelHeaderError::IOError("skeleton scaling type")),
        };
        let silhouette_material_entries = match r.read_u16_le() {
            Some(v) => v,
            None => return Err(ModelHeaderError::IOError("silhouette material entries")),
        };
        let ghost s = r.data@;
        proof {
            assert(s.len() == r.data.len());
        }
        let ghost wstart = r.pos as int;
        let mut world_transform: Vec<u32> = Vec::new();
        while world_transform.len() < 12
            invariant
                world_transform@.len() <= 12,
                r.data == old(r).data,
                s == r.data@,
                wstart == old(r).pos + 4,
                r.pos == wstart + 4 * world_transform@.len(),
                wstart + 4 * world_transform@.len() <= s.len() || world_transform@.len() == 0,
                forall|j: int|
                    0 <= j < world_transform@.len() ==> (#[trigger] world_transform@[j]) as int
                        == u32_at(s, wstart + 4 * j),
            decreases 12 - world_transform@.len(),
        {
            let v = match r.read_u32_le() {
                Some(v) => v,
                None => return Err(ModelHeaderError::IOError("world transform")),
            };
            world_transform.push(v);
        }
        let materials = match ReferenceDict::read(r, "materials") {
            Ok(d) => d,
            Err(e) => return Err(ModelHeaderError::ReferenceDictError(e)),
        };
        let vertices = match ReferenceDict::read(r, "vertices") {
            Ok(d) => d,
            Err(e) => return Err(ModelHeaderError::ReferenceDictError(e)),
        };
        r.skip(0x24);
        let skeletons = match ReferenceDict::read(r, "skeleton") {
            Ok(d) => d,
            Err(e) => return Err(ModelHeaderError::ReferenceDictError(e)),
        };
        let object_node_visibility_offset = match r.read_u32_le() {
            Some(v) => v,
            None => return Err(ModelHeaderError::IOError("object node visibility offset")),
        };
        let object_node_count = match r.read_u32_le() {
            Some(v) => v,
            None => return Err(ModelHeaderError::IOError("object node count")),
        };
        let model_name = match r.read_referenced_null_terminated_ascii_string() {
            Ok(Some(name)) => name,
            Ok(None) => return Err(ModelHeaderError::NullPointerToName),
            Err(_) => return Err(ModelHeaderError::IOError("model name")),
        };
        let object_node_name_entries = match r.read_u32_le() {
            Some(v) => v,
            None => return Err(ModelHeaderError::IOError("object node name entries")),
        };
        let object_node_name_offsets = match r.read_u32_le() {
            Some(v) => v,
            None => return Err(ModelHeaderError::IOError("object node name offsets")),
        };
        let null_magic = match r.read_u32_le() {
            Some(v) => v,
            None => return Err(ModelHeaderError::IOError("null magic")),
        };
        if null_magic != 0 {
            return Err(ModelHeaderError::InvalidNullMagic(null_magic));
        }
        let meta_data_pointer_offset = match r.read_u32_le() {
            Some(v) => v,
            None => return Err(ModelHeaderError::IOError("meta data pointer offset")),
        };
        proof {
            assert(world_transform@ =~= Seq::new(12, |j: int| u32_at(s, wstart + 4 * j) as u32));
        }
        Ok(
            ModelHeader {
                flags,
                skeleton_scaling_type,
                silhouette_material_entries,
                world_transform,
                materials,
                vertices,
                skeletons,
                object_node_visibility_offset,
                object_node_count,
                model_name,
                object_node_name_entries,
                object_node_name_offsets,
                meta_data_pointer_offset,
            },
        )
    }
}

} // verus!
