//! The per-mesh descriptor: command-stream locations, face-header table,
//! and bookkeeping offsets.

use vstd::prelude::*;
use crate::reader::{u16_at, u32_at, Reader};

verus! {

#[derive(Debug)]
pub enum ObjectEntryError {
    /// The blob ended while the named field was being read.
    IOError(&'static str),
    /// The word that must be zero between the flags offset and the bounding
    /// box offset was not.
    NullMagicError(u32),
}

/// A per-mesh descriptor. The center vector holds the bit patterns of its
/// three 32-bit floats.
#[derive(Debug, Clone)]
pub struct ObjectEntry {
    pub material_id: u16,
    pub flags: u16,
    pub node_id: u16,
    pub render_priority: u16,
    pub vsh_attributes_buffer_commands_word_count: u32,
    pub vsh_attributes_buffer_commands_offset: u32,
    pub faces_header_offset: u32,
    pub faces_header_entries: u32,
    pub vsh_extra_attributes_buffer_commands_offset: u32,
    pub vsh_extra_attributes_buffer_commands_word_counts: u32,
    pub center_vector: [u32; 3],
    pub flags_offset: u32,
    pub bounding_box_offset: u32,
}

/// The entry laid out at `p`: fifty-six bytes of fixed fields.
pub open spec fn object_entry_at(s: Seq<u8>, p: int) -> ObjectEntry {
    ObjectEntry {
        material_id: u16_at(s, p) as u16,
        flags: u16_at(s, p + 2) as u16,
        node_id: u16_at(s, p + 4) as u16,
        render_priority: u16_at(s, p + 6) as u16,
        vsh_attributes_buffer_commands_offset: u32_at(s, p + 8) as u32,
        vsh_attributes_buffer_commands_word_count: u32_at(s, p + 12) as u32,
        faces_header_offset: u32_at(s, p + 16) as u32,
        faces_header_entries: u32_at(s, p + 20) as u32,
        vsh_extra_attributes_buffer_commands_offset: u32_at(s, p + 24) as u32,
        vsh_extra_attributes_buffer_commands_word_counts: u32_at(s, p + 28) as u32,
        center_vector: [
            u32_at(s, p + 32) as u32,
            u32_at(s, p + 36) as u32,
            u32_at(s, p + 40) as u32,
        ],
        flags_offset: u32_at(s, p + 44) as u32,
        bounding_box_offset: u32_at(s, p + 52) as u32,
    }
}

impl ObjectEntry {
    /// Parses one descriptor at the cursor. The word before the bounding
    /// box offset must be zero.
    pub fn read(r: &mut Reader) -> (res: Result<ObjectEntry, ObjectEntryError>)
        ensures
            final(r).data == old(r).data,
            ({
                let s = old(r).data@;
                let p = old(r).pos as int;
                if p + 52 > s.len() {
                    res matches Err(ObjectEntryError::IOError(_))
                } else if u32_at(s, p + 48) != 0 {
                    res == Err::<ObjectEntry, ObjectEntryError>(
                        ObjectEntryError::NullMagicError(u32_at(s, p + 48) as u32),
                    )
                } else if p + 56 > s.len() {
                    res matches Err(ObjectEntryError::IOError(_))
                } else {
                    &&& res == Ok::<ObjectEntry, ObjectEntryError>(object_entry_at(s, p))
                    &&& final(r).pos == p + 56
                }
            }),
    {
        let material_id = match r.read_u16_le() {
            Some(v) => v,
            None => return Err(ObjectEntryError::IOError("material id")),
        };
        let flags = match r.read_u16_le() {
            Some(v) => v,
            None => return Err(ObjectEntryError::IOError("flags")),
        };
        let node_id = match r.read_u16_le() {
            Some(v) => v,
            None => return Err(ObjectEntryError::IOError("node id")),
        };
        let render_priority = match r.read_u16_le() {
            Some(v) => v,
            None => return Err(ObjectEntryError::IOError("render priority")),
        };
        let vsh_attributes_buffer_commands_offset = match r.read_u32_le() {
            Some(v) => v,
            None => return Err(ObjectEntryError::IOError("vsh attributes buffer commands offset")),
        };
        let vsh_attributes_buffer_commands_word_count = match r.read_u32_le() {
            Some(v) => v,
            None => return Err(
                ObjectEntryError::IOError("vsh attributes buffer commands word count"),
            ),
        };
        let faces_header_offset = match r.read_u32_le() {
            Some(v) => v,
            None => return Err(ObjectEntryError::IOError("faces header offset")),
        };
        let faces_header_entries = match r.read_u32_le() {
            Some(v) => v,
            None => return Err(ObjectEntryError::IOError("faces header entries")),
        };
        let vsh_extra_attributes_buffer_commands_offset = match r.read_u32_le() {
            Some(v) => v,
            None => return Err(
                ObjectEntryError::IOError("vsh extra attributes buffer commands offset"),
            ),
        };
        let vsh_extra_attributes_buffer_commands_word_counts = match r.read_u32_le() {
            Some(v) => v,
            None => return Err(
                ObjectEntryError::IOError("vsh extra attributes buffer commands word counts"),
            ),
        };
        let c0 = match r.read_u32_le() {
            Some(v) => v,
            None => return Err(ObjectEntryError::IOError("center vector")),
        };
        let c1 = match r.read_u32_le() {
            Some(v) => v,
            None => return Err(ObjectEntryError::IOError("center vector")),
        };
        let c2 = match r.read_u32_le() {
            Some(v) => v,
            None => return Err(ObjectEntryError::IOError("center vector")),
        };
        let flags_offset = match r.read_u32_le() {
            Some(v) => v,
            None => return Err(ObjectEntryError::IOError("flags offset")),
        };
        let null_magic = match r.read_u32_le() {
            Some(v) => v,
            None => return Err(ObjectEntryError::IOError("null magic")),
        };
        if null_magic != 0 {
            return Err(ObjectEntryError::NullMagicError(null_magic));
        }
        let bounding_box_offset = match r.read_u32_le() {
            Some(v) => v,
            None => return Err(ObjectEntryError::IOError("bounding box offset")),
        };
        Ok(
            ObjectEntry {
                material_id,
                flags,
                node_id,
                render_priority,
                vsh_attributes_buffer_commands_word_count,
                vsh_attributes_buffer_commands_offset,
                faces_header_offset,
                faces_header_entries,
                vsh_extra_attributes_buffer_commands_offset,
                vsh_extra_attributes_buffer_commands_word_counts,
                center_vector: [c0, c1, c2],
                flags_offset,
                bounding_box_offset,
            },
        )
    }
}

} // verus!
