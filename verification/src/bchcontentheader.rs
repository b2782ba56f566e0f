//! The content header: fifteen `ReferenceDict` records, the table of
//! contents of the blob, one per asset category.

use vstd::prelude::*;
use crate::reader::{u32_at, Reader};

verus! {

#[derive(Debug)]
pub enum ReferenceDictError {
    /// The blob ended while the named category and part were being read.
    IOError(&'static str, &'static str),
}

/// An array of N items addressed through a pointer table at some offset,
/// with a parallel name structure.
#[derive(Debug, Clone, Copy, PartialEq, Eq, Structural)]
pub struct ReferenceDict {
    pub pointer_table_offset: u32,
    pub pointer_table_entries: u32,
    pub name_offset: u32,
}

/// The dictionary record laid out at `p`: three little-endian words.
pub open spec fn dict_at(s: Seq<u8>, p: int) -> ReferenceDict {
    ReferenceDict {
        pointer_table_offset: u32_at(s, p) as u32,
        pointer_table_entries: u32_at(s, p + 4) as u32,
        name_offset: u32_at(s, p + 8) as u32,
    }
}

impl ReferenceDict {
    /// Parses one dictionary record at the cursor; `category` only labels a
    /// failure.
    pub fn read(r: &mut Reader, category: &'static str) -> (res: Result<
        ReferenceDict,
        ReferenceDictError,
    >)
        ensures
            final(r).data == old(r).data,
            old(r).pos + 12 <= old(r).data@.len() ==> {
                &&& res == Ok::<ReferenceDict, ReferenceDictError>(
                    dict_at(old(r).data@, old(r).pos as int),
                )
                &&& final(r).pos == old(r).pos + 12
            },
            old(r).pos + 12 > old(r).data@.len() ==> res matches Err(
                ReferenceDictError::IOError(_, _),
            ),
    {
        let pointer_table_offset = match r.read_u32_le() {
            Some(v) => v,
            None => return Err(ReferenceDictError::IOError(category, "pointer table offset")),
        };
        let pointer_table_entries = match r.read_u32_le() {
            Some(v) => v,
            None => return Err(ReferenceDictError::IOError(category, "pointer table entries")),
        };
        let name_offset = match r.read_u32_le() {
            Some(v) => v,
            None => return Err(ReferenceDictError::IOError(category, "name offset")),
        };
        Ok(ReferenceDict { pointer_table_offset, pointer_table_entries, name_offset })
    }
}

/// The fifteen dictionaries of the content header, in file order.
#[derive(Debug, Clone, Copy, PartialEq, Eq, Structural)]
pub struct BCHContentHeader {
    pub models: ReferenceDict,
    pub materials: ReferenceDict,
    pub shaders: ReferenceDict,
    pub textures: ReferenceDict,
    pub materials_lut: ReferenceDict,
    pub lights: ReferenceDict,
    pub cameras: ReferenceDict,
    pub fogs: ReferenceDict,
    pub skeletal_animations: ReferenceDict,
    pub material_animations: ReferenceDict,
    pub visibility_animations: ReferenceDict,
    pub light_animation: ReferenceDict,
    pub camera_animation: ReferenceDict,
    pub fog_animation: ReferenceDict,
    pub scene: ReferenceDict,
}

/// The content header laid out at `p`: fifteen consecutive dictionaries.
pub open spec fn content_header_at(s: Seq<u8>, p: int) -> BCHContentHeader {
    BCHContentHeader {
        models: dict_at(s, p),
        materials: dict_at(s, p + 12),
        shaders: dict_at(s, p + 24),
        textures: dict_at(s, p + 36),
        materials_lut: dict_at(s, p + 48),
        lights: dict_at(s, p + 60),
        cameras: dict_at(s, p + 72),
        fogs: dict_at(s, p + 84),
        skeletal_animations: dict_at(s, p + 96),
        material_animations: dict_at(s, p + 108),
        visibility_animations: dict_at(s, p + 120),
        light_animation: dict_at(s, p + 132),
        camera_animation: dict_at(s, p + 144),
        fog_animation: dict_at(s, p + 156),
        scene: dict_at(s, p + 168),
    }
}

impl BCHContentHeader {
    /// Parses the fifteen dictionary records at the cursor, in the fixed
    /// category order.
    pub fn read(r: &mut Reader) -> (res: Result<BCHContentHeader, ReferenceDictError>)
        ensures
            final(r).data == old(r).data,
            old(r).pos + 180 <= old(r).data@.len() ==> {
                &&& res == Ok::<BCHContentHeader, ReferenceDictError>(
                    content_header_at(old(r).data@, old(r).pos as int),
                )
                &&& final(r).pos == old(r).pos + 180
            },
            old(r).pos + 180 > old(r).data@.len() ==> res matches Err(
                ReferenceDictError::IOError(_, _),
            ),
    {
        let models = ReferenceDict::read(r, "models")?;
        let materials = ReferenceDict::read(r, "materials")?;
        let shaders = ReferenceDict::read(r, "shaders")?;
        let textures = ReferenceDict::read(r, "textures")?;
        let materials_lut = ReferenceDict::read(r, "materials lut")?;
        let lights = ReferenceDict::read(r, "lights")?;
        let cameras = ReferenceDict::read(r, "cameras")?;
        let fogs = ReferenceDict::read(r, "fogs")?;
        let skeletal_animations = ReferenceDict::read(r, "skeletal animations")?;
        let material_animations = ReferenceDict::read(r, "material animations")?;
        let visibility_animations = ReferenceDict::read(r, "visibility animations")?;
        let light_animation = ReferenceDict::read(r, "light animation")?;
        let camera_animation = ReferenceDict::read(r, "camera animation")?;
        let fog_animation = ReferenceDict::read(r, "fog animation")?;
        let scene = ReferenceDict::read(r, "scene")?;
        Ok(
            BCHContentHeader {
                models,
                materials,
                shaders,
                textures,
                materials_lut,
                lights,
                cameras,
                fogs,
                skeletal_animations,
                material_animations,
                visibility_animations,
                light_animation,
                camera_animation,
                fog_animation,
                scene,
            },
        )
    }
}

} // verus!
