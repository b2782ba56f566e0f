//! One decoded vertex: raw attribute scalars as read from the vertex
//! buffer, before the caller applies the float scales and offsets that the
//! owning mesh carries.

use vstd::prelude::*;
use crate::picacommand::AttributeData;

verus! {

/// A vertex as the materializer assembles it. The position, normal and
/// tangent components are the raw typed scalars from the blob; the texture
/// slots are never filled by this decoder and stay zero. Weights hold
/// 32-bit float bit patterns.
#[derive(Debug, Clone)]
pub struct Vertex {
    pub position: [AttributeData; 3],
    pub normal: [AttributeData; 3],
    pub tangent: [AttributeData; 3],
    pub texture0: [u32; 2],
    pub texture1: [u32; 2],
    pub texture2: [u32; 2],
    pub node: Vec<i32>,
    pub weight: Vec<u32>,
    pub diffuse_color: u32,
}

} // verus!
