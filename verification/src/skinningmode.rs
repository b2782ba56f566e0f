//! The per-face skinning mode codes.

use vstd::prelude::*;

verus! {

#[derive(PartialEq, Eq, Structural, Clone, Copy, Debug)]
pub enum SkinningMode {
    NoSkinning,
    SmoothSkinning,
    RigidSkinning,
}

/// The skinning mode a 16-bit code denotes, if any.
pub open spec fn skinning_mode_of(value: u16) -> Option<SkinningMode> {
    if value == 0 {
        Some(SkinningMode::NoSkinning)
    } else if value == 1 {
        Some(SkinningMode::SmoothSkinning)
    } else if value == 2 {
        Some(SkinningMode::RigidSkinning)
    } else {
        None
    }
}

impl SkinningMode {
    /// Decodes a skinning mode; codes above 2 are invalid.
    pub fn new(value: u16) -> (r: Option<Self>)
        ensures
            r == skinning_mode_of(value),
    {
        match value {
            0 => Some(Self::NoSkinning),
            1 => Some(Self::SmoothSkinning),
            2 => Some(Self::RigidSkinning),
            _ => None,
        }
    }
}

} // verus!
