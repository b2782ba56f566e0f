//! The 4-bit section codes used by the relocation table.

use vstd::prelude::*;

verus! {

#[derive(Debug, Clone, Copy, PartialEq, Eq, Structural)]
pub enum BCHSectionError {
    InvalidCast(u8),
}

/// Which section of the file a relocated pointer lives in or targets.
#[derive(Debug, Clone, Copy, PartialEq, Eq, Structural)]
pub enum BCHSection {
    Contents,
    Strings,
    Commands,
    CommandsSrc,
    RawData,
    RawDataTexture,
    RawDataVertex,
    RawDataIndex16,
    RawDataIndex8,
    RawExt,
    RawExtTexture,
    RawExtVertex,
    RawExtIndex16,
    RawExtIndex8,
    BaseAddress,
}

/// The section a 4-bit code in `[0, 14]` denotes.
pub open spec fn section_of(cast: u8) -> BCHSection {
    if cast == 0 {
        BCHSection::Contents
    } else if cast == 1 {
        BCHSection::Strings
    } else if cast == 2 {
        BCHSection::Commands
    } else if cast == 3 {
        BCHSection::CommandsSrc
    } else if cast == 4 {
        BCHSection::RawData
    } else if cast == 5 {
        BCHSection::RawDataTexture
    } else if cast == 6 {
        BCHSection::RawDataVertex
    } else if cast == 7 {
        BCHSection::RawDataIndex16
    } else if cast == 8 {
        BCHSection::RawDataIndex8
    } else if cast == 9 {
        BCHSection::RawExt
    } else if cast == 10 {
        BCHSection::RawExtTexture
    } else if cast == 11 {
        BCHSection::RawExtVertex
    } else if cast == 12 {
        BCHSection::RawExtIndex16
    } else if cast == 13 {
        BCHSection::RawExtIndex8
    } else {
        BCHSection::BaseAddress
    }
}

impl BCHSection {
    /// Decodes a section code; codes above 14 are invalid.
    pub fn new(cast: u8) -> (r: Result<BCHSection, BCHSectionError>)
        ensures
            cast <= 14 ==> r == Ok::<BCHSection, BCHSectionError>(section_of(cast)),
            cast > 14 ==> r == Err::<BCHSection, BCHSectionError>(BCHSectionError::InvalidCast(cast)),
    {
        match cast {
            0 => Ok(Self::Contents),
            1 => Ok(Self::Strings),
            2 => Ok(Self::Commands),
            3 => Ok(Self::CommandsSrc),
            4 => Ok(Self::RawData),
            5 => Ok(Self::RawDataTexture),
            6 => Ok(Self::RawDataVertex),
            7 => Ok(Self::RawDataIndex16),
            8 => Ok(Self::RawDataIndex8),
            9 => Ok(Self::RawExt),
            10 => Ok(Self::RawExtTexture),
            11 => Ok(Self::RawExtVertex),
            12 => Ok(Self::RawExtIndex16),
            13 => Ok(Self::RawExtIndex8),
            14 => Ok(Self::BaseAddress),
            unk => Err(BCHSectionError::InvalidCast(unk)),
        }
    }
}

} // verus!
