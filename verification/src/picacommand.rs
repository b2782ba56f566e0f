//! PICA200 command ids, vertex-attribute identities, and attribute formats.

use vstd::prelude::*;

verus! {

/// The command ids the decoder distinguishes; every other register id is an
/// ordinary write.
#[derive(PartialEq, Eq, Structural, Clone, Copy, Debug)]
pub enum PicaCommand {
    BlockEnd,
    VertexShaderFloatUniformConfig,
    VertexShaderFloatUniformData,
    FragmentShaderLookUpTableData,
    Unknown(u16),
}

/// The command a register id denotes.
pub open spec fn pica_command_of(id: u16) -> PicaCommand {
    if id == 0x23d {
        PicaCommand::BlockEnd
    } else if id == 0x2c0 {
        PicaCommand::VertexShaderFloatUniformConfig
    } else if id == 0x2c1 {
        PicaCommand::VertexShaderFloatUniformData
    } else if id == 0x1c8 {
        PicaCommand::FragmentShaderLookUpTableData
    } else {
        PicaCommand::Unknown(id)
    }
}

impl PicaCommand {
    pub fn new_from_id(id: u16) -> (r: PicaCommand)
        ensures
            r == pica_command_of(id),
    {
        match id {
            0x23d => PicaCommand::BlockEnd,
            0x2c0 => PicaCommand::VertexShaderFloatUniformConfig,
            0x2c1 => PicaCommand::VertexShaderFloatUniformData,
            0x1c8 => PicaCommand::FragmentShaderLookUpTableData,
            unk => PicaCommand::Unknown(unk),
        }
    }
}

/// Width of the entries of an index buffer.
#[derive(PartialEq, Eq, Structural, Clone, Copy, Debug)]
pub enum IndexBufferFormat {
    U8,
    U16,
}

/// The semantic identity a 4-bit permutation nibble maps a vertex-stream
/// slot to.
#[derive(PartialEq, Eq, Structural, Clone, Copy, Debug)]
pub enum VSHAttribute {
    Position,
    Normal,
    Tangent,
    Color,
    TextureCoordinate0,
    TextureCoordinate1,
    TextureCoordinate2,
    BoneIndex,
    BoneWeight,
    UserAttribute0,
    UserAttribute1,
    UserAttribute2,
    UserAttribute3,
    UserAttribute4,
    UserAttribute5,
    UserAttribute6,
    UserAttribute7,
    UserAttribute8,
    UserAttribute9,
    UserAttribute10,
    UserAttribute11,
    Interleave,
    Quantity,
}

/// The attribute identity a code in `[0, 22]` denotes.
pub open spec fn vsh_attribute_of(nb: u8) -> Option<VSHAttribute> {
    if nb == 0 {
        Some(VSHAttribute::Position)
    } else if nb == 1 {
        Some(VSHAttribute::Normal)
    } else if nb == 2 {
        Some(VSHAttribute::Tangent)
    } else if nb == 3 {
        Some(VSHAttribute::Color)
    } else if nb == 4 {
        Some(VSHAttribute::TextureCoordinate0)
    } else if nb == 5 {
        Some(VSHAttribute::TextureCoordinate1)
    } else if nb == 6 {
        Some(VSHAttribute::TextureCoordinate2)
    } else if nb == 7 {
        Some(VSHAttribute::BoneIndex)
    } else if nb == 8 {
        Some(VSHAttribute::BoneWeight)
    } else if nb == 9 {
        Some(VSHAttribute::UserAttribute0)
    } else if nb == 10 {
        Some(VSHAttribute::UserAttribute1)
    } else if nb == 11 {
        Some(VSHAttribute::UserAttribute2)
    } else if nb == 12 {
        Some(VSHAttribute::UserAttribute3)
    } else if nb == 13 {
        Some(VSHAttribute::UserAttribute4)
    } else if nb == 14 {
        Some(VSHAttribute::UserAttribute5)
    } else if nb == 15 {
        Some(VSHAttribute::UserAttribute6)
    } else if nb == 16 {
        Some(VSHAttribute::UserAttribute7)
    } else if nb == 17 {
        Some(VSHAttribute::UserAttribute8)
    } else if nb == 18 {
        Some(VSHAttribute::UserAttribute9)
    } else if nb == 19 {
        Some(VSHAttribute::UserAttribute10)
    } else if nb == 20 {
        Some(VSHAttribute::UserAttribute11)
    } else if nb == 21 {
        Some(VSHAttribute::Interleave)
    } else if nb == 22 {
        Some(VSHAttribute::Quantity)
    } else {
        None
    }
}

impl VSHAttribute {
    /// Decodes an attribute identity; codes above 22 are invalid.
    pub fn new(nb: u8) -> (r: Option<VSHAttribute>)
        ensures
            r == vsh_attribute_of(nb),
    {
        match nb {
            0 => Some(Self::Position),
            1 => Some(Self::Normal),
            2 => Some(Self::Tangent),
            3 => Some(Self::Color),
            4 => Some(Self::TextureCoordinate0),
            5 => Some(Self::TextureCoordinate1),
            6 => Some(Self::TextureCoordinate2),
            7 => Some(Self::BoneIndex),
            8 => Some(Self::BoneWeight),
            9 => Some(Self::UserAttribute0),
            10 => Some(Self::UserAttribute1),
            11 => Some(Self::UserAttribute2),
            12 => Some(Self::UserAttribute3),
            13 => Some(Self::UserAttribute4),
            14 => Some(Self::UserAttribute5),
            15 => Some(Self::UserAttribute6),
            16 => Some(Self::UserAttribute7),
            17 => Some(Self::UserAttribute8),
            18 => Some(Self::UserAttribute9),
            19 => Some(Self::UserAttribute10),
            20 => Some(Self::UserAttribute11),
            21 => Some(Self::Interleave),
            22 => Some(Self::Quantity),
            _ => None,
        }
    }
}

/// One decoded scalar of a vertex attribute. A `Single` carries the bit
/// pattern of the 32-bit float as read from the blob; `Absent` pads a
/// vector slot the stream did not fill.
#[derive(Debug, Clone, Copy, PartialEq, Eq, Structural)]
pub enum AttributeData {
    I8(i8),
    U8(u8),
    I16(i16),
    Single(u32),
    Absent,
}

/// Element type of a vertex attribute.
#[derive(Debug, Clone, Copy, PartialEq, Eq, Structural)]
pub enum AttributeFormatType {
    SignedByte,
    UnsignedByte,
    SignedShort,
    Single,
}

/// The element type a 2-bit code denotes.
pub open spec fn attribute_format_type_of(nb: u8) -> Option<AttributeFormatType> {
    if nb == 0 {
        Some(AttributeFormatType::SignedByte)
    } else if nb == 1 {
        Some(AttributeFormatType::UnsignedByte)
    } else if nb == 2 {
        Some(AttributeFormatType::SignedShort)
    } else if nb == 3 {
        Some(AttributeFormatType::Single)
    } else {
        None
    }
}

impl AttributeFormatType {
    /// Decodes an element type; codes above 3 are invalid.
    pub fn new(nb: u8) -> (r: Option<AttributeFormatType>)
        ensures
            r == attribute_format_type_of(nb),
    {
        match nb {
            0 => Some(Self::SignedByte),
            1 => Some(Self::UnsignedByte),
            2 => Some(Self::SignedShort),
            3 => Some(Self::Single),
            _ => None,
        }
    }
}

/// Element type and length code of one vertex attribute.
#[derive(Debug, Clone, Copy, PartialEq, Eq, Structural)]
pub struct AttributeFormat {
    pub format_type: AttributeFormatType,
    pub attribute_length: u32,
}

} // verus!
