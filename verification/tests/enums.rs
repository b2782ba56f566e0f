use bch3ds::{AttributeFormatType, PicaCommand, SkinningMode, VSHAttribute};

#[test]
fn pica_command_ids() {
    assert_eq!(PicaCommand::new_from_id(0x23D), PicaCommand::BlockEnd);
    assert_eq!(
        PicaCommand::new_from_id(0x2C0),
        PicaCommand::VertexShaderFloatUniformConfig
    );
    assert_eq!(
        PicaCommand::new_from_id(0x2C1),
        PicaCommand::VertexShaderFloatUniformData
    );
    assert_eq!(
        PicaCommand::new_from_id(0x1C8),
        PicaCommand::FragmentShaderLookUpTableData
    );
    assert_eq!(PicaCommand::new_from_id(0x42), PicaCommand::Unknown(0x42));
}

#[test]
fn vsh_attribute_codes() {
    assert_eq!(VSHAttribute::new(0), Some(VSHAttribute::Position));
    assert_eq!(VSHAttribute::new(1), Some(VSHAttribute::Normal));
    assert_eq!(VSHAttribute::new(2), Some(VSHAttribute::Tangent));
    assert_eq!(VSHAttribute::new(3), Some(VSHAttribute::Color));
    assert_eq!(VSHAttribute::new(8), Some(VSHAttribute::BoneWeight));
    assert_eq!(VSHAttribute::new(21), Some(VSHAttribute::Interleave));
    assert_eq!(VSHAttribute::new(22), Some(VSHAttribute::Quantity));
    assert_eq!(VSHAttribute::new(23), None);
}

#[test]
fn attribute_format_type_codes() {
    assert_eq!(AttributeFormatType::new(0), Some(AttributeFormatType::SignedByte));
    assert_eq!(AttributeFormatType::new(1), Some(AttributeFormatType::UnsignedByte));
    assert_eq!(AttributeFormatType::new(2), Some(AttributeFormatType::SignedShort));
    assert_eq!(AttributeFormatType::new(3), Some(AttributeFormatType::Single));
    assert_eq!(AttributeFormatType::new(4), None);
}

#[test]
fn skinning_mode_codes() {
    assert_eq!(SkinningMode::new(0), Some(SkinningMode::NoSkinning));
    assert_eq!(SkinningMode::new(1), Some(SkinningMode::SmoothSkinning));
    assert_eq!(SkinningMode::new(2), Some(SkinningMode::RigidSkinning));
    assert_eq!(SkinningMode::new(3), None);
}
