use vulka::slang::enums::{SlangResourceAccess, SlangResourceShape};
use vulka::slang::reflect_type::{
    buffer_access, convert_scalar_kind, default_sampled_type, is_buffer_shape, texture_access,
    texture_shape, ReflectTypeError, SlangScalarType,
};
use vulka::slang::types::{BufferAccess, SampledType, ScalarKind, TextureAccess, TextureDim};
use vulka::slang::compiler::SlangShaderStage;
use vulka::slang::enums::SlangBindingType;
use vulka::slang::reflect::{reflect_descriptor_type, ReflectError, ReflectState};
use vulka::vk::{DESCRIPTOR_TYPE_STORAGE_BUFFER, DESCRIPTOR_TYPE_UNIFORM_BUFFER};

#[test]
fn sets_move_past_the_bindless_set() {
    let mut state = ReflectState::new(Some(2));
    assert_eq!(state.set(0), 0);
    assert_eq!(state.set(1), 1);
    assert_eq!(state.set(2), 3);
    assert_eq!(state.set(5), 6);
    state.increment_set(4);
    assert_eq!(state.set(1), 5);
    assert_eq!(state.set(2), 7);
    state.set_stage(SlangShaderStage::Fragment);
    assert_eq!(state.base_stage, Some(SlangShaderStage::Fragment));
    assert_eq!(ReflectState::new(None).set(7), 7);
}

#[test]
fn printed_descriptor_types() {
    assert_eq!(reflect_descriptor_type(SlangBindingType::ConstantBuffer), Ok(DESCRIPTOR_TYPE_UNIFORM_BUFFER));
    assert_eq!(reflect_descriptor_type(SlangBindingType::RawBuffer), Ok(DESCRIPTOR_TYPE_STORAGE_BUFFER));
    assert_eq!(
        reflect_descriptor_type(SlangBindingType::PushConstant),
        Err(ReflectError::PushConstantNotDescriptor)
    );
    assert_eq!(
        reflect_descriptor_type(SlangBindingType::VaryingInput),
        Err(ReflectError::UnsupportedBindingType(SlangBindingType::VaryingInput))
    );
}

#[test]
fn reflected_scalars_and_textures() {
    assert_eq!(convert_scalar_kind(SlangScalarType::Int16), Ok(ScalarKind::Int32));
    assert_eq!(convert_scalar_kind(SlangScalarType::Uint64), Ok(ScalarKind::UInt32));
    assert_eq!(convert_scalar_kind(SlangScalarType::Float16), Ok(ScalarKind::Float32));
    assert_eq!(convert_scalar_kind(SlangScalarType::Bool), Ok(ScalarKind::Bool));
    assert_eq!(
        convert_scalar_kind(SlangScalarType::Void),
        Err(ReflectTypeError::UnsupportedScalarType(SlangScalarType::Void))
    );
    assert_eq!(texture_shape(SlangResourceShape::Texture2dMultisampleArray), Ok((TextureDim::Two, true, true)));
    assert_eq!(texture_shape(SlangResourceShape::TextureCube), Ok((TextureDim::Cube, false, false)));
    assert_eq!(
        texture_shape(SlangResourceShape::StructuredBuffer),
        Err(ReflectTypeError::UnsupportedTextureShape(SlangResourceShape::StructuredBuffer))
    );
    assert!(is_buffer_shape(SlangResourceShape::ByteAddressBuffer));
    assert!(!is_buffer_shape(SlangResourceShape::Texture2d));
    assert_eq!(texture_access(SlangResourceAccess::ReadWrite), TextureAccess::ReadWrite);
    assert_eq!(texture_access(SlangResourceAccess::Write), TextureAccess::ReadOnly);
    assert_eq!(buffer_access(SlangResourceAccess::Read), BufferAccess::ReadOnly);
    assert_eq!(default_sampled_type(), SampledType::Vector { scalar: ScalarKind::Float32, count: 4 });
}
