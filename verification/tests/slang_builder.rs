use vulka::slang::builder::{
    array_element_count, map_descriptor_type, record_range_set, BuilderLocation,
    LayoutBuildError, LayoutBuilder,
};
use vulka::slang::compiler::{BindlessConfig, BindlessPolicy, SlangShaderStage};
use vulka::slang::enums::SlangBindingType;
use vulka::slang::layout::ElementCount;
use vulka::vk::{
    DESCRIPTOR_TYPE_STORAGE_IMAGE, DESCRIPTOR_TYPE_UNIFORM_BUFFER, SHADER_STAGE_ALL,
    SHADER_STAGE_FRAGMENT,
};

#[test]
fn walk_offsets_are_restored() {
    let mut b = LayoutBuilder::new(Some(BindlessConfig { space_index: 4, policy: BindlessPolicy::Mutable }));
    let bindless = b.take_bindless().unwrap();
    assert_eq!(bindless.set, 4);
    assert!(b.take_bindless().is_none());
    b.enter_var(16, 1, 3);
    assert_eq!((b.base_bytes, b.base_set, b.base_binding_range), (16, 1, 3));
    let saved = b.enter_parameter_block();
    assert_eq!((b.base_bytes, b.base_set, b.base_binding_range), (0, 1, 0));
    b.enter_var(8, 0, 2);
    b.leave_var(8, 0, 2);
    b.leave_parameter_block(saved);
    b.leave_var(16, 1, 3);
    assert_eq!((b.base_bytes, b.base_set, b.base_binding_range), (0, 0, 0));
}

#[test]
fn stages_follow_location() {
    let mut b = LayoutBuilder::new(None);
    assert_eq!(b.stages(), SHADER_STAGE_ALL);
    b.set_location(BuilderLocation::Entrypoint(SlangShaderStage::Fragment));
    assert_eq!(b.stages(), SHADER_STAGE_FRAGMENT);
}

#[test]
fn descriptor_types_and_counts() {
    assert_eq!(map_descriptor_type(SlangBindingType::ConstantBuffer), Ok(Some(DESCRIPTOR_TYPE_UNIFORM_BUFFER)));
    assert_eq!(map_descriptor_type(SlangBindingType::MutableTexture), Ok(Some(DESCRIPTOR_TYPE_STORAGE_IMAGE)));
    assert_eq!(map_descriptor_type(SlangBindingType::PushConstant), Ok(None));
    assert_eq!(
        map_descriptor_type(SlangBindingType::VaryingInput),
        Err(LayoutBuildError::UnsupportedBindingType(SlangBindingType::VaryingInput))
    );
    assert_eq!(array_element_count(usize::MAX), ElementCount::Runtime);
    assert_eq!(array_element_count(3), ElementCount::Bounded(3));
    assert_eq!(record_range_set(-1, 2), 2);
    assert_eq!(record_range_set(2, 2), 2);
}
