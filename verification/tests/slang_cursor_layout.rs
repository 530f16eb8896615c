use std::sync::Arc;
use vulka::slang::compiler::SlangShaderStage;
use vulka::slang::cursor_layout::{CursorLayout, CursorLayoutError, NodeId};
use vulka::slang::enums::SlangResourceShape;
use vulka::slang::layout::{
    ArrayType, ElementCount, EntrypointLayout, NumericType, ParameterBlockLayout,
    ParameterBlockType, ResourceType, ScalarType, ShaderLayout, Stride, StructType, Type,
    TypeLayout, VarLayout,
};
use vulka::slang::shader_cursor::{
    bind_target, validate_descriptor_profile, BindError, BindTarget, DescriptorClass,
    DescriptorProfile,
};

fn ty(stride_bytes: usize, stride_binding_range: i64, ty: Type) -> TypeLayout {
    TypeLayout { size: None, alignment: 4, stride: Stride { bytes: stride_bytes, binding_range: stride_binding_range }, ty }
}

fn scalar() -> TypeLayout {
    ty(4, 0, Type::Numeric(NumericType::Scalar(ScalarType { ty: "float".to_string() })))
}

fn field(name: &str, bytes: usize, set: usize, binding_range: i64, value: TypeLayout) -> VarLayout {
    VarLayout {
        name: Some(name.to_string()),
        offset_bytes: bytes,
        offset_set: set,
        offset_binding_range: binding_range,
        varying: None,
        value,
    }
}

fn structure(fields: Vec<VarLayout>) -> TypeLayout {
    ty(0, 0, Type::Struct(StructType { name: "S".to_string(), fields }))
}

fn layout() -> ShaderLayout {
    let block = ty(
        0,
        0,
        Type::ParameterBlock(ParameterBlockType {
            layout: ParameterBlockLayout { set: Some(2), implicit_ubo: None, binding_ranges: Vec::new() },
            element: Box::new(structure(vec![field("tint", 0, 0, 0, scalar()), field("gain", 4, 0, 0, scalar())])),
        }),
    );
    let texture = ty(
        0,
        1,
        Type::Resource(ResourceType {
            ty: "Texture2D".to_string(),
            binding: None,
            shape: SlangResourceShape::Texture2d,
            access: None,
            element: None,
        }),
    );
    let textures = ty(0, 1, Type::Array(ArrayType { count: ElementCount::Bounded(3), element: Box::new(texture) }));
    let globals = VarLayout {
        name: None,
        offset_bytes: 0,
        offset_set: 0,
        offset_binding_range: 0,
        varying: None,
        value: structure(vec![
            field("material", 0, 1, 0, block),
            field("textures", 0, 0, 5, textures),
            field("scale", 32, 0, 0, scalar()),
        ]),
    };
    ShaderLayout {
        bindless: None,
        globals: Some(Box::new(globals)),
        entrypoints: vec![EntrypointLayout {
            name: "csMain".to_string(),
            stage: SlangShaderStage::Compute,
            params: Some(Box::new(field("p", 0, 0, 0, structure(vec![field("n", 8, 0, 0, scalar())])))),
        }],
    }
}

#[test]
fn views_follow_fields_and_elements() {
    let layout = Arc::new(CursorLayout::build(layout()).unwrap());
    let globals = layout.global_view().unwrap();
    let scale = globals.clone().field("scale").unwrap();
    assert_eq!(scale.base.bytes, 32);
    let material = globals.clone().field("material").unwrap();
    assert_eq!(material.base.set, 1);
    let textures = globals.clone().field("textures").unwrap();
    let second = textures.clone().element(1).unwrap();
    assert_eq!(second.base.binding_range, 6);
    assert_eq!(second.base.array_index, 1);
    assert!(textures.clone().element(3).is_none());
    assert!(globals.clone().field("missing").is_none());
    assert!(scale.element(0).is_none());
    let params = layout.entrypoint_view(SlangShaderStage::Compute, "csMain").unwrap();
    assert_eq!(params.field("n").unwrap().base.bytes, 8);
    assert!(layout.entrypoint_view(SlangShaderStage::Vertex, "csMain").is_none());
}

#[test]
fn bind_targets_by_node_kind() {
    let layout = Arc::new(CursorLayout::build(layout()).unwrap());
    let globals = layout.global_view().unwrap();
    let material = globals.clone().field("material").unwrap();
    let target = bind_target(&layout, material.node).unwrap();
    assert!(target.resolved_node.is_some());
    assert_eq!(target.expected_class, None);
    let texture = globals.clone().field("textures").unwrap().element(0).unwrap();
    assert_eq!(
        bind_target(&layout, texture.node),
        Ok(BindTarget { resolved_node: None, expected_class: None })
    );
    let scale = globals.field("scale").unwrap();
    assert_eq!(bind_target(&layout, scale.node), Err(BindError::NotBindable));
    assert_eq!(bind_target(&layout, NodeId(10_000)), Err(BindError::InvalidNode));
    assert!(layout.node(NodeId(10_000)).is_none());
}

#[test]
fn descriptor_profiles_must_fit_their_target() {
    let uniform = BindTarget { resolved_node: Some(NodeId(1)), expected_class: Some(DescriptorClass::UniformBuffer) };
    let sampled = DescriptorProfile { class: DescriptorClass::SampledImage, writable: false };
    let ubo = DescriptorProfile { class: DescriptorClass::UniformBuffer, writable: false };
    assert_eq!(validate_descriptor_profile(uniform, ubo, true), Ok(()));
    assert_eq!(
        validate_descriptor_profile(uniform, sampled, false),
        Err(BindError::ClassMismatch { expected: DescriptorClass::UniformBuffer, got: DescriptorClass::SampledImage })
    );
    let open = BindTarget { resolved_node: None, expected_class: None };
    assert_eq!(validate_descriptor_profile(open, sampled, false), Ok(()));
    assert_eq!(
        validate_descriptor_profile(open, sampled, true),
        Err(BindError::NotABuffer(DescriptorClass::SampledImage))
    );
}

#[test]
fn unclassified_types_stop_the_flattening() {
    let mut l = layout();
    l.entrypoints.push(EntrypointLayout {
        name: "bad".to_string(),
        stage: SlangShaderStage::Vertex,
        params: Some(Box::new(field("p", 0, 0, 0, ty(0, 0, Type::Unknown("Kind".to_string(), "Name".to_string()))))),
    });
    assert_eq!(
        CursorLayout::build(l).unwrap_err(),
        CursorLayoutError::UnknownType("Kind".to_string(), "Name".to_string())
    );
}
