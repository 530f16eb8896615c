use vulka::slang::compiler::SlangShaderStage;
use vulka::slang::cursor::{LayoutKind, ShaderTree, ShaderTreeError};
use vulka::slang::enums::SlangResourceShape;
use vulka::slang::layout::{
    ArrayType, ElementCount, EntrypointLayout, NumericType, ParameterBlockLayout,
    ParameterBlockType, ResourceType, SamplerStateType, ScalarType, ShaderLayout, Stride,
    StructType, Type, TypeLayout, VarLayout,
};

fn ty(stride_bytes: usize, stride_binding_range: i64, ty: Type) -> TypeLayout {
    TypeLayout { size: None, alignment: 4, stride: Stride { bytes: stride_bytes, binding_range: stride_binding_range }, ty }
}

fn scalar() -> TypeLayout {
    ty(4, 0, Type::Numeric(NumericType::Scalar(ScalarType { ty: "float".to_string() })))
}

fn field(name: &str, bytes: usize, set: usize, binding_range: i64, value: TypeLayout) -> VarLayout {
    VarLayout {
        name: Some(name.to_string()),
        offset_bytes: bytes,
        offset_set: set,
        offset_binding_range: binding_range,
        varying: None,
        value,
    }
}

fn structure(fields: Vec<VarLayout>) -> TypeLayout {
    ty(0, 0, Type::Struct(StructType { name: "S".to_string(), fields }))
}

fn layout() -> ShaderLayout {
    let block = ty(
        0,
        0,
        Type::ParameterBlock(ParameterBlockType {
            layout: ParameterBlockLayout { set: Some(0), implicit_ubo: None, binding_ranges: Vec::new() },
            element: Box::new(structure(vec![
                field("time", 0, 0, 0, scalar()),
                field("scale", 4, 0, 0, scalar()),
                field("time", 8, 0, 0, scalar()),
            ])),
        }),
    );
    let textures = ty(
        0,
        1,
        Type::Array(ArrayType {
            count: ElementCount::Bounded(4),
            element: Box::new(ty(
                0,
                1,
                Type::Resource(ResourceType {
                    ty: "Texture2D".to_string(),
                    binding: None,
                    shape: SlangResourceShape::Texture2d,
                    access: None,
                    element: None,
                }),
            )),
        }),
    );
    let values = ty(16, 0, Type::Array(ArrayType { count: ElementCount::Runtime, element: Box::new(scalar()) }));
    let sampler = ty(0, 1, Type::SamplerState(SamplerStateType { is_comparison_state: false }));
    let globals = VarLayout {
        name: None,
        offset_bytes: 0,
        offset_set: 0,
        offset_binding_range: 0,
        varying: None,
        value: structure(vec![
            field("frame", 0, 1, 0, block),
            field("textures", 0, 0, 2, textures),
            field("sampler", 0, 0, 6, sampler),
            field("values", 64, 0, 0, values),
        ]),
    };
    ShaderLayout {
        bindless: None,
        globals: Some(Box::new(globals)),
        entrypoints: vec![
            EntrypointLayout { name: "vsMain".to_string(), stage: SlangShaderStage::Vertex, params: None },
            EntrypointLayout {
                name: "fsMain".to_string(),
                stage: SlangShaderStage::Fragment,
                params: Some(Box::new(field("p", 0, 0, 0, structure(vec![])))),
            },
        ],
    }
}

#[test]
fn walking_fields_adds_offsets() {
    let tree = ShaderTree::new(layout()).unwrap();
    let globals = tree.globals().unwrap();
    assert_eq!(globals.kind(), LayoutKind::Struct);
    let frame = globals.field("frame").unwrap();
    assert_eq!(frame.kind(), LayoutKind::ParameterBlock);
    assert_eq!(frame.offset().set, 1);
    assert_eq!(frame.descriptor_set_layout().unwrap().set, Some(0));
    let inner = frame.element_layout().unwrap();
    assert_eq!(inner.kind(), LayoutKind::Struct);
    // the first field of a name wins
    let time = inner.field("time").unwrap();
    assert_eq!(time.offset().bytes, 0);
    assert_eq!(time.kind(), LayoutKind::ScalarLike);
    assert_eq!(inner.field("scale").unwrap().offset().bytes, 4);
    assert_eq!(inner.field("missing").unwrap_err(), ShaderTreeError::FieldNotFound);
    assert_eq!(time.field("x").unwrap_err(), ShaderTreeError::NotAStruct);
    assert_eq!(globals.field("sampler").unwrap().kind(), LayoutKind::Sampler);
}

#[test]
fn indexing_arrays() {
    let tree = ShaderTree::new(layout()).unwrap();
    let globals = tree.globals().unwrap();
    let textures = globals.field("textures").unwrap();
    assert_eq!(textures.kind(), LayoutKind::Array);
    let third = textures.index(2).unwrap();
    assert_eq!(third.kind(), LayoutKind::Resource);
    assert_eq!(third.offset().binding_range, 4);
    assert_eq!(third.offset().array_index, 2);
    assert_eq!(textures.index(4).unwrap_err(), ShaderTreeError::IndexOutOfBounds);
    assert_eq!(third.element_layout().unwrap_err(), ShaderTreeError::NoElementLayout);
    assert_eq!(globals.index(0).unwrap_err(), ShaderTreeError::NotAnArray);
    let values = globals.field("values").unwrap();
    let tenth = values.index(10).unwrap();
    assert_eq!(tenth.offset().bytes, 64 + 160);
    assert_eq!(tenth.offset().array_index, 10);
    assert_eq!(globals.descriptor_set_layout().unwrap_err(), ShaderTreeError::NotAParameterBlock);
}

#[test]
fn entrypoints_with_parameters() {
    let tree = ShaderTree::new(layout()).unwrap();
    assert_eq!(tree.entrypoints.len(), 1);
    assert!(tree.entrypoint(SlangShaderStage::Fragment, "fsMain").is_ok());
    assert_eq!(
        tree.entrypoint(SlangShaderStage::Vertex, "vsMain").unwrap_err(),
        ShaderTreeError::EntrypointNotFound
    );
}

#[test]
fn unknown_types_are_refused() {
    let mut l = layout();
    l.entrypoints.push(EntrypointLayout {
        name: "bad".to_string(),
        stage: SlangShaderStage::Compute,
        params: Some(Box::new(field("p", 0, 0, 0, ty(0, 0, Type::Unknown("Kind".to_string(), "Name".to_string()))))),
    });
    assert_eq!(
        ShaderTree::new(l).unwrap_err(),
        ShaderTreeError::UnknownType("Kind".to_string(), "Name".to_string())
    );
    let empty = ShaderLayout { bindless: None, globals: None, entrypoints: Vec::new() };
    assert_eq!(ShaderTree::new(empty).unwrap().globals().unwrap_err(), ShaderTreeError::NoGlobals);
}
