use vulka::renderer::descriptors::{
    collect_parameter_blocks, descriptor_bindings, descriptor_count, descriptor_pool_sizes,
    plan_bind, resolve_binding, select_parameter_blocks, set_layout_bindings,
    DescriptorPoolSize, DescriptorValueKind, DescriptorWrite, ParameterBlockLayoutInfo,
    RendererError, SetLayoutBinding,
};
use vulka::slang::cursor_layout::ShaderOffset;
use vulka::slang::enums::SlangBindingType;
use vulka::slang::layout::{
    BindingRangeLayout, DescriptorBindingLayout, ElementCount, NumericType, ParameterBlockLayout,
    ParameterBlockType, ScalarType, ShaderLayout, Stride, StructType, Type, TypeLayout,
    VarLayout,
};
use vulka::slang::shader_cursor::{DescriptorClass, DescriptorProfile};
use vulka::vk::{
    DESCRIPTOR_TYPE_SAMPLED_IMAGE, DESCRIPTOR_TYPE_SAMPLER, DESCRIPTOR_TYPE_STORAGE_BUFFER,
    DESCRIPTOR_TYPE_UNIFORM_BUFFER,
};

fn binding(binding: i64, descriptor_type: i32, count: ElementCount) -> DescriptorBindingLayout {
    DescriptorBindingLayout {
        binding,
        stages: 0x7fff_ffff,
        binding_type: SlangBindingType::ConstantBuffer,
        descriptor_type,
        shape: None,
        access: None,
        count,
    }
}

fn block_layout(set: Option<i64>, ubo: bool, ranges: Vec<(i64, DescriptorBindingLayout)>) -> ParameterBlockLayout {
    ParameterBlockLayout {
        set,
        implicit_ubo: if ubo {
            Some(binding(0, DESCRIPTOR_TYPE_UNIFORM_BUFFER, ElementCount::Bounded(1)))
        } else {
            None
        },
        binding_ranges: ranges
            .into_iter()
            .map(|(range_index, descriptor)| BindingRangeLayout { range_index, descriptor })
            .collect(),
    }
}

fn scalar() -> TypeLayout {
    TypeLayout {
        size: None,
        alignment: 4,
        stride: Stride { bytes: 4, binding_range: 0 },
        ty: Type::Numeric(NumericType::Scalar(ScalarType { ty: "float".to_string() })),
    }
}

fn var(name: Option<&str>, ty: TypeLayout) -> VarLayout {
    VarLayout {
        name: name.map(|n| n.to_string()),
        offset_bytes: 0,
        offset_set: 0,
        offset_binding_range: 0,
        varying: None,
        value: ty,
    }
}

fn block_var(name: &str, layout: ParameterBlockLayout) -> VarLayout {
    var(
        Some(name),
        TypeLayout {
            size: None,
            alignment: 0,
            stride: Stride { bytes: 0, binding_range: 0 },
            ty: Type::ParameterBlock(ParameterBlockType { layout, element: Box::new(scalar()) }),
        },
    )
}

fn program(fields: Vec<VarLayout>) -> ShaderLayout {
    ShaderLayout {
        bindless: None,
        globals: Some(Box::new(var(
            None,
            TypeLayout {
                size: None,
                alignment: 0,
                stride: Stride { bytes: 0, binding_range: 0 },
                ty: Type::Struct(StructType { name: "Globals".to_string(), fields }),
            },
        ))),
        entrypoints: Vec::new(),
    }
}

fn offset(binding_range: i64, array_index: usize) -> ShaderOffset {
    ShaderOffset { bytes: 0, set: 0, binding_range, array_index, varying_input: 0 }
}

fn material_layout() -> ParameterBlockLayout {
    block_layout(
        Some(1),
        false,
        vec![
            (0, binding(0, DESCRIPTOR_TYPE_SAMPLER, ElementCount::Bounded(1))),
            (1, binding(1, DESCRIPTOR_TYPE_SAMPLED_IMAGE, ElementCount::Bounded(4))),
        ],
    )
}

#[test]
fn blocks_come_out_in_set_order() {
    let layout = program(vec![
        block_var("material", block_layout(Some(1), false, vec![])),
        var(Some("time"), scalar()),
        block_var("frame", block_layout(Some(0), true, vec![])),
        var(None, scalar()),
    ]);
    let blocks = collect_parameter_blocks(&layout).unwrap();
    let names: Vec<(String, u32)> = blocks.iter().map(|b| (b.name.clone(), b.set)).collect();
    assert_eq!(names, vec![("frame".to_string(), 0), ("material".to_string(), 1)]);
}

#[test]
fn sets_must_be_contiguous_from_zero() {
    let layout = program(vec![
        block_var("b", block_layout(Some(1), false, vec![])),
        block_var("a", block_layout(Some(0), false, vec![])),
        block_var("c", block_layout(Some(1), false, vec![])),
    ]);
    assert_eq!(collect_parameter_blocks(&layout).unwrap_err(), RendererError::NonContiguousSets);

    let layout = program(vec![
        block_var("a", block_layout(Some(0), false, vec![])),
        block_var("b", block_layout(Some(2), false, vec![])),
        block_var("c", block_layout(Some(2), false, vec![])),
    ]);
    assert_eq!(collect_parameter_blocks(&layout).unwrap_err(), RendererError::NonContiguousSets);

    let layout = program(vec![
        block_var("a", block_layout(Some(1), false, vec![])),
        block_var("b", block_layout(Some(1), false, vec![])),
    ]);
    assert_eq!(collect_parameter_blocks(&layout).unwrap_err(), RendererError::NonContiguousSets);

    let layout = program(vec![
        block_var("c", block_layout(Some(2), false, vec![])),
        block_var("a", block_layout(Some(0), false, vec![])),
        block_var("b", block_layout(Some(1), false, vec![])),
    ]);
    let blocks = collect_parameter_blocks(&layout).unwrap();
    let names: Vec<&str> = blocks.iter().map(|b| b.name.as_str()).collect();
    assert_eq!(names, vec!["a", "b", "c"]);
}

#[test]
fn block_errors() {
    let no_globals = ShaderLayout { bindless: None, globals: None, entrypoints: Vec::new() };
    assert_eq!(collect_parameter_blocks(&no_globals).unwrap_err(), RendererError::MissingGlobals);

    let not_struct = ShaderLayout {
        bindless: None,
        globals: Some(Box::new(var(None, scalar()))),
        entrypoints: Vec::new(),
    };
    assert_eq!(collect_parameter_blocks(&not_struct).unwrap_err(), RendererError::GlobalsNotStruct);

    let missing = program(vec![block_var("frame", block_layout(None, false, vec![]))]);
    assert_eq!(
        collect_parameter_blocks(&missing).unwrap_err(),
        RendererError::MissingSet { name: "frame".to_string() }
    );

    let negative = program(vec![block_var("frame", block_layout(Some(-1), false, vec![]))]);
    assert_eq!(
        collect_parameter_blocks(&negative).unwrap_err(),
        RendererError::NegativeSet { name: "frame".to_string(), set: -1 }
    );

    let none = program(vec![var(Some("x"), scalar())]);
    assert_eq!(collect_parameter_blocks(&none).unwrap_err(), RendererError::NoParameterBlocks);

    let gap = program(vec![block_var("frame", block_layout(Some(1), false, vec![]))]);
    assert_eq!(collect_parameter_blocks(&gap).unwrap_err(), RendererError::NonContiguousSets);
}

#[test]
fn descriptor_kinds() {
    assert_eq!(DescriptorValueKind::UniformBuffer.descriptor_type(), DESCRIPTOR_TYPE_UNIFORM_BUFFER);
    assert_eq!(DescriptorValueKind::StorageBuffer.descriptor_type(), DESCRIPTOR_TYPE_STORAGE_BUFFER);
    assert_eq!(DescriptorValueKind::Sampler.descriptor_type(), DESCRIPTOR_TYPE_SAMPLER);
    assert_eq!(DescriptorValueKind::SampledImage.descriptor_type(), DESCRIPTOR_TYPE_SAMPLED_IMAGE);
    assert_eq!(
        DescriptorValueKind::SampledImage.profile(),
        DescriptorProfile { class: DescriptorClass::SampledImage, writable: false }
    );
}

#[test]
fn resolving_bindings() {
    let set = material_layout();
    assert_eq!(resolve_binding(&set, offset(1, 0)).unwrap().binding, 1);
    assert_eq!(
        resolve_binding(&set, offset(7, 0)).unwrap_err(),
        RendererError::BindingNotFound { binding_range: 7, set: Some(1) }
    );
    let frame = block_layout(Some(0), true, vec![]);
    assert_eq!(
        resolve_binding(&frame, offset(0, 0)).unwrap().descriptor_type,
        DESCRIPTOR_TYPE_UNIFORM_BUFFER
    );
    assert_eq!(descriptor_count(&ElementCount::Bounded(3)), Ok(3));
    assert_eq!(descriptor_count(&ElementCount::Runtime), Err(RendererError::RuntimeSizedArray));
}

#[test]
fn binding_plans() {
    let set = material_layout();
    assert_eq!(
        plan_bind(&set, offset(1, 2), Some(DescriptorValueKind::SampledImage)),
        Ok(DescriptorWrite { binding: 1, array_element: 2, descriptor_type: DESCRIPTOR_TYPE_SAMPLED_IMAGE })
    );
    assert_eq!(
        plan_bind(&set, offset(1, 4), Some(DescriptorValueKind::SampledImage)),
        Err(RendererError::ArrayIndexOutOfBounds { array_index: 4, binding: 1, count: 4 })
    );
    assert_eq!(
        plan_bind(&set, offset(0, 0), Some(DescriptorValueKind::SampledImage)),
        Err(RendererError::DescriptorTypeMismatch {
            binding: 0,
            expected: DESCRIPTOR_TYPE_SAMPLER,
            actual: DESCRIPTOR_TYPE_SAMPLED_IMAGE,
        })
    );
    assert_eq!(plan_bind(&set, offset(0, 0), None), Err(RendererError::UnsupportedDescriptor));
    let negative = block_layout(
        Some(0),
        false,
        vec![(0, binding(-2, DESCRIPTOR_TYPE_SAMPLER, ElementCount::Bounded(1)))],
    );
    assert_eq!(
        plan_bind(&negative, offset(0, 0), Some(DescriptorValueKind::Sampler)),
        Err(RendererError::NegativeBinding { binding: -2 })
    );
    let runtime = block_layout(
        Some(0),
        false,
        vec![(0, binding(0, DESCRIPTOR_TYPE_SAMPLER, ElementCount::Runtime))],
    );
    assert_eq!(
        plan_bind(&runtime, offset(0, 0), Some(DescriptorValueKind::Sampler)),
        Err(RendererError::RuntimeSizedArray)
    );
}

#[test]
fn set_layouts_sorted_by_binding() {
    let set = block_layout(
        Some(0),
        true,
        vec![
            (0, binding(3, DESCRIPTOR_TYPE_SAMPLER, ElementCount::Bounded(1))),
            (1, binding(1, DESCRIPTOR_TYPE_SAMPLED_IMAGE, ElementCount::Bounded(2))),
        ],
    );
    assert_eq!(descriptor_bindings(&set).len(), 3);
    let bindings = set_layout_bindings(&set).unwrap();
    let numbers: Vec<u32> = bindings.iter().map(|b| b.binding).collect();
    assert_eq!(numbers, vec![0, 1, 3]);
    assert_eq!(
        bindings[1],
        SetLayoutBinding {
            binding: 1,
            descriptor_type: DESCRIPTOR_TYPE_SAMPLED_IMAGE,
            descriptor_count: 2,
            stage_flags: 0x7fff_ffff,
        }
    );
    let negative = block_layout(
        Some(0),
        false,
        vec![(0, binding(-1, DESCRIPTOR_TYPE_SAMPLER, ElementCount::Bounded(1)))],
    );
    assert_eq!(set_layout_bindings(&negative), Err(RendererError::NegativeBinding { binding: -1 }));
}

fn info(name: &str, set: u32, layout: ParameterBlockLayout) -> ParameterBlockLayoutInfo {
    ParameterBlockLayoutInfo { name: name.to_string(), set, descriptor_set: layout }
}

#[test]
fn pool_sizes_total_per_type() {
    let blocks = vec![
        info("frame", 0, block_layout(Some(0), true, vec![])),
        info("material", 1, material_layout()),
        info(
            "extra",
            2,
            block_layout(
                Some(2),
                true,
                vec![(0, binding(1, DESCRIPTOR_TYPE_SAMPLED_IMAGE, ElementCount::Bounded(3)))],
            ),
        ),
    ];
    let mut sizes = descriptor_pool_sizes(&blocks).unwrap();
    sizes.sort_by_key(|s| s.descriptor_type);
    assert_eq!(
        sizes,
        vec![
            DescriptorPoolSize { descriptor_type: DESCRIPTOR_TYPE_SAMPLER, descriptor_count: 1 },
            DescriptorPoolSize { descriptor_type: DESCRIPTOR_TYPE_SAMPLED_IMAGE, descriptor_count: 7 },
            DescriptorPoolSize { descriptor_type: DESCRIPTOR_TYPE_UNIFORM_BUFFER, descriptor_count: 2 },
        ]
    );
    let runtime = vec![info(
        "x",
        0,
        block_layout(Some(0), false, vec![(0, binding(0, DESCRIPTOR_TYPE_SAMPLER, ElementCount::Runtime))]),
    )];
    assert_eq!(descriptor_pool_sizes(&runtime), Err(RendererError::RuntimeSizedArray));
}

#[test]
fn selecting_named_blocks() {
    let blocks = vec![
        info("frame", 0, block_layout(Some(0), true, vec![])),
        info("material", 1, material_layout()),
    ];
    assert_eq!(select_parameter_blocks(&blocks, 2), Ok((0, 1)));
    assert_eq!(
        select_parameter_blocks(&blocks, 1),
        Err(RendererError::MissingDescriptorSet { set: 1 })
    );
    let only_frame = vec![info("frame", 0, block_layout(Some(0), true, vec![]))];
    assert_eq!(
        select_parameter_blocks(&only_frame, 1),
        Err(RendererError::MissingParameterBlock { name: "material".to_string() })
    );
    let only_material = vec![info("material", 0, material_layout())];
    assert_eq!(
        select_parameter_blocks(&only_material, 1),
        Err(RendererError::MissingParameterBlock { name: "frame".to_string() })
    );
}
