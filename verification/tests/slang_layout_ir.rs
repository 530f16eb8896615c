use vulka::slang::bindless::{BindlessDescriptor, BindlessLayout};
use vulka::slang::compiler::BindlessPolicy;
use vulka::slang::enums::{SlangBindingType, SlangResourceAccess};
use vulka::slang::ir::{
    FieldIr, LayoutIr, ScopeIr, SlangEnumValue, SlangUnit, TypeDeclId, TypeDeclIr, TypeLayoutId,
    TypeLayoutIr, VarLayoutId, VarLayoutIr,
};
use vulka::slang::ir_denorm::{denormalize_layout_ir, DenormError};
use vulka::slang::layout_v2::{
    AggregateOffset, ConstantBufferLayout, DescriptorOffset, ElementCount, LayoutError,
    NumericLayout, NumericType, PodOffset, PushConstantLayout, ResourceLayout, ScalarType,
    Size, Stride, StructLayout, ValueLayout, VarLayout,
};
use vulka::slang::print::PrintObject;
use vulka::vk::{DESCRIPTOR_TYPE_SAMPLER, DESCRIPTOR_TYPE_STORAGE_BUFFER};

fn unit(bytes: u32) -> SlangUnit {
    SlangUnit { bytes, binding_slots: 0, set_spaces: 0 }
}

fn kind(name: &str, value: i32) -> SlangEnumValue {
    SlangEnumValue { name: name.to_string(), value }
}

fn type_layout(decl: u32, fields: Vec<FieldIr>) -> TypeLayoutIr {
    TypeLayoutIr {
        decl: TypeDeclId(decl),
        categories: vec![],
        size: unit(4),
        alignment_bytes: 4,
        stride: unit(4),
        stride_bytes: 4,
        matrix_layout_mode: None,
        binding_ranges: vec![],
        descriptor_sets: vec![],
        sub_object_ranges: vec![],
        fields,
        element: None,
        element_count: None,
        container: None,
        contained: None,
    }
}

fn var(name: Option<&str>, ty: u32) -> VarLayoutIr {
    VarLayoutIr {
        name: name.map(|n| n.to_string()),
        offsets: vec![],
        byte_offset_delta: 0,
        binding_range_offset_delta: 0,
        type_layout: TypeLayoutId(ty),
    }
}

fn layout(field_type: u32) -> LayoutIr {
    LayoutIr {
        global_scope: ScopeIr { var_layout: VarLayoutId(0) },
        entry_points: vec![],
        type_decls: vec![
            TypeDeclIr { name: Some("Globals".to_string()), kind: kind("Struct", 1) },
            TypeDeclIr { name: Some("float".to_string()), kind: kind("Scalar", 2) },
        ],
        types: vec![type_layout(0, vec![FieldIr { var: VarLayoutId(1) }]), type_layout(1, vec![])],
        vars: vec![var(None, 0), var(Some("x"), field_type)],
    }
}

fn float_at(offset_bytes: usize) -> ValueLayout {
    ValueLayout::Numeric(NumericLayout {
        offset: PodOffset { offset_bytes },
        ty: NumericType::Scalar(ScalarType { ty: "float".to_string() }),
    })
}

fn texture() -> ValueLayout {
    ValueLayout::Resource(ResourceLayout {
        offset: DescriptorOffset { binding_index: 0, array_index: 0 },
        ty: "Texture2D".to_string(),
        kind: SlangBindingType::Texture,
        element: None,
        count: ElementCount::Bounded(1),
        stride: Stride(0),
    })
}

#[test]
fn denormalizing_inlines_types_and_fields() {
    let out = denormalize_layout_ir(&layout(1)).unwrap();
    let root = &out.global_scope.var_layout;
    assert_eq!(root.name, None);
    assert_eq!(root.type_layout.name, Some("Globals".to_string()));
    assert_eq!(root.type_layout.fields.len(), 1);
    assert_eq!(root.type_layout.fields[0].name, "x");
    assert_eq!(root.type_layout.fields[0].var.type_layout.name, Some("float".to_string()));
    assert!(out.entry_points.is_empty());
}

#[test]
fn denormalizing_reports_a_dangling_reference() {
    assert_eq!(
        denormalize_layout_ir(&layout(7)).err(),
        Some(DenormError::MissingTypeLayout(TypeLayoutId(7)))
    );
}

#[test]
fn plain_data_is_told_apart_from_resources() {
    let fields = vec![
        VarLayout { name: "a".to_string(), size: Size(4), value: float_at(0) },
        VarLayout { name: "b".to_string(), size: Size(4), value: float_at(4) },
    ];
    let data = ValueLayout::Struct(StructLayout { offset: AggregateOffset::Pod(PodOffset { offset_bytes: 0 }), fields });
    assert!(data.is_pod());
    assert!(!texture().is_pod());
    let range = PushConstantLayout::new("push".to_string(), 0, 8, 1, data).unwrap();
    assert_eq!(range.size_bytes(), 8);
    assert_eq!(range.name(), "push");
    assert_eq!(range.stages(), 1);
    assert!(range.element().is_pod());
    assert_eq!(
        PushConstantLayout::new("push".to_string(), 0, 8, 1, texture()).err(),
        Some(LayoutError::ElementNotPod)
    );
    let offset = DescriptorOffset { binding_index: 2, array_index: 0 };
    assert_eq!(ConstantBufferLayout::new(offset, texture()).err(), Some(LayoutError::ElementNotPod));
    assert_eq!(ConstantBufferLayout::new(offset, float_at(0)).unwrap().offset(), offset);
}

#[test]
fn bindless_tables_by_policy() {
    let indexable = BindlessLayout { set: 0, policy: BindlessPolicy::Indexable }.bindings();
    let mutable = BindlessLayout { set: 0, policy: BindlessPolicy::Mutable }.bindings();
    assert_eq!(indexable.iter().map(|d| d.binding).collect::<Vec<_>>(), vec![0, 1, 2, 3, 4, 5, 6, 7]);
    assert_eq!(mutable.iter().map(|d| d.binding).collect::<Vec<_>>(), vec![0, 1, 2, 2, 2, 2, 2, 2]);
    assert_eq!(
        indexable[0],
        BindlessDescriptor { slang: SlangBindingType::Sampler, vk: DESCRIPTOR_TYPE_SAMPLER, access: None, binding: 0 }
    );
    assert_eq!(
        mutable[7],
        BindlessDescriptor {
            slang: SlangBindingType::MutableRawBuffer,
            vk: DESCRIPTOR_TYPE_STORAGE_BUFFER,
            access: Some(SlangResourceAccess::ReadWrite),
            binding: 2,
        }
    );
}

#[test]
fn outline_printer_indents_nested_containers() {
    let mut buffer = String::new();
    let mut root = PrintObject::new(0);
    root.value(&mut buffer, "name", "Globals");
    let mut inner = root.object(&mut buffer, "size");
    inner.value(&mut buffer, "bytes", "16");
    let mut items = root.array(&mut buffer, "fields");
    items.value(&mut buffer, "x");
    let mut item = items.object(&mut buffer);
    item.value(&mut buffer, "name", "y");
    item.value(&mut buffer, "type", "float");
    assert_eq!(
        buffer,
        "name: Globals\nsize:\n  bytes: 16\nfields:\n  - x\n  - name: y\n    type: float\n"
    );
}
