//! A compact layout tree: typed values with sizes in each unit, and parameter
//! blocks with their descriptor sets.

use vstd::prelude::*;
use crate::slang::compiler::SlangShaderStage;
use crate::slang::enums::{SlangBindingType, SlangResourceAccess, SlangResourceShape};

verus! {

/// The size of a layout in each unit, where it has one.
#[derive(Debug, Default, Clone, Copy, PartialEq, Eq)]
pub struct LayoutUnit {
    pub push_constants: Option<usize>,
    pub bytes: Option<usize>,
    pub bindings: Option<usize>,
}

/// The number of elements of an array: fixed, or known only at run time.
#[derive(Debug, Clone, Copy, PartialEq, Eq, Structural)]
pub enum ElementCount {
    Bounded(usize),
    Runtime,
}

/// A whole program's layout.
#[derive(Debug)]
pub struct ShaderLayout {
    pub globals: Option<Box<TypeLayout>>,
    pub entrypoints: Vec<EntrypointLayout>,
}

/// The parameters of one entry point.
#[derive(Debug)]
pub struct EntrypointLayout {
    pub name: String,
    pub stage: SlangShaderStage,
    pub params: Option<Box<TypeLayout>>,
}

/// A variable: where it sits and the layout of its value.
#[derive(Debug)]
pub struct VarLayout {
    pub name: Option<String>,
    pub offset_bytes: usize,
    pub offset_set: usize,
    pub offset_binding_range: i64,
    pub value: TypeLayout,
}

/// A typed value's size, alignment and stride.
#[derive(Debug)]
pub struct TypeLayout {
    pub size: Option<LayoutUnit>,
    pub alignment: i32,
    pub stride: usize,
    pub ty: Type,
}

/// The type of a value.
#[derive(Debug)]
pub enum Type {
    Unknown(String, String),
    Globals(Option<Box<TypeLayout>>),
    Entrypoint(Option<Box<TypeLayout>>),
    Numeric(NumericType),
    Struct(StructType),
    Array(ArrayType),
    Resource(ResourceType),
    SamplerState(SamplerStateType),
    SamplerComparisonState(SamplerComparisonStateType),
    ParameterBlock(ParameterBlockType),
    ConstantBuffer(Box<TypeLayout>),
}

/// A scalar, vector or matrix.
#[derive(Clone, Debug)]
pub enum NumericType {
    Scalar(ScalarType),
    Vector(VectorType),
    Matrix(MatrixType),
}

/// A scalar type, by name.
#[derive(Clone, Debug)]
pub struct ScalarType {
    pub ty: String,
}

/// A vector of `count` scalars.
#[derive(Clone, Debug)]
pub struct VectorType {
    pub ty: String,
    pub count: usize,
}

/// A matrix of scalars.
#[derive(Clone, Debug)]
pub struct MatrixType {
    pub ty: String,
    pub rows: u32,
    pub cols: u32,
}

/// A struct and its fields.
#[derive(Debug)]
pub struct StructType {
    pub name: String,
    pub fields: Vec<VarLayout>,
}

/// An array and its element.
#[derive(Debug)]
pub struct ArrayType {
    pub count: ElementCount,
    pub element: Box<TypeLayout>,
}

/// A resource.
#[derive(Debug)]
pub struct ResourceType {
    pub ty: String,
    pub binding: Option<ResourceBinding>,
    pub shape: SlangResourceShape,
    pub access: Option<ResourceAccess>,
    pub element: Option<Box<TypeLayout>>,
}

/// The Slang binding type of a resource.
#[derive(Debug, Clone, Copy, PartialEq, Eq, Structural)]
pub struct ResourceBinding(pub SlangBindingType);

/// The Slang shape of a resource.
#[derive(Debug, Clone, Copy, PartialEq, Eq, Structural)]
pub struct ResourceShape(pub SlangResourceShape);

/// The Slang access of a resource.
#[derive(Debug, Clone, Copy, PartialEq, Eq, Structural)]
pub struct ResourceAccess(pub SlangResourceAccess);

/// A sampler state.
#[derive(Debug, Clone, Copy, PartialEq, Eq)]
pub struct SamplerStateType {
    pub is_comparison_state: bool,
}

/// A comparison sampler state.
#[derive(Debug, Clone, Copy, PartialEq, Eq)]
pub struct SamplerComparisonStateType {}

/// A parameter block: its descriptor set and its element.
#[derive(Debug)]
pub struct ParameterBlockType {
    pub descriptor_set: DescriptorSet,
    pub element: Box<TypeLayout>,
}

/// A descriptor set and its bindings.
#[derive(Debug)]
pub struct DescriptorSet {
    pub set: i64,
    pub bindings: Vec<DescriptorBinding>,
}

/// A descriptor binding of a set.
#[derive(Debug, Clone, Copy)]
pub struct DescriptorBinding {
    pub binding_range: Option<i64>,
    pub binding: i64,
    /// Vulkan shader stage flag bits.
    pub stages: u32,
    pub binding_type: SlangBindingType,
    /// The Vulkan descriptor type.
    pub descriptor_type: i32,
    pub shape: Option<ResourceShape>,
    pub access: Option<ResourceAccess>,
    pub count: ElementCount,
}

} // verus!
