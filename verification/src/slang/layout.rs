//! The shader layout tree that cursors walk: variables at offsets, typed
//! values, and parameter blocks with their descriptor bindings.

use vstd::prelude::*;
use crate::slang::bindless::BindlessLayout;
use crate::slang::compiler::SlangShaderStage;
use crate::slang::enums::{SlangBindingType, SlangResourceAccess, SlangResourceShape};

verus! {

/// The size of a layout in each unit, where it has one.
#[derive(Clone, Copy, Debug, Default, PartialEq, Eq)]
pub struct LayoutSize {
    pub push_constants: Option<usize>,
    pub bytes: Option<usize>,
    pub bindings: Option<usize>,
    pub varying_input: Option<usize>,
}

/// The number of elements of an array: fixed, or known only at run time.
#[derive(Clone, Copy, Debug, PartialEq, Eq, Hash, Structural)]
pub enum ElementCount {
    Bounded(usize),
    Runtime,
}

/// A whole program's layout.
#[derive(Debug)]
pub struct ShaderLayout {
    pub bindless: Option<BindlessLayout>,
    pub globals: Option<Box<VarLayout>>,
    pub entrypoints: Vec<EntrypointLayout>,
}

/// The parameters of one entry point.
#[derive(Debug)]
pub struct EntrypointLayout {
    pub name: String,
    pub stage: SlangShaderStage,
    pub params: Option<Box<VarLayout>>,
}

/// A variable: where it sits and the layout of its value.
#[derive(Debug)]
pub struct VarLayout {
    pub name: Option<String>,
    pub offset_bytes: usize,
    pub offset_set: usize,
    pub offset_binding_range: i64,
    pub varying: Option<VaryingLayout>,
    pub value: TypeLayout,
}

/// Where a varying input or output sits.
#[derive(Clone, Debug)]
pub struct VaryingLayout {
    pub offset_input: usize,
    pub index: usize,
    pub name: Option<String>,
}

/// A typed value's size, alignment and stride.
#[derive(Debug)]
pub struct TypeLayout {
    pub size: Option<LayoutSize>,
    pub alignment: i32,
    pub stride: Stride,
    pub ty: Type,
}

/// The distance between array elements in bytes and in binding ranges.
#[derive(Clone, Copy, Debug, PartialEq, Eq)]
pub struct Stride {
    pub bytes: usize,
    pub binding_range: i64,
}

/// The type of a value.
#[derive(Debug)]
pub enum Type {
    Unknown(String, String),
    Pointer(PointerType),
    Numeric(NumericType),
    Struct(StructType),
    Array(ArrayType),
    Resource(ResourceType),
    SamplerState(SamplerStateType),
    SamplerComparisonState(SamplerComparisonStateType),
    ParameterBlock(ParameterBlockType),
    PushConstantBuffer(PushConstantBufferType),
    ConstantBuffer(Box<TypeLayout>),
}

/// A pointer to an element.
#[derive(Debug)]
pub struct PointerType {
    pub element: Box<TypeLayout>,
}

/// A scalar, vector or matrix.
#[derive(Clone, Debug)]
pub enum NumericType {
    Scalar(ScalarType),
    Vector(VectorType),
    Matrix(MatrixType),
}

/// A scalar type, by name.
#[derive(Clone, Debug)]
pub struct ScalarType {
    pub ty: String,
}

/// A vector of `count` scalars.
#[derive(Clone, Debug)]
pub struct VectorType {
    pub ty: String,
    pub count: usize,
}

/// A matrix of scalars.
#[derive(Clone, Debug)]
pub struct MatrixType {
    pub ty: String,
    pub rows: u32,
    pub cols: u32,
}

/// A struct and its fields.
#[derive(Debug)]
pub struct StructType {
    pub name: String,
    pub fields: Vec<VarLayout>,
}

/// An array and its element.
#[derive(Debug)]
pub struct ArrayType {
    pub count: ElementCount,
    pub element: Box<TypeLayout>,
}

/// A resource.
#[derive(Debug)]
pub struct ResourceType {
    pub ty: String,
    pub binding: Option<SlangBindingType>,
    pub shape: SlangResourceShape,
    pub access: Option<SlangResourceAccess>,
    pub element: Option<Box<TypeLayout>>,
}

/// A sampler state.
#[derive(Clone, Copy, Debug, PartialEq, Eq)]
pub struct SamplerStateType {
    pub is_comparison_state: bool,
}

/// A comparison sampler state.
#[derive(Clone, Copy, Debug, PartialEq, Eq)]
pub struct SamplerComparisonStateType {}

/// A parameter block: its descriptor set and its element.
#[derive(Debug)]
pub struct ParameterBlockType {
    pub layout: ParameterBlockLayout,
    pub element: Box<TypeLayout>,
}

/// A push constant buffer: its range and its element.
#[derive(Debug)]
pub struct PushConstantBufferType {
    pub layout: PushConstantRangeLayout,
    pub element: Box<TypeLayout>,
}

/// A push constant range.
#[derive(Clone, Copy, Debug, PartialEq, Eq, Hash)]
pub struct PushConstantRangeLayout {
    /// Vulkan shader stage flag bits.
    pub stages: u32,
    pub offset: u32,
    pub size: u32,
}

/// The descriptor set of a parameter block: its set number, the uniform
/// buffer that holds its ordinary data (if any), and its binding ranges.
#[derive(Clone, Debug)]
pub struct ParameterBlockLayout {
    pub set: Option<i64>,
    pub implicit_ubo: Option<DescriptorBindingLayout>,
    pub binding_ranges: Vec<BindingRangeLayout>,
}

/// A binding range of a parameter block and its descriptor binding.
#[derive(Clone, Copy, Debug, PartialEq, Eq, Hash)]
pub struct BindingRangeLayout {
    pub range_index: i64,
    pub descriptor: DescriptorBindingLayout,
}

/// A descriptor binding of a set.
#[derive(Clone, Copy, Debug, PartialEq, Eq, Hash)]
pub struct DescriptorBindingLayout {
    pub binding: i64,
    /// Vulkan shader stage flag bits.
    pub stages: u32,
    pub binding_type: SlangBindingType,
    /// The Vulkan descriptor type.
    pub descriptor_type: i32,
    pub shape: Option<SlangResourceShape>,
    pub access: Option<SlangResourceAccess>,
    pub count: ElementCount,
}

/// The first binding range of `ranges` numbered `range_index`, if any.
pub open spec fn first_binding_range(ranges: Seq<BindingRangeLayout>, range_index: i64) -> Option<
    BindingRangeLayout,
>
    decreases ranges.len(),
{
    if ranges.len() == 0 {
        None
    } else if ranges[0].range_index == range_index {
        Some(ranges[0])
    } else {
        first_binding_range(ranges.drop_first(), range_index)
    }
}

/// Two parameter block layouts agree.
pub open spec fn same_block_layout(a: ParameterBlockLayout, b: ParameterBlockLayout) -> bool {
    &&& a.set == b.set
    &&& a.implicit_ubo == b.implicit_ubo
    &&& a.binding_ranges@ == b.binding_ranges@
}

impl ParameterBlockLayout {
    /// A copy of this layout.
    pub fn duplicate(&self) -> (r: ParameterBlockLayout)
        ensures
            same_block_layout(r, *self),
    {
        let mut ranges: Vec<BindingRangeLayout> = Vec::with_capacity(self.binding_ranges.len());
        let mut i: usize = 0;
        while i < self.binding_ranges.len()
            invariant
                i <= self.binding_ranges@.len(),
                ranges@ == self.binding_ranges@.subrange(0, i as int),
            decreases self.binding_ranges.len() - i,
        {
            ranges.push(self.binding_ranges[i]);
            i = i + 1;
            proof {
                assert(ranges@ =~= self.binding_ranges@.subrange(0, i as int));
            }
        }
        proof {
            assert(ranges@ =~= self.binding_ranges@);
        }
        ParameterBlockLayout { set: self.set, implicit_ubo: self.implicit_ubo, binding_ranges: ranges }
    }

    /// The first binding range numbered `range_index`, if any.
    pub fn find_binding_range(&self, range_index: i64) -> (r: Option<&BindingRangeLayout>)
        ensures
            match r {
                Some(range) => first_binding_range(self.binding_ranges@, range_index) == Some(*range),
                None => first_binding_range(self.binding_ranges@, range_index) is None,
            },
            match r {
                Some(range) => exists|i: int|
                    0 <= i < self.binding_ranges@.len() && *range == self.binding_ranges@[i]
                        && range.range_index == range_index && forall|j: int|
                        0 <= j < i ==> (#[trigger] self.binding_ranges@[j]).range_index
                            != range_index,
                None => forall|i: int|
                    0 <= i < self.binding_ranges@.len() ==> (#[trigger] self.binding_ranges@[i]).range_index
                        != range_index,
            },
    {
        let mut i: usize = 0;
        proof {
            assert(self.binding_ranges@.skip(0) =~= self.binding_ranges@);
        }
        while i < self.binding_ranges.len()
            invariant
                i <= self.binding_ranges@.len(),
                forall|j: int|
                    0 <= j < i ==> (#[trigger] self.binding_ranges@[j]).range_index != range_index,
                first_binding_range(self.binding_ranges@, range_index) == first_binding_range(
                    self.binding_ranges@.skip(i as int),
                    range_index,
                ),
            decreases self.binding_ranges.len() - i,
        {
            proof {
                assert(self.binding_ranges@.skip(i as int).drop_first() =~= self.binding_ranges@.skip(
                    i as int + 1,
                ));
            }
            if self.binding_ranges[i].range_index == range_index {
                return Some(&self.binding_ranges[i]);
            }
            i = i + 1;
        }
        proof {
            assert(self.binding_ranges@.skip(i as int) =~= Seq::<BindingRangeLayout>::empty());
        }
        None
    }
}

} // verus!
