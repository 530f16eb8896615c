//! A layout tree that separates plain-old-data from descriptors: byte offsets
//! for the former, binding and array indices for the latter.

use vstd::prelude::*;
use crate::slang::compiler::SlangShaderStage;
use crate::slang::enums::{SlangBindingType, SlangResourceAccess, SlangResourceShape};

verus! {

/// A whole program's layout.
#[derive(Debug)]
pub struct ShaderLayout {
    pub push_constants: Vec<PushConstantLayout>,
    pub descriptor_sets: Vec<DescriptorSet>,
    pub globals: Vec<VarLayout>,
    pub entrypoints: Vec<EntrypointLayout>,
}

/// A push constant range. Its element is plain-old-data.
#[derive(Debug)]
pub struct PushConstantLayout {
    name: String,
    offset_bytes: usize,
    size_bytes: usize,
    stages: u32,
    element: ValueLayout,
}

/// Why a layout cannot be built.
#[derive(Clone, Copy, Debug, PartialEq, Eq, Structural)]
pub enum LayoutError {
    /// A push constant range or a constant buffer was given an element that
    /// holds something other than plain-old-data.
    ElementNotPod,
}

impl PushConstantLayout {
    /// The element is plain-old-data.
    #[verifier::type_invariant]
    spec fn element_is_pod(self) -> bool {
        value_is_pod(self.element)
    }

    /// A push constant range; fails unless `element` is plain-old-data.
    pub fn new(
        name: String,
        offset_bytes: usize,
        size_bytes: usize,
        stages: u32,
        element: ValueLayout,
    ) -> (r: Result<Self, LayoutError>)
        ensures
            value_is_pod(element) <==> r is Ok,
            !value_is_pod(element) ==> r == Err::<Self, LayoutError>(LayoutError::ElementNotPod),
            r matches Ok(layout) ==> layout.name_spec() == name && layout.offset_bytes_spec()
                == offset_bytes && layout.size_bytes_spec() == size_bytes && layout.stages_spec()
                == stages && layout.element_spec() == element,
    {
        if !element.is_pod() {
            return Err(LayoutError::ElementNotPod);
        }
        Ok(PushConstantLayout { name, offset_bytes, size_bytes, stages, element })
    }

    /// The name of the range.
    pub closed spec fn name_spec(self) -> String {
        self.name
    }

    /// The byte offset of the range.
    pub closed spec fn offset_bytes_spec(self) -> usize {
        self.offset_bytes
    }

    /// The size of the range in bytes.
    pub closed spec fn size_bytes_spec(self) -> usize {
        self.size_bytes
    }

    /// The Vulkan shader stage flag bits that see the range.
    pub closed spec fn stages_spec(self) -> u32 {
        self.stages
    }

    /// The element of the range.
    pub closed spec fn element_spec(self) -> ValueLayout {
        self.element
    }

    /// The name of the range.
    pub fn name(&self) -> (r: &String)
        ensures
            *r == self.name_spec(),
    {
        &self.name
    }

    /// The byte offset of the range.
    pub fn offset_bytes(&self) -> (r: usize)
        ensures
            r == self.offset_bytes_spec(),
    {
        self.offset_bytes
    }

    /// The size of the range in bytes.
    pub fn size_bytes(&self) -> (r: usize)
        ensures
            r == self.size_bytes_spec(),
    {
        self.size_bytes
    }

    /// The Vulkan shader stage flag bits that see the range.
    pub fn stages(&self) -> (r: u32)
        ensures
            r == self.stages_spec(),
    {
        self.stages
    }

    /// The element of the range, which is plain-old-data.
    pub fn element(&self) -> (r: &ValueLayout)
        ensures
            *r == self.element_spec(),
            value_is_pod(*r),
    {
        proof {
            use_type_invariant(self);
        }
        &self.element
    }
}

/// The parameters of one entry point.
#[derive(Debug)]
pub struct EntrypointLayout {
    pub stage: SlangShaderStage,
    pub params: Vec<VarLayout>,
}

/// A named variable and its value's layout.
#[derive(Debug)]
pub struct VarLayout {
    pub name: String,
    pub size: Size,
    pub value: ValueLayout,
}

/// The layout of a value.
#[derive(Debug)]
pub enum ValueLayout {
    Numeric(NumericLayout),
    Struct(StructLayout),
    Array(ArrayLayout),
    Resource(ResourceLayout),
    ParameterBlock(ParameterBlockLayout),
    ConstantBuffer(ConstantBufferLayout),
}

/// A value is plain-old-data: numbers, structs and arrays of them, and
/// constant buffers (which hold only such data and are bound as one
/// descriptor); resources and parameter blocks are not.
pub open spec fn value_is_pod(v: ValueLayout) -> bool
    decreases v,
{
    match v {
        ValueLayout::Numeric(_) => true,
        ValueLayout::Struct(s) => forall|i: int|
            0 <= i < s.fields@.len() ==> value_is_pod(#[trigger] s.fields@[i].value),
        ValueLayout::Array(a) => value_is_pod(*a.element),
        ValueLayout::Resource(_) => false,
        ValueLayout::ParameterBlock(_) => false,
        ValueLayout::ConstantBuffer(_) => true,
    }
}

impl VarLayout {
    /// Whether the variable's value is plain-old-data.
    pub fn is_pod(&self) -> (r: bool)
        ensures
            r == value_is_pod(self.value),
        decreases self.value,
    {
        self.value.is_pod()
    }
}

impl ValueLayout {
    /// Whether the value is plain-old-data.
    pub fn is_pod(&self) -> (r: bool)
        ensures
            r == value_is_pod(*self),
        decreases *self,
    {
        match self {
            ValueLayout::Numeric(_) => true,
            ValueLayout::Struct(s) => {
                let mut i: usize = 0;
                while i < s.fields.len()
                    invariant
                        i <= s.fields@.len(),
                        *self == ValueLayout::Struct(*s),
                        forall|k: int| 0 <= k < i ==> value_is_pod(#[trigger] s.fields@[k].value),
                    decreases s.fields.len() - i,
                {
                    proof {
                        assert(decreases_to!(*self => (*self)->Struct_0));
                        assert(decreases_to!(*s => s.fields));
                        assert(decreases_to!(s.fields => s.fields@));
                        assert(decreases_to!(s.fields@ => s.fields@[i as int]));
                        assert(decreases_to!(s.fields@[i as int] => s.fields@[i as int].value));
                    }
                    if !s.fields[i].value.is_pod() {
                        return false;
                    }
                    i = i + 1;
                }
                true
            },
            ValueLayout::Array(a) => a.element.is_pod(),
            ValueLayout::Resource(_) => false,
            ValueLayout::ParameterBlock(_) => false,
            ValueLayout::ConstantBuffer(_) => true,
        }
    }
}

/// A number, vector or matrix at a byte offset.
#[derive(Debug)]
pub struct NumericLayout {
    pub offset: PodOffset,
    pub ty: NumericType,
}

/// The shape of numeric data.
#[derive(Debug)]
pub enum NumericType {
    Scalar(ScalarType),
    Vector(VectorType),
    Matrix(MatrixType),
}

/// A scalar type, by name.
#[derive(Debug)]
pub struct ScalarType {
    pub ty: String,
}

/// A vector of `count` scalars.
#[derive(Debug)]
pub struct VectorType {
    pub element: ScalarType,
    pub count: u32,
}

/// A matrix of scalars.
#[derive(Debug)]
pub struct MatrixType {
    pub element: ScalarType,
    pub rows: u32,
    pub cols: u32,
}

/// A struct and its fields.
#[derive(Debug)]
pub struct StructLayout {
    pub offset: AggregateOffset,
    pub fields: Vec<VarLayout>,
}

/// An array of elements laid out `stride` bytes apart.
#[derive(Debug)]
pub struct ArrayLayout {
    pub offset: AggregateOffset,
    pub element: Box<ValueLayout>,
    pub count: ElementCount,
    pub stride: Stride,
}

/// A resource bound through a descriptor.
#[derive(Debug)]
pub struct ResourceLayout {
    pub offset: DescriptorOffset,
    pub ty: String,
    pub kind: SlangBindingType,
    pub element: Option<Box<ValueLayout>>,
    pub count: ElementCount,
    pub stride: Stride,
}

/// A parameter block: a descriptor set of its own. Binding 0 is the block's
/// uniform buffer when the block holds ordinary data; otherwise the first
/// resource takes binding 0.
#[derive(Debug)]
pub struct ParameterBlockLayout {
    pub descriptor_set_index: usize,
    pub element: Box<ValueLayout>,
}

/// A constant buffer: one descriptor whose element restarts byte offsets at
/// zero. Its element is plain-old-data.
#[derive(Debug)]
pub struct ConstantBufferLayout {
    offset: DescriptorOffset,
    element: Box<ValueLayout>,
}

impl ConstantBufferLayout {
    /// The element is plain-old-data.
    #[verifier::type_invariant]
    spec fn element_is_pod(self) -> bool {
        value_is_pod(*self.element)
    }

    /// The element of the buffer.
    pub closed spec fn element_spec(self) -> ValueLayout {
        *self.element
    }

    /// Where the buffer's descriptor is.
    pub closed spec fn offset_spec(self) -> DescriptorOffset {
        self.offset
    }

    /// Where the buffer's descriptor is.
    pub fn offset(&self) -> (r: DescriptorOffset)
        ensures
            r == self.offset_spec(),
    {
        self.offset
    }

    /// A constant buffer; fails unless `element` is plain-old-data.
    pub fn new(offset: DescriptorOffset, element: ValueLayout) -> (r: Result<Self, LayoutError>)
        ensures
            value_is_pod(element) <==> r is Ok,
            !value_is_pod(element) ==> r == Err::<Self, LayoutError>(LayoutError::ElementNotPod),
            r matches Ok(layout) ==> layout.offset_spec() == offset && layout.element_spec() == element,
    {
        if !element.is_pod() {
            return Err(LayoutError::ElementNotPod);
        }
        Ok(ConstantBufferLayout { offset, element: Box::new(element) })
    }

    /// The element of the buffer, which is plain-old-data.
    pub fn element(&self) -> (r: &ValueLayout)
        ensures
            *r == self.element_spec(),
            value_is_pod(*r),
    {
        proof {
            use_type_invariant(self);
        }
        &self.element
    }
}

/// Bytes taken, excluding padding.
#[derive(Clone, Copy, Debug, PartialEq, Eq, Structural)]
pub struct Size(pub usize);

/// Bytes from one element to the next, including padding.
#[derive(Clone, Copy, Debug, PartialEq, Eq, Structural)]
pub struct Stride(pub usize);

/// The number of elements of an array: fixed, or known only at run time.
#[derive(Clone, Copy, Debug, PartialEq, Eq, Structural)]
pub enum ElementCount {
    Bounded(u32),
    Runtime,
}

/// Where an aggregate starts: at a byte offset, or at a descriptor.
#[derive(Clone, Copy, Debug, PartialEq, Eq, Structural)]
pub enum AggregateOffset {
    Pod(PodOffset),
    Descriptor(DescriptorOffset),
}

/// A byte offset.
#[derive(Clone, Copy, Debug, PartialEq, Eq, Structural)]
pub struct PodOffset {
    pub offset_bytes: usize,
}

/// A binding of the current descriptor set and an index into its array.
/// These are relative units, not Vulkan binding numbers.
#[derive(Clone, Copy, Debug, PartialEq, Eq, Structural)]
pub struct DescriptorOffset {
    pub binding_index: u32,
    pub array_index: u32,
}

/// A descriptor set; `set` stays `None` until a non-empty descriptor is added.
#[derive(Debug)]
pub struct DescriptorSet {
    pub set: Option<u32>,
    pub bindings: Vec<DescriptorBinding>,
}

/// A binding of a descriptor set; `binding` stays `None` until the
/// descriptor is known not to be empty.
#[derive(Debug)]
pub struct DescriptorBinding {
    pub binding: Option<u32>,
    /// Vulkan shader stage flag bits of every stage that uses the binding.
    pub stages: u32,
    pub count: ElementCount,
    pub descriptor: Descriptor,
}

/// What a binding holds.
#[derive(Debug)]
pub struct Descriptor {
    /// The Vulkan descriptor type.
    pub ty: i32,
    pub shape: SlangResourceShape,
    pub access: SlangResourceAccess,
    pub element: Option<Box<ValueLayout>>,
}

} // verus!
