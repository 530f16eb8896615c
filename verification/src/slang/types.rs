//! Reflected shader types: scalars, vectors, matrices, structs, arrays and
//! resource handles, each with its size, alignment and stride.

use vstd::prelude::*;
use crate::slang::ir::SlangUnit;
use crate::vk::{
    DESCRIPTOR_TYPE_SAMPLED_IMAGE, DESCRIPTOR_TYPE_SAMPLER, DESCRIPTOR_TYPE_STORAGE_BUFFER,
    DESCRIPTOR_TYPE_STORAGE_IMAGE, DESCRIPTOR_TYPE_UNIFORM_BUFFER,
};

verus! {

/// Size, alignment and stride of a type.
#[derive(Debug, Clone, Copy, PartialEq, Eq, Default)]
pub struct TypeLayout {
    pub size: SlangUnit,
    pub alignment_bytes: u32,
    pub stride: SlangUnit,
}

/// A reflected type.
#[derive(Debug)]
pub enum SlangType {
    Scalar(SlangScalar),
    Vector(SlangVector),
    Matrix(SlangMatrix),
    Struct(SlangStruct),
    Array(SlangArray),
    /// A resource bound through a descriptor.
    ResourceHandle(Box<SlangResource>),
    /// A resource reached through a bindless index.
    BindlessHandle(Box<SlangResource>),
    /// A GPU buffer device address.
    DeviceAddress,
}

/// The layout of a type that has one: data types do, handles and addresses
/// do not.
pub open spec fn type_layout_of(t: SlangType) -> Option<TypeLayout> {
    match t {
        SlangType::Scalar(s) => Some(s.layout),
        SlangType::Vector(v) => Some(v.layout),
        SlangType::Matrix(m) => Some(m.layout),
        SlangType::Struct(s) => Some(s.layout),
        SlangType::Array(a) => Some(a.layout),
        _ => None,
    }
}

/// The size of a value of the type in bytes: 8 for an address, 4 for a
/// bindless index, the layout's size for data types, none for a bound
/// resource.
pub open spec fn type_size_bytes(t: SlangType) -> Option<u32> {
    match t {
        SlangType::DeviceAddress => Some(8),
        SlangType::BindlessHandle(_) => Some(4),
        _ => match type_layout_of(t) {
            Some(l) => Some(l.size.bytes),
            None => None,
        },
    }
}

impl SlangType {
    /// The layout of the type, if it has one.
    pub fn layout(&self) -> (r: Option<&TypeLayout>)
        ensures
            match r {
                Some(l) => type_layout_of(*self) == Some(*l),
                None => type_layout_of(*self) is None,
            },
    {
        match self {
            SlangType::Scalar(s) => Some(&s.layout),
            SlangType::Vector(v) => Some(&v.layout),
            SlangType::Matrix(m) => Some(&m.layout),
            SlangType::Struct(s) => Some(&s.layout),
            SlangType::Array(a) => Some(&a.layout),
            SlangType::ResourceHandle(_) => None,
            SlangType::BindlessHandle(_) => None,
            SlangType::DeviceAddress => None,
        }
    }

    /// The size of a value of the type in bytes, if it has one.
    pub fn size_bytes(&self) -> (r: Option<u32>)
        ensures
            r == type_size_bytes(*self),
    {
        match self {
            SlangType::DeviceAddress => Some(8),
            SlangType::BindlessHandle(_) => Some(4),
            _ => match self.layout() {
                Some(l) => Some(l.size.bytes),
                None => None,
            },
        }
    }
}

/// The kind of a scalar.
#[derive(Debug, Clone, Copy, PartialEq, Eq, Hash, Structural)]
pub enum ScalarKind {
    Bool,
    Int32,
    UInt32,
    Float32,
}

/// A scalar type.
#[derive(Debug, Clone, Copy, PartialEq, Eq)]
pub struct SlangScalar {
    pub kind: ScalarKind,
    pub layout: TypeLayout,
}

/// A vector type.
#[derive(Debug, Clone, Copy, PartialEq, Eq)]
pub struct SlangVector {
    pub scalar: ScalarKind,
    pub count: u32,
    pub layout: TypeLayout,
}

/// A matrix type.
#[derive(Debug, Clone, Copy, PartialEq, Eq)]
pub struct SlangMatrix {
    pub scalar: ScalarKind,
    pub rows: u32,
    pub cols: u32,
    pub layout: TypeLayout,
}

/// A struct type and its fields.
#[derive(Debug)]
pub struct SlangStruct {
    pub name: String,
    pub layout: TypeLayout,
    pub fields: Vec<SlangField>,
}

/// A field of a struct type, at an offset in each unit.
#[derive(Debug)]
pub struct SlangField {
    pub name: String,
    pub offset: SlangUnit,
    pub layout: TypeLayout,
    pub ty: SlangType,
}

/// A fixed-size array type.
#[derive(Debug)]
pub struct SlangArray {
    pub layout: TypeLayout,
    pub element_count: u32,
    pub element_type: Box<SlangType>,
}

/// A buffer device address.
#[derive(Debug, Clone, Copy, PartialEq, Eq, Hash, Default)]
pub struct SlangAddress;

/// A resource: a sampler, a texture or a buffer.
#[derive(Debug)]
pub enum SlangResource {
    Sampler,
    Texture(SlangTexture),
    Buffer(SlangBuffer),
}

/// A texture resource.
#[derive(Debug, Clone, Copy, PartialEq, Eq, Structural)]
pub struct SlangTexture {
    pub dim: TextureDim,
    pub array: bool,
    pub multisampled: bool,
    pub access: TextureAccess,
    pub sampled: SampledType,
}

/// The dimensionality of a texture.
#[derive(Debug, Clone, Copy, PartialEq, Eq, Hash, Structural)]
pub enum TextureDim {
    One,
    Two,
    Three,
    Cube,
}

/// Whether a texture is written.
#[derive(Debug, Clone, Copy, PartialEq, Eq, Hash, Structural)]
pub enum TextureAccess {
    ReadOnly,
    ReadWrite,
}

/// What sampling a texture gives.
#[derive(Debug, Clone, Copy, PartialEq, Eq, Hash, Structural)]
pub enum SampledType {
    Scalar(ScalarKind),
    Vector { scalar: ScalarKind, count: u32 },
}

/// A buffer resource.
#[derive(Debug)]
pub struct SlangBuffer {
    pub kind: BufferKind,
    pub access: BufferAccess,
    pub element: BufferElement,
    pub block_alignment_bytes: u32,
    pub trailing_array: Option<TrailingArray>,
}

/// Uniform or storage buffer.
#[derive(Debug, Clone, Copy, PartialEq, Eq, Hash, Structural)]
pub enum BufferKind {
    Uniform,
    Storage,
}

/// Whether a buffer is written.
#[derive(Debug, Clone, Copy, PartialEq, Eq, Hash, Structural)]
pub enum BufferAccess {
    ReadOnly,
    ReadWrite,
}

/// What a buffer holds.
#[derive(Debug)]
pub enum BufferElement {
    RawBytes,
    Typed(SlangType),
}

/// An unsized array at the end of a buffer.
#[derive(Debug)]
pub struct TrailingArray {
    pub element_layout: TypeLayout,
    pub element_type: Box<SlangType>,
}

/// The Vulkan descriptor type of a texture: sampled when read-only, storage
/// when written.
pub open spec fn texture_descriptor_type(tex: SlangTexture) -> i32 {
    match tex.access {
        TextureAccess::ReadOnly => DESCRIPTOR_TYPE_SAMPLED_IMAGE,
        TextureAccess::ReadWrite => DESCRIPTOR_TYPE_STORAGE_IMAGE,
    }
}

/// The Vulkan descriptor type of a buffer: uniform or storage by its kind.
pub open spec fn buffer_descriptor_type(kind: BufferKind) -> i32 {
    match kind {
        BufferKind::Uniform => DESCRIPTOR_TYPE_UNIFORM_BUFFER,
        BufferKind::Storage => DESCRIPTOR_TYPE_STORAGE_BUFFER,
    }
}

/// The Vulkan descriptor type of a resource.
pub open spec fn resource_descriptor_type(resource: SlangResource) -> i32 {
    match resource {
        SlangResource::Sampler => DESCRIPTOR_TYPE_SAMPLER,
        SlangResource::Texture(tex) => texture_descriptor_type(tex),
        SlangResource::Buffer(buf) => buffer_descriptor_type(buf.kind),
    }
}

impl SlangTexture {
    /// The Vulkan descriptor type of the texture.
    pub fn descriptor_type(&self) -> (r: i32)
        ensures
            r == texture_descriptor_type(*self),
    {
        match self.access {
            TextureAccess::ReadOnly => DESCRIPTOR_TYPE_SAMPLED_IMAGE,
            TextureAccess::ReadWrite => DESCRIPTOR_TYPE_STORAGE_IMAGE,
        }
    }
}

impl SlangBuffer {
    /// The Vulkan descriptor type of the buffer.
    pub fn descriptor_type(&self) -> (r: i32)
        ensures
            r == buffer_descriptor_type(self.kind),
    {
        match (self.kind, self.access) {
            (BufferKind::Uniform, _) => DESCRIPTOR_TYPE_UNIFORM_BUFFER,
            (BufferKind::Storage, BufferAccess::ReadOnly) => DESCRIPTOR_TYPE_STORAGE_BUFFER,
            (BufferKind::Storage, BufferAccess::ReadWrite) => DESCRIPTOR_TYPE_STORAGE_BUFFER,
        }
    }
}

impl SlangResource {
    /// The Vulkan descriptor type of the resource.
    pub fn descriptor_type(&self) -> (r: i32)
        ensures
            r == resource_descriptor_type(*self),
    {
        match self {
            SlangResource::Sampler => DESCRIPTOR_TYPE_SAMPLER,
            SlangResource::Texture(tex) => tex.descriptor_type(),
            SlangResource::Buffer(buf) => buf.descriptor_type(),
        }
    }
}

} // verus!
