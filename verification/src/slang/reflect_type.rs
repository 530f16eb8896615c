//! The parts of turning reflected types into `SlangType` values that decide
//! something: which scalar kinds stand for which reflected scalars, what a
//! texture shape says of a texture, and how resource access is read.

use vstd::prelude::*;
use crate::slang::enums::{SlangResourceAccess, SlangResourceShape};
use crate::slang::types::{BufferAccess, SampledType, ScalarKind, TextureAccess, TextureDim};

verus! {

/// A scalar type as reflection reports it.
#[derive(Debug, Clone, Copy, PartialEq, Eq, Structural)]
pub enum SlangScalarType {
    /// Not a scalar.
    NoType,
    Void,
    Bool,
    Int32,
    Uint32,
    Int64,
    Uint64,
    Float16,
    Float32,
    Float64,
    Int8,
    Uint8,
    Int16,
    Uint16,
    Intptr,
    Uintptr,
}

/// Why a reflected type cannot be turned into a `SlangType`.
#[derive(Debug, Clone, Copy, PartialEq, Eq, Structural)]
pub enum ReflectTypeError {
    UnsupportedScalarType(SlangScalarType),
    UnsupportedTextureShape(SlangResourceShape),
}

/// The scalar kind a reflected scalar stands as: every width of signed
/// integers as a 32-bit integer, of unsigned ones as a 32-bit unsigned
/// integer, of floats as a 32-bit float; the others have none.
pub open spec fn scalar_kind_of(scalar: SlangScalarType) -> Option<ScalarKind> {
    match scalar {
        SlangScalarType::Bool => Some(ScalarKind::Bool),
        SlangScalarType::Int32 | SlangScalarType::Int64 | SlangScalarType::Int16
        | SlangScalarType::Int8 => Some(ScalarKind::Int32),
        SlangScalarType::Uint32 | SlangScalarType::Uint64 | SlangScalarType::Uint16
        | SlangScalarType::Uint8 => Some(ScalarKind::UInt32),
        SlangScalarType::Float32 | SlangScalarType::Float64 | SlangScalarType::Float16 => Some(
            ScalarKind::Float32,
        ),
        _ => None,
    }
}

/// The scalar kind a reflected scalar stands as.
pub fn convert_scalar_kind(scalar: SlangScalarType) -> (r: Result<ScalarKind, ReflectTypeError>)
    ensures
        r == match scalar_kind_of(scalar) {
            Some(kind) => Ok(kind),
            None => Err(ReflectTypeError::UnsupportedScalarType(scalar)),
        },
{
    match scalar {
        SlangScalarType::Bool => Ok(ScalarKind::Bool),
        SlangScalarType::Int32 | SlangScalarType::Int64 | SlangScalarType::Int16
        | SlangScalarType::Int8 => Ok(ScalarKind::Int32),
        SlangScalarType::Uint32 | SlangScalarType::Uint64 | SlangScalarType::Uint16
        | SlangScalarType::Uint8 => Ok(ScalarKind::UInt32),
        SlangScalarType::Float32 | SlangScalarType::Float64 | SlangScalarType::Float16 => Ok(
            ScalarKind::Float32,
        ),
        _ => Err(ReflectTypeError::UnsupportedScalarType(scalar)),
    }
}

/// What a texture shape says: the texture's dimension, whether it is an
/// array, and whether it is multisampled; other shapes are not textures.
pub open spec fn texture_shape_of(shape: SlangResourceShape) -> Option<(TextureDim, bool, bool)> {
    match shape {
        SlangResourceShape::Texture1d => Some((TextureDim::One, false, false)),
        SlangResourceShape::Texture2d => Some((TextureDim::Two, false, false)),
        SlangResourceShape::Texture3d => Some((TextureDim::Three, false, false)),
        SlangResourceShape::TextureCube => Some((TextureDim::Cube, false, false)),
        SlangResourceShape::Texture1dArray => Some((TextureDim::One, true, false)),
        SlangResourceShape::Texture2dArray => Some((TextureDim::Two, true, false)),
        SlangResourceShape::TextureCubeArray => Some((TextureDim::Cube, true, false)),
        SlangResourceShape::Texture2dMultisample => Some((TextureDim::Two, false, true)),
        SlangResourceShape::Texture2dMultisampleArray => Some((TextureDim::Two, true, true)),
        _ => None,
    }
}

/// The dimension, arrayness and multisampling of a texture shape.
pub fn texture_shape(shape: SlangResourceShape) -> (r: Result<(TextureDim, bool, bool), ReflectTypeError>)
    ensures
        r == match texture_shape_of(shape) {
            Some(t) => Ok(t),
            None => Err(ReflectTypeError::UnsupportedTextureShape(shape)),
        },
{
    match shape {
        SlangResourceShape::Texture1d => Ok((TextureDim::One, false, false)),
        SlangResourceShape::Texture2d => Ok((TextureDim::Two, false, false)),
        SlangResourceShape::Texture3d => Ok((TextureDim::Three, false, false)),
        SlangResourceShape::TextureCube => Ok((TextureDim::Cube, false, false)),
        SlangResourceShape::Texture1dArray => Ok((TextureDim::One, true, false)),
        SlangResourceShape::Texture2dArray => Ok((TextureDim::Two, true, false)),
        SlangResourceShape::TextureCubeArray => Ok((TextureDim::Cube, true, false)),
        SlangResourceShape::Texture2dMultisample => Ok((TextureDim::Two, false, true)),
        SlangResourceShape::Texture2dMultisampleArray => Ok((TextureDim::Two, true, true)),
        _ => Err(ReflectTypeError::UnsupportedTextureShape(shape)),
    }
}

/// Whether a shape is one of the buffers a resource can be reflected as.
pub fn is_buffer_shape(shape: SlangResourceShape) -> (r: bool)
    ensures
        r == (shape == SlangResourceShape::StructuredBuffer || shape
            == SlangResourceShape::ByteAddressBuffer),
{
    match shape {
        SlangResourceShape::StructuredBuffer | SlangResourceShape::ByteAddressBuffer => true,
        _ => false,
    }
}

/// A texture is written only under read-write access.
pub fn texture_access(access: SlangResourceAccess) -> (r: TextureAccess)
    ensures
        r == if access == SlangResourceAccess::ReadWrite {
            TextureAccess::ReadWrite
        } else {
            TextureAccess::ReadOnly
        },
{
    match access {
        SlangResourceAccess::ReadWrite => TextureAccess::ReadWrite,
        _ => TextureAccess::ReadOnly,
    }
}

/// A buffer is written only under read-write access.
pub fn buffer_access(access: SlangResourceAccess) -> (r: BufferAccess)
    ensures
        r == if access == SlangResourceAccess::ReadWrite {
            BufferAccess::ReadWrite
        } else {
            BufferAccess::ReadOnly
        },
{
    match access {
        SlangResourceAccess::ReadWrite => BufferAccess::ReadWrite,
        _ => BufferAccess::ReadOnly,
    }
}

/// What sampling a texture gives when reflection does not say: four floats.
pub fn default_sampled_type() -> (r: SampledType)
    ensures
        r == (SampledType::Vector { scalar: ScalarKind::Float32, count: 4 }),
{
    SampledType::Vector { scalar: ScalarKind::Float32, count: 4 }
}

} // verus!
