//! The bookkeeping of a layout build: where the walk stands (globals or an
//! entry point), the offsets accumulated down to the current variable, and
//! the Vulkan values that reflected kinds map to.

use vstd::prelude::*;
use crate::slang::bindless::BindlessLayout;
use crate::slang::compiler::{BindlessConfig, SlangShaderStage};
use crate::slang::enums::SlangBindingType;
use crate::slang::layout::ElementCount;
use crate::vk::{
    DESCRIPTOR_TYPE_ACCELERATION_STRUCTURE_KHR, DESCRIPTOR_TYPE_COMBINED_IMAGE_SAMPLER,
    DESCRIPTOR_TYPE_INLINE_UNIFORM_BLOCK, DESCRIPTOR_TYPE_INPUT_ATTACHMENT,
    DESCRIPTOR_TYPE_SAMPLED_IMAGE, DESCRIPTOR_TYPE_SAMPLER, DESCRIPTOR_TYPE_STORAGE_BUFFER,
    DESCRIPTOR_TYPE_STORAGE_IMAGE, DESCRIPTOR_TYPE_STORAGE_TEXEL_BUFFER,
    DESCRIPTOR_TYPE_UNIFORM_BUFFER, DESCRIPTOR_TYPE_UNIFORM_TEXEL_BUFFER, SHADER_STAGE_ALL,
    SHADER_STAGE_COMPUTE, SHADER_STAGE_FRAGMENT, SHADER_STAGE_VERTEX,
};

verus! {

/// Where a layout walk stands.
#[derive(Debug, Clone, Copy, PartialEq, Eq, Structural)]
pub enum BuilderLocation {
    Global,
    Entrypoint(SlangShaderStage),
}

/// Why a reflected binding has no Vulkan descriptor type.
#[derive(Debug, Clone, Copy, PartialEq, Eq, Structural)]
pub enum LayoutBuildError {
    UnsupportedBindingType(SlangBindingType),
}

/// The state of a layout walk: its location, the offsets accumulated down to
/// the current variable, and the bindless configuration not yet used.
#[derive(Debug)]
pub struct LayoutBuilder {
    pub location: BuilderLocation,
    pub base_bytes: usize,
    pub base_set: usize,
    pub base_binding_range: i64,
    pub bindless_config: Option<BindlessConfig>,
}

/// The offsets a parameter block's walk saves and restores.
#[derive(Debug, Clone, Copy, PartialEq, Eq, Structural)]
pub struct SavedBase {
    pub bytes: usize,
    pub binding_range: i64,
}

/// The shader stages a descriptor found at `location` is visible to: every
/// stage for the globals, the entry point's stage otherwise.
pub open spec fn location_stages(location: BuilderLocation) -> u32 {
    match location {
        BuilderLocation::Global => SHADER_STAGE_ALL,
        BuilderLocation::Entrypoint(SlangShaderStage::Vertex) => SHADER_STAGE_VERTEX,
        BuilderLocation::Entrypoint(SlangShaderStage::Fragment) => SHADER_STAGE_FRAGMENT,
        BuilderLocation::Entrypoint(SlangShaderStage::Compute) => SHADER_STAGE_COMPUTE,
    }
}

impl LayoutBuilder {
    /// A walk at the globals, at offset 0, with `bindless_config` to lay
    /// out.
    pub fn new(bindless_config: Option<BindlessConfig>) -> (r: Self)
        ensures
            r.location == BuilderLocation::Global,
            r.base_bytes == 0,
            r.base_set == 0,
            r.base_binding_range == 0,
            r.bindless_config == bindless_config,
    {
        LayoutBuilder {
            location: BuilderLocation::Global,
            base_bytes: 0,
            base_set: 0,
            base_binding_range: 0,
            bindless_config,
        }
    }

    /// The bindless descriptor set of the configuration, which this takes:
    /// its space is the set number.
    pub fn take_bindless(&mut self) -> (r: Option<BindlessLayout>)
        ensures
            final(self).bindless_config is None,
            final(self).location == old(self).location,
            final(self).base_bytes == old(self).base_bytes,
            final(self).base_set == old(self).base_set,
            final(self).base_binding_range == old(self).base_binding_range,
            r == match old(self).bindless_config {
                Some(config) => Some(
                    BindlessLayout { set: config.space_index as i64, policy: config.policy },
                ),
                None => None,
            },
    {
        match self.bindless_config.take() {
            Some(config) => Some(BindlessLayout { set: config.space_index as i64, policy: config.policy }),
            None => None,
        }
    }

    /// Steps into a variable at the given offsets.
    pub fn enter_var(&mut self, offset_bytes: usize, offset_set: usize, offset_binding_range: i64)
        requires
            old(self).base_bytes + offset_bytes <= usize::MAX,
            old(self).base_set + offset_set <= usize::MAX,
            i64::MIN <= old(self).base_binding_range + offset_binding_range <= i64::MAX,
        ensures
            final(self).location == old(self).location,
            final(self).bindless_config == old(self).bindless_config,
            final(self).base_bytes == old(self).base_bytes + offset_bytes,
            final(self).base_set == old(self).base_set + offset_set,
            final(self).base_binding_range == old(self).base_binding_range + offset_binding_range,
    {
        self.base_bytes = self.base_bytes + offset_bytes;
        self.base_set = self.base_set + offset_set;
        self.base_binding_range = self.base_binding_range + offset_binding_range;
    }

    /// Steps back out of a variable at the given offsets.
    pub fn leave_var(&mut self, offset_bytes: usize, offset_set: usize, offset_binding_range: i64)
        requires
            old(self).base_bytes >= offset_bytes,
            old(self).base_set >= offset_set,
            i64::MIN <= old(self).base_binding_range - offset_binding_range <= i64::MAX,
        ensures
            final(self).location == old(self).location,
            final(self).bindless_config == old(self).bindless_config,
            final(self).base_bytes == old(self).base_bytes - offset_bytes,
            final(self).base_set == old(self).base_set - offset_set,
            final(self).base_binding_range == old(self).base_binding_range - offset_binding_range,
    {
        self.base_bytes = self.base_bytes - offset_bytes;
        self.base_set = self.base_set - offset_set;
        self.base_binding_range = self.base_binding_range - offset_binding_range;
    }

    /// Steps into a parameter block's element: its bytes and binding ranges
    /// count from 0 again. Returns what to restore on the way out.
    pub fn enter_parameter_block(&mut self) -> (r: SavedBase)
        ensures
            r == (SavedBase { bytes: old(self).base_bytes, binding_range: old(self).base_binding_range }),
            final(self).base_bytes == 0,
            final(self).base_binding_range == 0,
            final(self).base_set == old(self).base_set,
            final(self).location == old(self).location,
            final(self).bindless_config == old(self).bindless_config,
    {
        let saved = SavedBase { bytes: self.base_bytes, binding_range: self.base_binding_range };
        self.base_bytes = 0;
        self.base_binding_range = 0;
        saved
    }

    /// Steps back out of a parameter block.
    pub fn leave_parameter_block(&mut self, saved: SavedBase)
        ensures
            final(self).base_bytes == saved.bytes,
            final(self).base_binding_range == saved.binding_range,
            final(self).base_set == old(self).base_set,
            final(self).location == old(self).location,
            final(self).bindless_config == old(self).bindless_config,
    {
        self.base_bytes = saved.bytes;
        self.base_binding_range = saved.binding_range;
    }

    /// Moves the walk to an entry point's parameters, or back to the globals.
    pub fn set_location(&mut self, location: BuilderLocation)
        ensures
            final(self).location == location,
            final(self).base_bytes == old(self).base_bytes,
            final(self).base_set == old(self).base_set,
            final(self).base_binding_range == old(self).base_binding_range,
            final(self).bindless_config == old(self).bindless_config,
    {
        self.location = location;
    }

    /// The shader stages a descriptor found here is visible to.
    pub fn stages(&self) -> (r: u32)
        ensures
            r == location_stages(self.location),
    {
        match self.location {
            BuilderLocation::Global => SHADER_STAGE_ALL,
            BuilderLocation::Entrypoint(SlangShaderStage::Vertex) => SHADER_STAGE_VERTEX,
            BuilderLocation::Entrypoint(SlangShaderStage::Fragment) => SHADER_STAGE_FRAGMENT,
            BuilderLocation::Entrypoint(SlangShaderStage::Compute) => SHADER_STAGE_COMPUTE,
        }
    }
}

/// Entering a variable and leaving it again at the same offsets gives the
/// walk back its offsets; so does a parameter block's enter and leave.
pub proof fn lemma_enter_leave_restores(
    bytes: usize,
    set: usize,
    binding_range: i64,
    offset_bytes: usize,
    offset_set: usize,
    offset_binding_range: i64,
)
    requires
        bytes + offset_bytes <= usize::MAX,
        set + offset_set <= usize::MAX,
        i64::MIN <= binding_range + offset_binding_range <= i64::MAX,
    ensures
        (bytes + offset_bytes) - offset_bytes == bytes,
        (set + offset_set) - offset_set == set,
        (binding_range + offset_binding_range) - offset_binding_range == binding_range,
{
}

/// The Vulkan descriptor type of a reflected binding type: push constants
/// have none; binding types without a descriptor are refused.
pub open spec fn descriptor_type_of(binding_type: SlangBindingType) -> Result<Option<i32>, LayoutBuildError> {
    match binding_type {
        SlangBindingType::Sampler => Ok(Some(DESCRIPTOR_TYPE_SAMPLER)),
        SlangBindingType::CombinedTextureSampler => Ok(Some(DESCRIPTOR_TYPE_COMBINED_IMAGE_SAMPLER)),
        SlangBindingType::Texture => Ok(Some(DESCRIPTOR_TYPE_SAMPLED_IMAGE)),
        SlangBindingType::MutableTexture => Ok(Some(DESCRIPTOR_TYPE_STORAGE_IMAGE)),
        SlangBindingType::TypedBuffer => Ok(Some(DESCRIPTOR_TYPE_UNIFORM_TEXEL_BUFFER)),
        SlangBindingType::MutableTypedBuffer => Ok(Some(DESCRIPTOR_TYPE_STORAGE_TEXEL_BUFFER)),
        SlangBindingType::RawBuffer => Ok(Some(DESCRIPTOR_TYPE_STORAGE_BUFFER)),
        SlangBindingType::MutableRawBuffer => Ok(Some(DESCRIPTOR_TYPE_STORAGE_BUFFER)),
        SlangBindingType::InputRenderTarget => Ok(Some(DESCRIPTOR_TYPE_INPUT_ATTACHMENT)),
        SlangBindingType::InlineUniformData => Ok(Some(DESCRIPTOR_TYPE_INLINE_UNIFORM_BLOCK)),
        SlangBindingType::RayTracingAccelerationStructure => Ok(
            Some(DESCRIPTOR_TYPE_ACCELERATION_STRUCTURE_KHR),
        ),
        SlangBindingType::ConstantBuffer => Ok(Some(DESCRIPTOR_TYPE_UNIFORM_BUFFER)),
        SlangBindingType::PushConstant => Ok(None),
        _ => Err(LayoutBuildError::UnsupportedBindingType(binding_type)),
    }
}

/// Whether a binding type is a raw buffer, read-only or read-write: both are
/// storage buffers to Vulkan.
pub open spec fn is_raw_buffer(binding_type: SlangBindingType) -> bool {
    binding_type == SlangBindingType::RawBuffer || binding_type == SlangBindingType::MutableRawBuffer
}

/// Image and sampler bindings keep what they bind: a lone sampler is a
/// sampler descriptor (Vulkan type 0), a texture combined with its sampler a
/// combined image sampler (type 1), a texture alone a sampled image (type 2)
/// and a writable texture a storage image (type 3). Apart from the two kinds
/// of raw buffer, no two supported binding types share a descriptor type.
pub proof fn lemma_descriptor_types_keep_binding_kinds(a: SlangBindingType, b: SlangBindingType)
    ensures
        descriptor_type_of(SlangBindingType::Sampler) == Ok::<Option<i32>, LayoutBuildError>(Some(0i32)),
        descriptor_type_of(SlangBindingType::CombinedTextureSampler) == Ok::<
            Option<i32>,
            LayoutBuildError,
        >(Some(1i32)),
        descriptor_type_of(SlangBindingType::Texture) == Ok::<Option<i32>, LayoutBuildError>(Some(2i32)),
        descriptor_type_of(SlangBindingType::MutableTexture) == Ok::<Option<i32>, LayoutBuildError>(
            Some(3i32),
        ),
        (descriptor_type_of(a) matches Ok(Some(x)) && descriptor_type_of(b) matches Ok(Some(y)) && x
            == y) ==> (a == b || (is_raw_buffer(a) && is_raw_buffer(b))),
{
}

/// The Vulkan descriptor type of a reflected binding type.
pub fn map_descriptor_type(binding_type: SlangBindingType) -> (r: Result<Option<i32>, LayoutBuildError>)
    ensures
        r == descriptor_type_of(binding_type),
{
    match binding_type {
        SlangBindingType::Sampler => Ok(Some(DESCRIPTOR_TYPE_SAMPLER)),
        SlangBindingType::CombinedTextureSampler => Ok(Some(DESCRIPTOR_TYPE_COMBINED_IMAGE_SAMPLER)),
        SlangBindingType::Texture => Ok(Some(DESCRIPTOR_TYPE_SAMPLED_IMAGE)),
        SlangBindingType::MutableTexture => Ok(Some(DESCRIPTOR_TYPE_STORAGE_IMAGE)),
        SlangBindingType::TypedBuffer => Ok(Some(DESCRIPTOR_TYPE_UNIFORM_TEXEL_BUFFER)),
        SlangBindingType::MutableTypedBuffer => Ok(Some(DESCRIPTOR_TYPE_STORAGE_TEXEL_BUFFER)),
        SlangBindingType::RawBuffer => Ok(Some(DESCRIPTOR_TYPE_STORAGE_BUFFER)),
        SlangBindingType::MutableRawBuffer => Ok(Some(DESCRIPTOR_TYPE_STORAGE_BUFFER)),
        SlangBindingType::InputRenderTarget => Ok(Some(DESCRIPTOR_TYPE_INPUT_ATTACHMENT)),
        SlangBindingType::InlineUniformData => Ok(Some(DESCRIPTOR_TYPE_INLINE_UNIFORM_BLOCK)),
        SlangBindingType::RayTracingAccelerationStructure => Ok(
            Some(DESCRIPTOR_TYPE_ACCELERATION_STRUCTURE_KHR),
        ),
        SlangBindingType::ConstantBuffer => Ok(Some(DESCRIPTOR_TYPE_UNIFORM_BUFFER)),
        SlangBindingType::PushConstant => Ok(None),
        _ => Err(LayoutBuildError::UnsupportedBindingType(binding_type)),
    }
}

/// The element count of a reflected array: `usize::MAX` marks a run-time
/// sized one.
pub fn array_element_count(count: usize) -> (r: ElementCount)
    ensures
        r == if count == usize::MAX {
            ElementCount::Runtime
        } else {
            ElementCount::Bounded(count)
        },
{
    if count == usize::MAX {
        ElementCount::Runtime
    } else {
        ElementCount::Bounded(count)
    }
}

/// The set of a parameter block once a binding range of set `range_set` was
/// met: the first range fixes it (`-1` marks none yet), later ones must agree.
pub fn record_range_set(current: i64, range_set: i64) -> (r: i64)
    requires
        current == -1 || current == range_set,
    ensures
        r == range_set,
{
    range_set
}

} // verus!
