use vstd::prelude::*;
use crate::text::str_eq;

verus! {

/// The kind of a binding range or descriptor in Slang's reflection.
#[derive(Clone, Copy, Debug, PartialEq, Eq, Hash, Structural)]
pub enum SlangBindingType {
    Unknown,
    Sampler,
    Texture,
    ConstantBuffer,
    ParameterBlock,
    TypedBuffer,
    RawBuffer,
    CombinedTextureSampler,
    InputRenderTarget,
    InlineUniformData,
    RayTracingAccelerationStructure,
    VaryingInput,
    VaryingOutput,
    ExistentialValue,
    PushConstant,
    MutableFlag,
    MutableTexture,
    MutableTypedBuffer,
    MutableRawBuffer,
    BaseMask,
    ExtMask,
}

/// The name under which a `SlangBindingType` is written in serialized layouts.
pub open spec fn binding_type_name(v: SlangBindingType) -> Seq<char> {
    match v {
        SlangBindingType::Unknown => "Unknown"@,
        SlangBindingType::Sampler => "Sampler"@,
        SlangBindingType::Texture => "Texture"@,
        SlangBindingType::ConstantBuffer => "ConstantBuffer"@,
        SlangBindingType::ParameterBlock => "ParameterBlock"@,
        SlangBindingType::TypedBuffer => "TypedBuffer"@,
        SlangBindingType::RawBuffer => "RawBuffer"@,
        SlangBindingType::CombinedTextureSampler => "CombinedTextureSampler"@,
        SlangBindingType::InputRenderTarget => "InputRenderTarget"@,
        SlangBindingType::InlineUniformData => "InlineUniformData"@,
        SlangBindingType::RayTracingAccelerationStructure => "RayTracingAccelerationStructure"@,
        SlangBindingType::VaryingInput => "VaryingInput"@,
        SlangBindingType::VaryingOutput => "VaryingOutput"@,
        SlangBindingType::ExistentialValue => "ExistentialValue"@,
        SlangBindingType::PushConstant => "PushConstant"@,
        SlangBindingType::MutableFlag => "MutableFlag"@,
        SlangBindingType::MutableTexture => "MutableTeture"@,
        SlangBindingType::MutableTypedBuffer => "MutableTypedBuffer"@,
        SlangBindingType::MutableRawBuffer => "MutableRawBuffer"@,
        SlangBindingType::BaseMask => "BaseMask"@,
        SlangBindingType::ExtMask => "ExtMask"@,
    }
}

/// The serialized name of `v`.
pub fn binding_type_to_str(v: SlangBindingType) -> (r: &'static str)
    ensures
        r@ == binding_type_name(v),
{
    match v {
        SlangBindingType::Unknown => "Unknown",
        SlangBindingType::Sampler => "Sampler",
        SlangBindingType::Texture => "Texture",
        SlangBindingType::ConstantBuffer => "ConstantBuffer",
        SlangBindingType::ParameterBlock => "ParameterBlock",
        SlangBindingType::TypedBuffer => "TypedBuffer",
        SlangBindingType::RawBuffer => "RawBuffer",
        SlangBindingType::CombinedTextureSampler => "CombinedTextureSampler",
        SlangBindingType::InputRenderTarget => "InputRenderTarget",
        SlangBindingType::InlineUniformData => "InlineUniformData",
        SlangBindingType::RayTracingAccelerationStructure => "RayTracingAccelerationStructure",
        SlangBindingType::VaryingInput => "VaryingInput",
        SlangBindingType::VaryingOutput => "VaryingOutput",
        SlangBindingType::ExistentialValue => "ExistentialValue",
        SlangBindingType::PushConstant => "PushConstant",
        SlangBindingType::MutableFlag => "MutableFlag",
        SlangBindingType::MutableTexture => "MutableTeture",
        SlangBindingType::MutableTypedBuffer => "MutableTypedBuffer",
        SlangBindingType::MutableRawBuffer => "MutableRawBuffer",
        SlangBindingType::BaseMask => "BaseMask",
        SlangBindingType::ExtMask => "ExtMask",
    }
}

/// The value serialized under `value`, if any.
pub fn binding_type_from_str(value: &str) -> (r: Option<SlangBindingType>)
    ensures
        r matches Some(v) ==> binding_type_name(v) == value@,
        r is None ==> forall|v: SlangBindingType| binding_type_name(v) != value@,
{
    if str_eq(value, "Unknown") {
        return Some(SlangBindingType::Unknown);
    }
    if str_eq(value, "Sampler") {
        return Some(SlangBindingType::Sampler);
    }
    if str_eq(value, "Texture") {
        return Some(SlangBindingType::Texture);
    }
    if str_eq(value, "ConstantBuffer") {
        return Some(SlangBindingType::ConstantBuffer);
    }
    if str_eq(value, "ParameterBlock") {
        return Some(SlangBindingType::ParameterBlock);
    }
    if str_eq(value, "TypedBuffer") {
        return Some(SlangBindingType::TypedBuffer);
    }
    if str_eq(value, "RawBuffer") {
        return Some(SlangBindingType::RawBuffer);
    }
    if str_eq(value, "CombinedTextureSampler") {
        return Some(SlangBindingType::CombinedTextureSampler);
    }
    if str_eq(value, "InputRenderTarget") {
        return Some(SlangBindingType::InputRenderTarget);
    }
    if str_eq(value, "InlineUniformData") {
        return Some(SlangBindingType::InlineUniformData);
    }
    if str_eq(value, "RayTracingAccelerationStructure") {
        return Some(SlangBindingType::RayTracingAccelerationStructure);
    }
    if str_eq(value, "VaryingInput") {
        return Some(SlangBindingType::VaryingInput);
    }
    if str_eq(value, "VaryingOutput") {
        return Some(SlangBindingType::VaryingOutput);
    }
    if str_eq(value, "ExistentialValue") {
        return Some(SlangBindingType::ExistentialValue);
    }
    if str_eq(value, "PushConstant") {
        return Some(SlangBindingType::PushConstant);
    }
    if str_eq(value, "MutableFlag") {
        return Some(SlangBindingType::MutableFlag);
    }
    if str_eq(value, "MutableTeture") {
        return Some(SlangBindingType::MutableTexture);
    }
    if str_eq(value, "MutableTypedBuffer") {
        return Some(SlangBindingType::MutableTypedBuffer);
    }
    if str_eq(value, "MutableRawBuffer") {
        return Some(SlangBindingType::MutableRawBuffer);
    }
    if str_eq(value, "BaseMask") {
        return Some(SlangBindingType::BaseMask);
    }
    if str_eq(value, "ExtMask") {
        return Some(SlangBindingType::ExtMask);
    }
    proof {
        reveal_strlit("Unknown");
        reveal_strlit("Sampler");
        reveal_strlit("Texture");
        reveal_strlit("ConstantBuffer");
        reveal_strlit("ParameterBlock");
        reveal_strlit("TypedBuffer");
        reveal_strlit("RawBuffer");
        reveal_strlit("CombinedTextureSampler");
        reveal_strlit("InputRenderTarget");
        reveal_strlit("InlineUniformData");
        reveal_strlit("RayTracingAccelerationStructure");
        reveal_strlit("VaryingInput");
        reveal_strlit("VaryingOutput");
        reveal_strlit("ExistentialValue");
        reveal_strlit("PushConstant");
        reveal_strlit("MutableFlag");
        reveal_strlit("MutableTeture");
        reveal_strlit("MutableTypedBuffer");
        reveal_strlit("MutableRawBuffer");
        reveal_strlit("BaseMask");
        reveal_strlit("ExtMask");
        assert forall|v: SlangBindingType| binding_type_name(v) != value@ by {
            match v {
                SlangBindingType::Unknown => {},
                SlangBindingType::Sampler => {},
                SlangBindingType::Texture => {},
                SlangBindingType::ConstantBuffer => {},
                SlangBindingType::ParameterBlock => {},
                SlangBindingType::TypedBuffer => {},
                SlangBindingType::RawBuffer => {},
                SlangBindingType::CombinedTextureSampler => {},
                SlangBindingType::InputRenderTarget => {},
                SlangBindingType::InlineUniformData => {},
                SlangBindingType::RayTracingAccelerationStructure => {},
                SlangBindingType::VaryingInput => {},
                SlangBindingType::VaryingOutput => {},
                SlangBindingType::ExistentialValue => {},
                SlangBindingType::PushConstant => {},
                SlangBindingType::MutableFlag => {},
                SlangBindingType::MutableTexture => {},
                SlangBindingType::MutableTypedBuffer => {},
                SlangBindingType::MutableRawBuffer => {},
                SlangBindingType::BaseMask => {},
                SlangBindingType::ExtMask => {},
            }
        }
    }
    None
}

/// The value whose serialized name is `s`, if any.
pub open spec fn binding_type_by_name(s: Seq<char>) -> Option<SlangBindingType> {
    if s == "Unknown"@ {
        Some(SlangBindingType::Unknown)
    } else if s == "Sampler"@ {
        Some(SlangBindingType::Sampler)
    } else if s == "Texture"@ {
        Some(SlangBindingType::Texture)
    } else if s == "ConstantBuffer"@ {
        Some(SlangBindingType::ConstantBuffer)
    } else if s == "ParameterBlock"@ {
        Some(SlangBindingType::ParameterBlock)
    } else if s == "TypedBuffer"@ {
        Some(SlangBindingType::TypedBuffer)
    } else if s == "RawBuffer"@ {
        Some(SlangBindingType::RawBuffer)
    } else if s == "CombinedTextureSampler"@ {
        Some(SlangBindingType::CombinedTextureSampler)
    } else if s == "InputRenderTarget"@ {
        Some(SlangBindingType::InputRenderTarget)
    } else if s == "InlineUniformData"@ {
        Some(SlangBindingType::InlineUniformData)
    } else if s == "RayTracingAccelerationStructure"@ {
        Some(SlangBindingType::RayTracingAccelerationStructure)
    } else if s == "VaryingInput"@ {
        Some(SlangBindingType::VaryingInput)
    } else if s == "VaryingOutput"@ {
        Some(SlangBindingType::VaryingOutput)
    } else if s == "ExistentialValue"@ {
        Some(SlangBindingType::ExistentialValue)
    } else if s == "PushConstant"@ {
        Some(SlangBindingType::PushConstant)
    } else if s == "MutableFlag"@ {
        Some(SlangBindingType::MutableFlag)
    } else if s == "MutableTeture"@ {
        Some(SlangBindingType::MutableTexture)
    } else if s == "MutableTypedBuffer"@ {
        Some(SlangBindingType::MutableTypedBuffer)
    } else if s == "MutableRawBuffer"@ {
        Some(SlangBindingType::MutableRawBuffer)
    } else if s == "BaseMask"@ {
        Some(SlangBindingType::BaseMask)
    } else if s == "ExtMask"@ {
        Some(SlangBindingType::ExtMask)
    } else {
        None
    }
}

/// Every serialized name reads back as the value it was written from.
pub proof fn lemma_binding_type_name_round_trip(v: SlangBindingType)
    ensures
        binding_type_by_name(binding_type_name(v)) == Some(v),
{
    reveal_strlit("Unknown");
    reveal_strlit("Sampler");
    reveal_strlit("Texture");
    reveal_strlit("ConstantBuffer");
    reveal_strlit("ParameterBlock");
    reveal_strlit("TypedBuffer");
    reveal_strlit("RawBuffer");
    reveal_strlit("CombinedTextureSampler");
    reveal_strlit("InputRenderTarget");
    reveal_strlit("InlineUniformData");
    reveal_strlit("RayTracingAccelerationStructure");
    reveal_strlit("VaryingInput");
    reveal_strlit("VaryingOutput");
    reveal_strlit("ExistentialValue");
    reveal_strlit("PushConstant");
    reveal_strlit("MutableFlag");
    reveal_strlit("MutableTeture");
    reveal_strlit("MutableTypedBuffer");
    reveal_strlit("MutableRawBuffer");
    reveal_strlit("BaseMask");
    reveal_strlit("ExtMask");
    assert("Unknown"@.len() == 7);
    assert("Sampler"@.len() == 7);
    assert("Texture"@.len() == 7);
    assert("ConstantBuffer"@.len() == 14);
    assert("ParameterBlock"@.len() == 14);
    assert("TypedBuffer"@.len() == 11);
    assert("RawBuffer"@.len() == 9);
    assert("CombinedTextureSampler"@.len() == 22);
    assert("InputRenderTarget"@.len() == 17);
    assert("InlineUniformData"@.len() == 17);
    assert("RayTracingAccelerationStructure"@.len() == 31);
    assert("VaryingInput"@.len() == 12);
    assert("VaryingOutput"@.len() == 13);
    assert("ExistentialValue"@.len() == 16);
    assert("PushConstant"@.len() == 12);
    assert("MutableFlag"@.len() == 11);
    assert("MutableTeture"@.len() == 13);
    assert("MutableTypedBuffer"@.len() == 18);
    assert("MutableRawBuffer"@.len() == 16);
    assert("BaseMask"@.len() == 8);
    assert("ExtMask"@.len() == 7);
    match v {
        SlangBindingType::Unknown => {},
        SlangBindingType::Sampler => {
            assert("Sampler"@[0] != "Unknown"@[0]);
        },
        SlangBindingType::Texture => {
            assert("Texture"@[0] != "Unknown"@[0]);
            assert("Texture"@[0] != "Sampler"@[0]);
        },
        SlangBindingType::ConstantBuffer => {},
        SlangBindingType::ParameterBlock => {
            assert("ParameterBlock"@[0] != "ConstantBuffer"@[0]);
        },
        SlangBindingType::TypedBuffer => {},
        SlangBindingType::RawBuffer => {},
        SlangBindingType::CombinedTextureSampler => {},
        SlangBindingType::InputRenderTarget => {},
        SlangBindingType::InlineUniformData => {
            assert("InlineUniformData"@[2] != "InputRenderTarget"@[2]);
        },
        SlangBindingType::RayTracingAccelerationStructure => {},
        SlangBindingType::VaryingInput => {},
        SlangBindingType::VaryingOutput => {},
        SlangBindingType::ExistentialValue => {},
        SlangBindingType::PushConstant => {
            assert("PushConstant"@[0] != "VaryingInput"@[0]);
        },
        SlangBindingType::MutableFlag => {
            assert("MutableFlag"@[0] != "TypedBuffer"@[0]);
        },
        SlangBindingType::MutableTexture => {
            assert("MutableTeture"@[0] != "VaryingOutput"@[0]);
        },
        SlangBindingType::MutableTypedBuffer => {},
        SlangBindingType::MutableRawBuffer => {
            assert("MutableRawBuffer"@[0] != "ExistentialValue"@[0]);
        },
        SlangBindingType::BaseMask => {},
        SlangBindingType::ExtMask => {
            assert("ExtMask"@[0] != "Unknown"@[0]);
            assert("ExtMask"@[0] != "Sampler"@[0]);
            assert("ExtMask"@[0] != "Texture"@[0]);
        },
    }
}

/// Two values with the same serialized name are the same value.
pub proof fn lemma_binding_type_names_distinct(v: SlangBindingType, w: SlangBindingType)
    ensures
        binding_type_name(v) == binding_type_name(w) ==> v == w,
{
    lemma_binding_type_name_round_trip(v);
    lemma_binding_type_name_round_trip(w);
}

/// The shape of a Slang resource.
#[derive(Clone, Copy, Debug, PartialEq, Eq, Hash, Structural)]
pub enum SlangResourceShape {
    ResourceBaseShapeMask,
    ResourceNone,
    Texture1d,
    Texture2d,
    Texture3d,
    TextureCube,
    TextureBuffer,
    StructuredBuffer,
    ByteAddressBuffer,
    ResourceUnknown,
    AccelerationStructure,
    TextureSubpass,
    ResourceExtShapeMask,
    TextureFeedbackFlag,
    TextureShadowFlag,
    TextureArrayFlag,
    TextureMultisampleFlag,
    TextureCombinedFlag,
    Texture1dArray,
    Texture2dArray,
    TextureCubeArray,
    Texture2dMultisample,
    Texture2dMultisampleArray,
    TextureSubpassMultisample,
}

/// The name under which a `SlangResourceShape` is written in serialized layouts.
pub open spec fn resource_shape_name(v: SlangResourceShape) -> Seq<char> {
    match v {
        SlangResourceShape::ResourceBaseShapeMask => "SlangResourceBaseShapeMask"@,
        SlangResourceShape::ResourceNone => "SlangResourceNone"@,
        SlangResourceShape::Texture1d => "SlangTexture1d"@,
        SlangResourceShape::Texture2d => "SlangTexture2d"@,
        SlangResourceShape::Texture3d => "SlangTexture3d"@,
        SlangResourceShape::TextureCube => "SlangTextureCube"@,
        SlangResourceShape::TextureBuffer => "SlangTextureBuffer"@,
        SlangResourceShape::StructuredBuffer => "SlangStructuredBuffer"@,
        SlangResourceShape::ByteAddressBuffer => "SlangByteAddressBuffer"@,
        SlangResourceShape::ResourceUnknown => "SlangResourceUnknown"@,
        SlangResourceShape::AccelerationStructure => "SlangAccelerationStructure"@,
        SlangResourceShape::TextureSubpass => "SlangTextureSubpass"@,
        SlangResourceShape::ResourceExtShapeMask => "SlangResourceExtShapeMask"@,
        SlangResourceShape::TextureFeedbackFlag => "SlangTextureFeedbackFlag"@,
        SlangResourceShape::TextureShadowFlag => "SlangTextureShadowFlag"@,
        SlangResourceShape::TextureArrayFlag => "SlangTextureArrayFlag"@,
        SlangResourceShape::TextureMultisampleFlag => "SlangTextureMultisampleFlag"@,
        SlangResourceShape::TextureCombinedFlag => "SlangTextureCombinedFlag"@,
        SlangResourceShape::Texture1dArray => "SlangTexture1dArray"@,
        SlangResourceShape::Texture2dArray => "SlangTexture2dArray"@,
        SlangResourceShape::TextureCubeArray => "SlangTextureCubeArray"@,
        SlangResourceShape::Texture2dMultisample => "SlangTexture2dMultisample"@,
        SlangResourceShape::Texture2dMultisampleArray => "SlangTexture2dMultisampleArray"@,
        SlangResourceShape::TextureSubpassMultisample => "SlangTextureSubpassMultisample"@,
    }
}

/// The serialized name of `v`.
pub fn resource_shape_to_str(v: SlangResourceShape) -> (r: &'static str)
    ensures
        r@ == resource_shape_name(v),
{
    match v {
        SlangResourceShape::ResourceBaseShapeMask => "SlangResourceBaseShapeMask",
        SlangResourceShape::ResourceNone => "SlangResourceNone",
        SlangResourceShape::Texture1d => "SlangTexture1d",
        SlangResourceShape::Texture2d => "SlangTexture2d",
        SlangResourceShape::Texture3d => "SlangTexture3d",
        SlangResourceShape::TextureCube => "SlangTextureCube",
        SlangResourceShape::TextureBuffer => "SlangTextureBuffer",
        SlangResourceShape::StructuredBuffer => "SlangStructuredBuffer",
        SlangResourceShape::ByteAddressBuffer => "SlangByteAddressBuffer",
        SlangResourceShape::ResourceUnknown => "SlangResourceUnknown",
        SlangResourceShape::AccelerationStructure => "SlangAccelerationStructure",
        SlangResourceShape::TextureSubpass => "SlangTextureSubpass",
        SlangResourceShape::ResourceExtShapeMask => "SlangResourceExtShapeMask",
        SlangResourceShape::TextureFeedbackFlag => "SlangTextureFeedbackFlag",
        SlangResourceShape::TextureShadowFlag => "SlangTextureShadowFlag",
        SlangResourceShape::TextureArrayFlag => "SlangTextureArrayFlag",
        SlangResourceShape::TextureMultisampleFlag => "SlangTextureMultisampleFlag",
        SlangResourceShape::TextureCombinedFlag => "SlangTextureCombinedFlag",
        SlangResourceShape::Texture1dArray => "SlangTexture1dArray",
        SlangResourceShape::Texture2dArray => "SlangTexture2dArray",
        SlangResourceShape::TextureCubeArray => "SlangTextureCubeArray",
        SlangResourceShape::Texture2dMultisample => "SlangTexture2dMultisample",
        SlangResourceShape::Texture2dMultisampleArray => "SlangTexture2dMultisampleArray",
        SlangResourceShape::TextureSubpassMultisample => "SlangTextureSubpassMultisample",
    }
}

/// The value serialized under `value`, if any.
pub fn resource_shape_from_str(value: &str) -> (r: Option<SlangResourceShape>)
    ensures
        r matches Some(v) ==> resource_shape_name(v) == value@,
        r is None ==> forall|v: SlangResourceShape| resource_shape_name(v) != value@,
{
    if str_eq(value, "SlangResourceBaseShapeMask") {
        return Some(SlangResourceShape::ResourceBaseShapeMask);
    }
    if str_eq(value, "SlangResourceNone") {
        return Some(SlangResourceShape::ResourceNone);
    }
    if str_eq(value, "SlangTexture1d") {
        return Some(SlangResourceShape::Texture1d);
    }
    if str_eq(value, "SlangTexture2d") {
        return Some(SlangResourceShape::Texture2d);
    }
    if str_eq(value, "SlangTexture3d") {
        return Some(SlangResourceShape::Texture3d);
    }
    if str_eq(value, "SlangTextureCube") {
        return Some(SlangResourceShape::TextureCube);
    }
    if str_eq(value, "SlangTextureBuffer") {
        return Some(SlangResourceShape::TextureBuffer);
    }
    if str_eq(value, "SlangStructuredBuffer") {
        return Some(SlangResourceShape::StructuredBuffer);
    }
    if str_eq(value, "SlangByteAddressBuffer") {
        return Some(SlangResourceShape::ByteAddressBuffer);
    }
    if str_eq(value, "SlangResourceUnknown") {
        return Some(SlangResourceShape::ResourceUnknown);
    }
    if str_eq(value, "SlangAccelerationStructure") {
        return Some(SlangResourceShape::AccelerationStructure);
    }
    if str_eq(value, "SlangTextureSubpass") {
        return Some(SlangResourceShape::TextureSubpass);
    }
    if str_eq(value, "SlangResourceExtShapeMask") {
        return Some(SlangResourceShape::ResourceExtShapeMask);
    }
    if str_eq(value, "SlangTextureFeedbackFlag") {
        return Some(SlangResourceShape::TextureFeedbackFlag);
    }
    if str_eq(value, "SlangTextureShadowFlag") {
        return Some(SlangResourceShape::TextureShadowFlag);
    }
    if str_eq(value, "SlangTextureArrayFlag") {
        return Some(SlangResourceShape::TextureArrayFlag);
    }
    if str_eq(value, "SlangTextureMultisampleFlag") {
        return Some(SlangResourceShape::TextureMultisampleFlag);
    }
    if str_eq(value, "SlangTextureCombinedFlag") {
        return Some(SlangResourceShape::TextureCombinedFlag);
    }
    if str_eq(value, "SlangTexture1dArray") {
        return Some(SlangResourceShape::Texture1dArray);
    }
    if str_eq(value, "SlangTexture2dArray") {
        return Some(SlangResourceShape::Texture2dArray);
    }
    if str_eq(value, "SlangTextureCubeArray") {
        return Some(SlangResourceShape::TextureCubeArray);
    }
    if str_eq(value, "SlangTexture2dMultisample") {
        return Some(SlangResourceShape::Texture2dMultisample);
    }
    if str_eq(value, "SlangTexture2dMultisampleArray") {
        return Some(SlangResourceShape::Texture2dMultisampleArray);
    }
    if str_eq(value, "SlangTextureSubpassMultisample") {
        return Some(SlangResourceShape::TextureSubpassMultisample);
    }
    proof {
        reveal_strlit("SlangResourceBaseShapeMask");
        reveal_strlit("SlangResourceNone");
        reveal_strlit("SlangTexture1d");
        reveal_strlit("SlangTexture2d");
        reveal_strlit("SlangTexture3d");
        reveal_strlit("SlangTextureCube");
        reveal_strlit("SlangTextureBuffer");
        reveal_strlit("SlangStructuredBuffer");
        reveal_strlit("SlangByteAddressBuffer");
        reveal_strlit("SlangResourceUnknown");
        reveal_strlit("SlangAccelerationStructure");
        reveal_strlit("SlangTextureSubpass");
        reveal_strlit("SlangResourceExtShapeMask");
        reveal_strlit("SlangTextureFeedbackFlag");
        reveal_strlit("SlangTextureShadowFlag");
        reveal_strlit("SlangTextureArrayFlag");
        reveal_strlit("SlangTextureMultisampleFlag");
        reveal_strlit("SlangTextureCombinedFlag");
        reveal_strlit("SlangTexture1dArray");
        reveal_strlit("SlangTexture2dArray");
        reveal_strlit("SlangTextureCubeArray");
        reveal_strlit("SlangTexture2dMultisample");
        reveal_strlit("SlangTexture2dMultisampleArray");
        reveal_strlit("SlangTextureSubpassMultisample");
        assert forall|v: SlangResourceShape| resource_shape_name(v) != value@ by {
            match v {
                SlangResourceShape::ResourceBaseShapeMask => {},
                SlangResourceShape::ResourceNone => {},
                SlangResourceShape::Texture1d => {},
                SlangResourceShape::Texture2d => {},
                SlangResourceShape::Texture3d => {},
                SlangResourceShape::TextureCube => {},
                SlangResourceShape::TextureBuffer => {},
                SlangResourceShape::StructuredBuffer => {},
                SlangResourceShape::ByteAddressBuffer => {},
                SlangResourceShape::ResourceUnknown => {},
                SlangResourceShape::AccelerationStructure => {},
                SlangResourceShape::TextureSubpass => {},
                SlangResourceShape::ResourceExtShapeMask => {},
                SlangResourceShape::TextureFeedbackFlag => {},
                SlangResourceShape::TextureShadowFlag => {},
                SlangResourceShape::TextureArrayFlag => {},
                SlangResourceShape::TextureMultisampleFlag => {},
                SlangResourceShape::TextureCombinedFlag => {},
                SlangResourceShape::Texture1dArray => {},
                SlangResourceShape::Texture2dArray => {},
                SlangResourceShape::TextureCubeArray => {},
                SlangResourceShape::Texture2dMultisample => {},
                SlangResourceShape::Texture2dMultisampleArray => {},
                SlangResourceShape::TextureSubpassMultisample => {},
            }
        }
    }
    None
}

/// The value whose serialized name is `s`, if any.
pub open spec fn resource_shape_by_name(s: Seq<char>) -> Option<SlangResourceShape> {
    if s == "SlangResourceBaseShapeMask"@ {
        Some(SlangResourceShape::ResourceBaseShapeMask)
    } else if s == "SlangResourceNone"@ {
        Some(SlangResourceShape::ResourceNone)
    } else if s == "SlangTexture1d"@ {
        Some(SlangResourceShape::Texture1d)
    } else if s == "SlangTexture2d"@ {
        Some(SlangResourceShape::Texture2d)
    } else if s == "SlangTexture3d"@ {
        Some(SlangResourceShape::Texture3d)
    } else if s == "SlangTextureCube"@ {
        Some(SlangResourceShape::TextureCube)
    } else if s == "SlangTextureBuffer"@ {
        Some(SlangResourceShape::TextureBuffer)
    } else if s == "SlangStructuredBuffer"@ {
        Some(SlangResourceShape::StructuredBuffer)
    } else if s == "SlangByteAddressBuffer"@ {
        Some(SlangResourceShape::ByteAddressBuffer)
    } else if s == "SlangResourceUnknown"@ {
        Some(SlangResourceShape::ResourceUnknown)
    } else if s == "SlangAccelerationStructure"@ {
        Some(SlangResourceShape::AccelerationStructure)
    } else if s == "SlangTextureSubpass"@ {
        Some(SlangResourceShape::TextureSubpass)
    } else if s == "SlangResourceExtShapeMask"@ {
        Some(SlangResourceShape::ResourceExtShapeMask)
    } else if s == "SlangTextureFeedbackFlag"@ {
        Some(SlangResourceShape::TextureFeedbackFlag)
    } else if s == "SlangTextureShadowFlag"@ {
        Some(SlangResourceShape::TextureShadowFlag)
    } else if s == "SlangTextureArrayFlag"@ {
        Some(SlangResourceShape::TextureArrayFlag)
    } else if s == "SlangTextureMultisampleFlag"@ {
        Some(SlangResourceShape::TextureMultisampleFlag)
    } else if s == "SlangTextureCombinedFlag"@ {
        Some(SlangResourceShape::TextureCombinedFlag)
    } else if s == "SlangTexture1dArray"@ {
        Some(SlangResourceShape::Texture1dArray)
    } else if s == "SlangTexture2dArray"@ {
        Some(SlangResourceShape::Texture2dArray)
    } else if s == "SlangTextureCubeArray"@ {
        Some(SlangResourceShape::TextureCubeArray)
    } else if s == "SlangTexture2dMultisample"@ {
        Some(SlangResourceShape::Texture2dMultisample)
    } else if s == "SlangTexture2dMultisampleArray"@ {
        Some(SlangResourceShape::Texture2dMultisampleArray)
    } else if s == "SlangTextureSubpassMultisample"@ {
        Some(SlangResourceShape::TextureSubpassMultisample)
    } else {
        None
    }
}

/// Every serialized name reads back as the value it was written from.
pub proof fn lemma_resource_shape_name_round_trip(v: SlangResourceShape)
    ensures
        resource_shape_by_name(resource_shape_name(v)) == Some(v),
{
    reveal_strlit("SlangResourceBaseShapeMask");
    reveal_strlit("SlangResourceNone");
    reveal_strlit("SlangTexture1d");
    reveal_strlit("SlangTexture2d");
    reveal_strlit("SlangTexture3d");
    reveal_strlit("SlangTextureCube");
    reveal_strlit("SlangTextureBuffer");
    reveal_strlit("SlangStructuredBuffer");
    reveal_strlit("SlangByteAddressBuffer");
    reveal_strlit("SlangResourceUnknown");
    reveal_strlit("SlangAccelerationStructure");
    reveal_strlit("SlangTextureSubpass");
    reveal_strlit("SlangResourceExtShapeMask");
    reveal_strlit("SlangTextureFeedbackFlag");
    reveal_strlit("SlangTextureShadowFlag");
    reveal_strlit("SlangTextureArrayFlag");
    reveal_strlit("SlangTextureMultisampleFlag");
    reveal_strlit("SlangTextureCombinedFlag");
    reveal_strlit("SlangTexture1dArray");
    reveal_strlit("SlangTexture2dArray");
    reveal_strlit("SlangTextureCubeArray");
    reveal_strlit("SlangTexture2dMultisample");
    reveal_strlit("SlangTexture2dMultisampleArray");
    reveal_strlit("SlangTextureSubpassMultisample");
    assert("SlangResourceBaseShapeMask"@.len() == 26);
    assert("SlangResourceNone"@.len() == 17);
    assert("SlangTexture1d"@.len() == 14);
    assert("SlangTexture2d"@.len() == 14);
    assert("SlangTexture3d"@.len() == 14);
    assert("SlangTextureCube"@.len() == 16);
    assert("SlangTextureBuffer"@.len() == 18);
    assert("SlangStructuredBuffer"@.len() == 21);
    assert("SlangByteAddressBuffer"@.len() == 22);
    assert("SlangResourceUnknown"@.len() == 20);
    assert("SlangAccelerationStructure"@.len() == 26);
    assert("SlangTextureSubpass"@.len() == 19);
    assert("SlangResourceExtShapeMask"@.len() == 25);
    assert("SlangTextureFeedbackFlag"@.len() == 24);
    assert("SlangTextureShadowFlag"@.len() == 22);
    assert("SlangTextureArrayFlag"@.len() == 21);
    assert("SlangTextureMultisampleFlag"@.len() == 27);
    assert("SlangTextureCombinedFlag"@.len() == 24);
    assert("SlangTexture1dArray"@.len() == 19);
    assert("SlangTexture2dArray"@.len() == 19);
    assert("SlangTextureCubeArray"@.len() == 21);
    assert("SlangTexture2dMultisample"@.len() == 25);
    assert("SlangTexture2dMultisampleArray"@.len() == 30);
    assert("SlangTextureSubpassMultisample"@.len() == 30);
    match v {
        SlangResourceShape::ResourceBaseShapeMask => {},
        SlangResourceShape::ResourceNone => {},
        SlangResourceShape::Texture1d => {},
        SlangResourceShape::Texture2d => {
            assert("SlangTexture2d"@[12] != "SlangTexture1d"@[12]);
        },
        SlangResourceShape::Texture3d => {
            assert("SlangTexture3d"@[12] != "SlangTexture1d"@[12]);
            assert("SlangTexture3d"@[12] != "SlangTexture2d"@[12]);
        },
        SlangResourceShape::TextureCube => {},
        SlangResourceShape::TextureBuffer => {},
        SlangResourceShape::StructuredBuffer => {},
        SlangResourceShape::ByteAddressBuffer => {},
        SlangResourceShape::ResourceUnknown => {},
        SlangResourceShape::AccelerationStructure => {
            assert("SlangAccelerationStructure"@[5] != "SlangResourceBaseShapeMask"@[5]);
        },
        SlangResourceShape::TextureSubpass => {},
        SlangResourceShape::ResourceExtShapeMask => {},
        SlangResourceShape::TextureFeedbackFlag => {},
        SlangResourceShape::TextureShadowFlag => {
            assert("SlangTextureShadowFlag"@[5] != "SlangByteAddressBuffer"@[5]);
        },
        SlangResourceShape::TextureArrayFlag => {
            assert("SlangTextureArrayFlag"@[5] != "SlangStructuredBuffer"@[5]);
        },
        SlangResourceShape::TextureMultisampleFlag => {},
        SlangResourceShape::TextureCombinedFlag => {
            assert("SlangTextureCombinedFlag"@[12] != "SlangTextureFeedbackFlag"@[12]);
        },
        SlangResourceShape::Texture1dArray => {
            assert("SlangTexture1dArray"@[12] != "SlangTextureSubpass"@[12]);
        },
        SlangResourceShape::Texture2dArray => {
            assert("SlangTexture2dArray"@[12] != "SlangTextureSubpass"@[12]);
            assert("SlangTexture2dArray"@[12] != "SlangTexture1dArray"@[12]);
        },
        SlangResourceShape::TextureCubeArray => {
            assert("SlangTextureCubeArray"@[5] != "SlangStructuredBuffer"@[5]);
            assert("SlangTextureCubeArray"@[12] != "SlangTextureArrayFlag"@[12]);
        },
        SlangResourceShape::Texture2dMultisample => {
            assert("SlangTexture2dMultisample"@[5] != "SlangResourceExtShapeMask"@[5]);
        },
        SlangResourceShape::Texture2dMultisampleArray => {},
        SlangResourceShape::TextureSubpassMultisample => {
            assert("SlangTextureSubpassMultisample"@[12] != "SlangTexture2dMultisampleArray"@[12]);
        },
    }
}

/// Two values with the same serialized name are the same value.
pub proof fn lemma_resource_shape_names_distinct(v: SlangResourceShape, w: SlangResourceShape)
    ensures
        resource_shape_name(v) == resource_shape_name(w) ==> v == w,
{
    lemma_resource_shape_name_round_trip(v);
    lemma_resource_shape_name_round_trip(w);
}

/// How a Slang resource may be accessed.
#[derive(Clone, Copy, Debug, PartialEq, Eq, Hash, Structural)]
pub enum SlangResourceAccess {
    /// Written `None` in serialized layouts.
    NoAccess,
    Read,
    ReadWrite,
    RasterOrdered,
    Append,
    Consume,
    Write,
    Feedback,
    Unknown,
}

/// The name under which a `SlangResourceAccess` is written in serialized layouts.
pub open spec fn resource_access_name(v: SlangResourceAccess) -> Seq<char> {
    match v {
        SlangResourceAccess::NoAccess => "None"@,
        SlangResourceAccess::Read => "Read"@,
        SlangResourceAccess::ReadWrite => "ReadWrite"@,
        SlangResourceAccess::RasterOrdered => "RasterOrdered"@,
        SlangResourceAccess::Append => "Append"@,
        SlangResourceAccess::Consume => "Consume"@,
        SlangResourceAccess::Write => "Write"@,
        SlangResourceAccess::Feedback => "Feedback"@,
        SlangResourceAccess::Unknown => "Unknown"@,
    }
}

/// The serialized name of `v`.
pub fn resource_access_to_str(v: SlangResourceAccess) -> (r: &'static str)
    ensures
        r@ == resource_access_name(v),
{
    match v {
        SlangResourceAccess::NoAccess => "None",
        SlangResourceAccess::Read => "Read",
        SlangResourceAccess::ReadWrite => "ReadWrite",
        SlangResourceAccess::RasterOrdered => "RasterOrdered",
        SlangResourceAccess::Append => "Append",
        SlangResourceAccess::Consume => "Consume",
        SlangResourceAccess::Write => "Write",
        SlangResourceAccess::Feedback => "Feedback",
        SlangResourceAccess::Unknown => "Unknown",
    }
}

/// The value serialized under `value`, if any.
pub fn resource_access_from_str(value: &str) -> (r: Option<SlangResourceAccess>)
    ensures
        r matches Some(v) ==> resource_access_name(v) == value@,
        r is None ==> forall|v: SlangResourceAccess| resource_access_name(v) != value@,
{
    if str_eq(value, "None") {
        return Some(SlangResourceAccess::NoAccess);
    }
    if str_eq(value, "Read") {
        return Some(SlangResourceAccess::Read);
    }
    if str_eq(value, "ReadWrite") {
        return Some(SlangResourceAccess::ReadWrite);
    }
    if str_eq(value, "RasterOrdered") {
        return Some(SlangResourceAccess::RasterOrdered);
    }
    if str_eq(value, "Append") {
        return Some(SlangResourceAccess::Append);
    }
    if str_eq(value, "Consume") {
        return Some(SlangResourceAccess::Consume);
    }
    if str_eq(value, "Write") {
        return Some(SlangResourceAccess::Write);
    }
    if str_eq(value, "Feedback") {
        return Some(SlangResourceAccess::Feedback);
    }
    if str_eq(value, "Unknown") {
        return Some(SlangResourceAccess::Unknown);
    }
    proof {
        reveal_strlit("None");
        reveal_strlit("Read");
        reveal_strlit("ReadWrite");
        reveal_strlit("RasterOrdered");
        reveal_strlit("Append");
        reveal_strlit("Consume");
        reveal_strlit("Write");
        reveal_strlit("Feedback");
        reveal_strlit("Unknown");
        assert forall|v: SlangResourceAccess| resource_access_name(v) != value@ by {
            match v {
                SlangResourceAccess::NoAccess => {
            assert(resource_access_name(v) == "None"@);
            assert("None"@ == "None"@);
            assert(resource_access_by_name("None"@) == Some(SlangResourceAccess::NoAccess));
        },
                SlangResourceAccess::Read => {},
                SlangResourceAccess::ReadWrite => {},
                SlangResourceAccess::RasterOrdered => {},
                SlangResourceAccess::Append => {},
                SlangResourceAccess::Consume => {},
                SlangResourceAccess::Write => {},
                SlangResourceAccess::Feedback => {},
                SlangResourceAccess::Unknown => {},
            }
        }
    }
    None
}

/// The value whose serialized name is `s`, if any.
pub open spec fn resource_access_by_name(s: Seq<char>) -> Option<SlangResourceAccess> {
    if s == "None"@ {
        Some(SlangResourceAccess::NoAccess)
    } else if s == "Read"@ {
        Some(SlangResourceAccess::Read)
    } else if s == "ReadWrite"@ {
        Some(SlangResourceAccess::ReadWrite)
    } else if s == "RasterOrdered"@ {
        Some(SlangResourceAccess::RasterOrdered)
    } else if s == "Append"@ {
        Some(SlangResourceAccess::Append)
    } else if s == "Consume"@ {
        Some(SlangResourceAccess::Consume)
    } else if s == "Write"@ {
        Some(SlangResourceAccess::Write)
    } else if s == "Feedback"@ {
        Some(SlangResourceAccess::Feedback)
    } else if s == "Unknown"@ {
        Some(SlangResourceAccess::Unknown)
    } else {
        None
    }
}

/// Every serialized name reads back as the value it was written from.
pub proof fn lemma_resource_access_name_round_trip(v: SlangResourceAccess)
    ensures
        resource_access_by_name(resource_access_name(v)) == Some(v),
{
    reveal_strlit("None");
    reveal_strlit("Read");
    reveal_strlit("ReadWrite");
    reveal_strlit("RasterOrdered");
    reveal_strlit("Append");
    reveal_strlit("Consume");
    reveal_strlit("Write");
    reveal_strlit("Feedback");
    reveal_strlit("Unknown");
    assert("None"@.len() == 4);
    assert("Read"@.len() == 4);
    assert("ReadWrite"@.len() == 9);
    assert("RasterOrdered"@.len() == 13);
    assert("Append"@.len() == 6);
    assert("Consume"@.len() == 7);
    assert("Write"@.len() == 5);
    assert("Feedback"@.len() == 8);
    assert("Unknown"@.len() == 7);
    match v {
        SlangResourceAccess::NoAccess => {},
        SlangResourceAccess::Read => {
            assert("Read"@[0] != "None"@[0]);
        },
        SlangResourceAccess::ReadWrite => {},
        SlangResourceAccess::RasterOrdered => {},
        SlangResourceAccess::Append => {},
        SlangResourceAccess::Consume => {},
        SlangResourceAccess::Write => {},
        SlangResourceAccess::Feedback => {},
        SlangResourceAccess::Unknown => {
            assert("Unknown"@[0] != "Consume"@[0]);
        },
    }
}

/// Two values with the same serialized name are the same value.
pub proof fn lemma_resource_access_names_distinct(v: SlangResourceAccess, w: SlangResourceAccess)
    ensures
        resource_access_name(v) == resource_access_name(w) ==> v == w,
{
    lemma_resource_access_name_round_trip(v);
    lemma_resource_access_name_round_trip(w);
}

} // verus!
