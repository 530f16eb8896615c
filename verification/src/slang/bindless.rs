//! The descriptor set of bindless resources: which Vulkan descriptor type and
//! binding each kind of Slang resource gets under each policy.

use vstd::prelude::*;
use crate::slang::compiler::BindlessPolicy;
use crate::slang::enums::{SlangBindingType, SlangResourceAccess};
use crate::vk::{
    DESCRIPTOR_TYPE_COMBINED_IMAGE_SAMPLER, DESCRIPTOR_TYPE_SAMPLED_IMAGE,
    DESCRIPTOR_TYPE_SAMPLER, DESCRIPTOR_TYPE_STORAGE_BUFFER, DESCRIPTOR_TYPE_STORAGE_IMAGE,
    DESCRIPTOR_TYPE_STORAGE_TEXEL_BUFFER, DESCRIPTOR_TYPE_UNIFORM_BUFFER,
    DESCRIPTOR_TYPE_UNIFORM_TEXEL_BUFFER,
};

verus! {

/// The bindless descriptor set: its number and policy.
#[derive(Clone, Copy, Debug, PartialEq, Eq)]
pub struct BindlessLayout {
    pub set: i64,
    pub policy: BindlessPolicy,
}

/// One entry of a bindless table: a Slang resource kind, the Vulkan
/// descriptor type it is bound as, its access, and its binding.
#[derive(Clone, Copy, Debug, PartialEq, Eq, Structural)]
pub struct BindlessDescriptor {
    pub slang: SlangBindingType,
    pub vk: i32,
    pub access: Option<SlangResourceAccess>,
    pub binding: i64,
}

/// The resource kinds of a bindless table, in order, with their descriptor
/// types and accesses; the tables differ only in the bindings.
pub open spec fn bindless_kinds() -> Seq<(SlangBindingType, i32, Option<SlangResourceAccess>)> {
    seq![
        (SlangBindingType::Sampler, DESCRIPTOR_TYPE_SAMPLER, None),
        (SlangBindingType::CombinedTextureSampler, DESCRIPTOR_TYPE_COMBINED_IMAGE_SAMPLER, None),
        (SlangBindingType::Texture, DESCRIPTOR_TYPE_SAMPLED_IMAGE, Some(SlangResourceAccess::Read)),
        (
            SlangBindingType::MutableTexture,
            DESCRIPTOR_TYPE_STORAGE_IMAGE,
            Some(SlangResourceAccess::ReadWrite),
        ),
        (
            SlangBindingType::TypedBuffer,
            DESCRIPTOR_TYPE_UNIFORM_TEXEL_BUFFER,
            Some(SlangResourceAccess::Read),
        ),
        (
            SlangBindingType::MutableTypedBuffer,
            DESCRIPTOR_TYPE_STORAGE_TEXEL_BUFFER,
            Some(SlangResourceAccess::ReadWrite),
        ),
        (SlangBindingType::RawBuffer, DESCRIPTOR_TYPE_UNIFORM_BUFFER, Some(SlangResourceAccess::Read)),
        (
            SlangBindingType::MutableRawBuffer,
            DESCRIPTOR_TYPE_STORAGE_BUFFER,
            Some(SlangResourceAccess::ReadWrite),
        ),
    ]
}

/// The binding of the `i`-th kind: under the indexable policy every kind has
/// a binding of its own (`i`); under the mutable policy samplers and combined
/// samplers keep 0 and 1 and every other kind shares binding 2.
pub open spec fn bindless_binding(policy: BindlessPolicy, i: int) -> i64 {
    match policy {
        BindlessPolicy::Indexable => i as i64,
        BindlessPolicy::Mutable => if i < 2 {
            i as i64
        } else {
            2
        },
    }
}

/// The `i`-th entry of the table of `policy`.
pub open spec fn bindless_entry(policy: BindlessPolicy, i: int) -> BindlessDescriptor {
    BindlessDescriptor {
        slang: bindless_kinds()[i].0,
        vk: bindless_kinds()[i].1,
        access: bindless_kinds()[i].2,
        binding: bindless_binding(policy, i),
    }
}

impl BindlessLayout {
    /// The table of descriptors of this layout's policy.
    pub fn bindings(&self) -> (r: Vec<BindlessDescriptor>)
        ensures
            r@.len() == bindless_kinds().len(),
            forall|i: int| 0 <= i < r@.len() ==> #[trigger] r@[i] == bindless_entry(self.policy, i),
    {
        let mutable = match self.policy {
            BindlessPolicy::Indexable => false,
            BindlessPolicy::Mutable => true,
        };
        let r = vec![
            BindlessDescriptor {
                slang: SlangBindingType::Sampler,
                vk: DESCRIPTOR_TYPE_SAMPLER,
                access: None,
                binding: 0,
            },
            BindlessDescriptor {
                slang: SlangBindingType::CombinedTextureSampler,
                vk: DESCRIPTOR_TYPE_COMBINED_IMAGE_SAMPLER,
                access: None,
                binding: 1,
            },
            BindlessDescriptor {
                slang: SlangBindingType::Texture,
                vk: DESCRIPTOR_TYPE_SAMPLED_IMAGE,
                access: Some(SlangResourceAccess::Read),
                binding: 2,
            },
            BindlessDescriptor {
                slang: SlangBindingType::MutableTexture,
                vk: DESCRIPTOR_TYPE_STORAGE_IMAGE,
                access: Some(SlangResourceAccess::ReadWrite),
                binding: if mutable {
                    2
                } else {
                    3
                },
            },
            BindlessDescriptor {
                slang: SlangBindingType::TypedBuffer,
                vk: DESCRIPTOR_TYPE_UNIFORM_TEXEL_BUFFER,
                access: Some(SlangResourceAccess::Read),
                binding: if mutable {
                    2
                } else {
                    4
                },
            },
            BindlessDescriptor {
                slang: SlangBindingType::MutableTypedBuffer,
                vk: DESCRIPTOR_TYPE_STORAGE_TEXEL_BUFFER,
                access: Some(SlangResourceAccess::ReadWrite),
                binding: if mutable {
                    2
                } else {
                    5
                },
            },
            BindlessDescriptor {
                slang: SlangBindingType::RawBuffer,
                vk: DESCRIPTOR_TYPE_UNIFORM_BUFFER,
                access: Some(SlangResourceAccess::Read),
                binding: if mutable {
                    2
                } else {
                    6
                },
            },
            BindlessDescriptor {
                slang: SlangBindingType::MutableRawBuffer,
                vk: DESCRIPTOR_TYPE_STORAGE_BUFFER,
                access: Some(SlangResourceAccess::ReadWrite),
                binding: if mutable {
                    2
                } else {
                    7
                },
            },
        ];
        proof {
            assert forall|i: int| 0 <= i < r@.len() implies #[trigger] r@[i] == bindless_entry(
                self.policy,
                i,
            ) by {
                if i == 0 {
                } else if i == 1 {
                } else if i == 2 {
                } else if i == 3 {
                } else if i == 4 {
                } else if i == 5 {
                } else if i == 6 {
                } else {
                }
            }
        }
        r
    }
}

} // verus!
