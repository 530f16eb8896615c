//! Vulkan enumerant and flag values that the library uses, as the Vulkan specification
//! numbers them.

use vstd::prelude::*;

verus! {

pub const DESCRIPTOR_TYPE_SAMPLER: i32 = 0;
pub const DESCRIPTOR_TYPE_COMBINED_IMAGE_SAMPLER: i32 = 1;
pub const DESCRIPTOR_TYPE_SAMPLED_IMAGE: i32 = 2;
pub const DESCRIPTOR_TYPE_STORAGE_IMAGE: i32 = 3;
pub const DESCRIPTOR_TYPE_UNIFORM_TEXEL_BUFFER: i32 = 4;
pub const DESCRIPTOR_TYPE_STORAGE_TEXEL_BUFFER: i32 = 5;
pub const DESCRIPTOR_TYPE_UNIFORM_BUFFER: i32 = 6;
pub const DESCRIPTOR_TYPE_STORAGE_BUFFER: i32 = 7;

pub const IMAGE_LAYOUT_UNDEFINED: i32 = 0;
pub const IMAGE_LAYOUT_COLOR_ATTACHMENT_OPTIMAL: i32 = 2;
pub const IMAGE_LAYOUT_PRESENT_SRC_KHR: i32 = 1000001002;
pub const IMAGE_LAYOUT_DEPTH_ATTACHMENT_OPTIMAL: i32 = 1000241000;

pub const PIPELINE_STAGE_2_NONE: u64 = 0;
pub const PIPELINE_STAGE_2_TOP_OF_PIPE: u64 = 0x1;
pub const PIPELINE_STAGE_2_EARLY_FRAGMENT_TESTS: u64 = 0x100;
pub const PIPELINE_STAGE_2_COLOR_ATTACHMENT_OUTPUT: u64 = 0x400;
pub const PIPELINE_STAGE_2_BOTTOM_OF_PIPE: u64 = 0x2000;

pub const ACCESS_2_NONE: u64 = 0;
pub const ACCESS_2_COLOR_ATTACHMENT_WRITE: u64 = 0x100;
pub const ACCESS_2_DEPTH_STENCIL_ATTACHMENT_WRITE: u64 = 0x400;

pub const DESCRIPTOR_TYPE_INPUT_ATTACHMENT: i32 = 10;
pub const DESCRIPTOR_TYPE_INLINE_UNIFORM_BLOCK: i32 = 1000138000;
pub const DESCRIPTOR_TYPE_ACCELERATION_STRUCTURE_KHR: i32 = 1000150000;

pub const SHADER_STAGE_VERTEX: u32 = 0x1;
pub const SHADER_STAGE_FRAGMENT: u32 = 0x10;
pub const SHADER_STAGE_COMPUTE: u32 = 0x20;
pub const SHADER_STAGE_ALL: u32 = 0x7fff_ffff;

pub const FORMAT_D32_SFLOAT: i32 = 126;
pub const FORMAT_D24_UNORM_S8_UINT: i32 = 129;
pub const FORMAT_D32_SFLOAT_S8_UINT: i32 = 130;
pub const FORMAT_FEATURE_DEPTH_STENCIL_ATTACHMENT: u32 = 0x200;

pub const SUCCESS: i32 = 0;
pub const NOT_READY: i32 = 1;
pub const TIMEOUT: i32 = 2;
pub const SUBOPTIMAL_KHR: i32 = 1000001003;
pub const ERROR_SURFACE_LOST_KHR: i32 = -1000000000;
pub const ERROR_OUT_OF_DATE_KHR: i32 = -1000001004;
pub const ERROR_FULL_SCREEN_EXCLUSIVE_MODE_LOST_EXT: i32 = -1000255000;

} // verus!
