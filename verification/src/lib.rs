//! Verified core of a Vulkan renderer and its Slang shader toolchain:
//! queue lanes and submission tracking on the GPU side, and shader
//! reflection layouts, cursors and program selection on the Slang side.

pub mod arc;
pub mod gpu;
pub mod renderer;
pub mod slang;
pub mod sort;
pub mod sorted_set;
pub mod text;
pub mod vk;
