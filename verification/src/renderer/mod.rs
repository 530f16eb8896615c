//! The renderer's own logic around Vulkan: descriptor plumbing for the
//! shader's parameter blocks, the choice of depth format, and the
//! per-frame image layout and presentation decisions.

pub mod descriptors;
pub mod frame;
pub mod depth;
