//! Per-frame decisions: which layout each swapchain image and the depth
//! image is in, the barriers that move them where a frame needs them, and
//! what an acquire or a present result asks of the swapchain.

use vstd::prelude::*;
use crate::vk::{
    ACCESS_2_COLOR_ATTACHMENT_WRITE, ACCESS_2_DEPTH_STENCIL_ATTACHMENT_WRITE, ACCESS_2_NONE,
    IMAGE_LAYOUT_COLOR_ATTACHMENT_OPTIMAL, IMAGE_LAYOUT_DEPTH_ATTACHMENT_OPTIMAL,
    IMAGE_LAYOUT_PRESENT_SRC_KHR, IMAGE_LAYOUT_UNDEFINED, PIPELINE_STAGE_2_BOTTOM_OF_PIPE,
    PIPELINE_STAGE_2_COLOR_ATTACHMENT_OUTPUT, PIPELINE_STAGE_2_EARLY_FRAGMENT_TESTS,
    PIPELINE_STAGE_2_TOP_OF_PIPE,
};

verus! {

/// One image layout transition: the layouts, and the stages and accesses
/// that the barrier waits on and makes available.
#[derive(Debug, Clone, Copy, PartialEq, Eq, Structural)]
pub struct LayoutTransition {
    pub old_layout: i32,
    pub new_layout: i32,
    pub src_stage: u64,
    pub src_access: u64,
    pub dst_stage: u64,
    pub dst_access: u64,
}

/// The transitions of one frame: the swapchain image into color attachment
/// use, the depth image into depth attachment use, and the swapchain image
/// on to presentation.
#[derive(Debug, Clone, Copy, PartialEq, Eq, Structural)]
pub struct FramePlan {
    pub color: LayoutTransition,
    pub depth: LayoutTransition,
    pub present: LayoutTransition,
}

/// The transition of a swapchain image from `old` into color attachment use:
/// after presentation it waits for the bottom of the pipe, else for nothing.
pub open spec fn color_transition(old: i32) -> LayoutTransition {
    LayoutTransition {
        old_layout: old,
        new_layout: IMAGE_LAYOUT_COLOR_ATTACHMENT_OPTIMAL,
        src_stage: if old == IMAGE_LAYOUT_PRESENT_SRC_KHR {
            PIPELINE_STAGE_2_BOTTOM_OF_PIPE
        } else {
            PIPELINE_STAGE_2_TOP_OF_PIPE
        },
        src_access: ACCESS_2_NONE,
        dst_stage: PIPELINE_STAGE_2_COLOR_ATTACHMENT_OUTPUT,
        dst_access: ACCESS_2_COLOR_ATTACHMENT_WRITE,
    }
}

/// The transition of the depth image from `old` into depth attachment use:
/// after an earlier frame it waits for that frame's depth writes.
pub open spec fn depth_transition(old: i32) -> LayoutTransition {
    LayoutTransition {
        old_layout: old,
        new_layout: IMAGE_LAYOUT_DEPTH_ATTACHMENT_OPTIMAL,
        src_stage: if old == IMAGE_LAYOUT_DEPTH_ATTACHMENT_OPTIMAL {
            PIPELINE_STAGE_2_EARLY_FRAGMENT_TESTS
        } else {
            PIPELINE_STAGE_2_TOP_OF_PIPE
        },
        src_access: if old == IMAGE_LAYOUT_DEPTH_ATTACHMENT_OPTIMAL {
            ACCESS_2_DEPTH_STENCIL_ATTACHMENT_WRITE
        } else {
            ACCESS_2_NONE
        },
        dst_stage: PIPELINE_STAGE_2_EARLY_FRAGMENT_TESTS,
        dst_access: ACCESS_2_DEPTH_STENCIL_ATTACHMENT_WRITE,
    }
}

/// The transition of a rendered swapchain image on to presentation.
pub open spec fn present_transition() -> LayoutTransition {
    LayoutTransition {
        old_layout: IMAGE_LAYOUT_COLOR_ATTACHMENT_OPTIMAL,
        new_layout: IMAGE_LAYOUT_PRESENT_SRC_KHR,
        src_stage: PIPELINE_STAGE_2_COLOR_ATTACHMENT_OUTPUT,
        src_access: ACCESS_2_COLOR_ATTACHMENT_WRITE,
        dst_stage: PIPELINE_STAGE_2_BOTTOM_OF_PIPE,
        dst_access: ACCESS_2_NONE,
    }
}

/// The layouts that the swapchain images and the depth image were left in.
#[derive(Debug)]
pub struct FrameLayouts {
    image_layouts: Vec<i32>,
    depth_layout: i32,
}

impl View for FrameLayouts {
    type V = (Seq<i32>, i32);

    closed spec fn view(&self) -> (Seq<i32>, i32) {
        (self.image_layouts@, self.depth_layout)
    }
}

impl FrameLayouts {
    /// The layouts of freshly made swapchain resources: every image, and the
    /// depth image, undefined.
    pub fn new(image_count: usize) -> (r: Self)
        ensures
            r@.0 == Seq::new(image_count as nat, |i: int| IMAGE_LAYOUT_UNDEFINED),
            r@.1 == IMAGE_LAYOUT_UNDEFINED,
    {
        let mut image_layouts: Vec<i32> = Vec::with_capacity(image_count);
        let mut i: usize = 0;
        while i < image_count
            invariant
                i <= image_count,
                image_layouts@ == Seq::new(i as nat, |k: int| IMAGE_LAYOUT_UNDEFINED),
            decreases image_count - i,
        {
            image_layouts.push(IMAGE_LAYOUT_UNDEFINED);
            i = i + 1;
            proof {
                assert(image_layouts@ =~= Seq::new(i as nat, |k: int| IMAGE_LAYOUT_UNDEFINED));
            }
        }
        FrameLayouts { image_layouts, depth_layout: IMAGE_LAYOUT_UNDEFINED }
    }

    /// The number of swapchain images tracked.
    pub fn image_count(&self) -> (r: usize)
        ensures
            r == self@.0.len(),
    {
        self.image_layouts.len()
    }

    /// The transitions of a frame that renders into swapchain image
    /// `image_index`; `None` where no such image is tracked.
    pub fn plan(&self, image_index: usize) -> (r: Option<FramePlan>)
        ensures
            image_index < self@.0.len() ==> r == Some(
                FramePlan {
                    color: color_transition(self@.0[image_index as int]),
                    depth: depth_transition(self@.1),
                    present: present_transition(),
                },
            ),
            image_index >= self@.0.len() ==> r is None,
    {
        if image_index >= self.image_layouts.len() {
            return None;
        }
        let old = self.image_layouts[image_index];
        let color_src_stage = if old == IMAGE_LAYOUT_PRESENT_SRC_KHR {
            PIPELINE_STAGE_2_BOTTOM_OF_PIPE
        } else {
            PIPELINE_STAGE_2_TOP_OF_PIPE
        };
        let color = LayoutTransition {
            old_layout: old,
            new_layout: IMAGE_LAYOUT_COLOR_ATTACHMENT_OPTIMAL,
            src_stage: color_src_stage,
            src_access: ACCESS_2_NONE,
            dst_stage: PIPELINE_STAGE_2_COLOR_ATTACHMENT_OUTPUT,
            dst_access: ACCESS_2_COLOR_ATTACHMENT_WRITE,
        };
        let depth_old = self.depth_layout;
        let after_frame = depth_old == IMAGE_LAYOUT_DEPTH_ATTACHMENT_OPTIMAL;
        let depth = LayoutTransition {
            old_layout: depth_old,
            new_layout: IMAGE_LAYOUT_DEPTH_ATTACHMENT_OPTIMAL,
            src_stage: if after_frame {
                PIPELINE_STAGE_2_EARLY_FRAGMENT_TESTS
            } else {
                PIPELINE_STAGE_2_TOP_OF_PIPE
            },
            src_access: if after_frame {
                ACCESS_2_DEPTH_STENCIL_ATTACHMENT_WRITE
            } else {
                ACCESS_2_NONE
            },
            dst_stage: PIPELINE_STAGE_2_EARLY_FRAGMENT_TESTS,
            dst_access: ACCESS_2_DEPTH_STENCIL_ATTACHMENT_WRITE,
        };
        let present = LayoutTransition {
            old_layout: IMAGE_LAYOUT_COLOR_ATTACHMENT_OPTIMAL,
            new_layout: IMAGE_LAYOUT_PRESENT_SRC_KHR,
            src_stage: PIPELINE_STAGE_2_COLOR_ATTACHMENT_OUTPUT,
            src_access: ACCESS_2_COLOR_ATTACHMENT_WRITE,
            dst_stage: PIPELINE_STAGE_2_BOTTOM_OF_PIPE,
            dst_access: ACCESS_2_NONE,
        };
        Some(FramePlan { color, depth, present })
    }

    /// Records that a frame was rendered into image `image_index`: that image
    /// is now ready to present, and the depth image in depth attachment use.
    pub fn finish(&mut self, image_index: usize)
        ensures
            final(self)@.0 == if image_index < old(self)@.0.len() {
                old(self)@.0.update(image_index as int, IMAGE_LAYOUT_PRESENT_SRC_KHR)
            } else {
                old(self)@.0
            },
            final(self)@.1 == IMAGE_LAYOUT_DEPTH_ATTACHMENT_OPTIMAL,
    {
        if image_index < self.image_layouts.len() {
            self.image_layouts.set(image_index, IMAGE_LAYOUT_PRESENT_SRC_KHR);
        }
        self.depth_layout = IMAGE_LAYOUT_DEPTH_ATTACHMENT_OPTIMAL;
    }
}

/// A frame that ran into image `i` leaves it so that the next frame into it
/// waits for presentation, leaves the depth image so that the next frame
/// waits for its depth writes, and leaves the other images as they were.
pub proof fn lemma_finished_frame_next_plan(before: (Seq<i32>, i32), i: int, j: int)
    requires
        0 <= i < before.0.len(),
        0 <= j < before.0.len(),
    ensures
        ({
            let after = (before.0.update(i, IMAGE_LAYOUT_PRESENT_SRC_KHR), IMAGE_LAYOUT_DEPTH_ATTACHMENT_OPTIMAL);
            &&& color_transition(after.0[i]).src_stage == PIPELINE_STAGE_2_BOTTOM_OF_PIPE
            &&& color_transition(after.0[i]).old_layout == present_transition().new_layout
            &&& depth_transition(after.1).src_stage == PIPELINE_STAGE_2_EARLY_FRAGMENT_TESTS
            &&& depth_transition(after.1).src_access == ACCESS_2_DEPTH_STENCIL_ATTACHMENT_WRITE
            &&& j != i ==> color_transition(after.0[j]) == color_transition(before.0[j])
        }),
{
}

/// What an acquire or a present call reported.
#[derive(Debug, Clone, Copy, PartialEq, Eq, Structural)]
pub enum SurfaceStatus {
    /// The call succeeded.
    Success,
    /// The call succeeded, but the swapchain no longer matches the surface
    /// exactly.
    Suboptimal,
    /// The swapchain no longer matches the surface.
    OutOfDate,
    /// The call failed with this Vulkan result code.
    Failed(i32),
}

/// What to do once a swapchain image was asked for.
#[derive(Debug, Clone, Copy, PartialEq, Eq, Structural)]
pub enum AcquireAction {
    /// Render the frame.
    Render,
    /// Render the frame, and rebuild the swapchain before the next one.
    RenderAndRecreate,
    /// Skip the frame and rebuild the swapchain.
    SkipAndRecreate,
}

/// What to do once a swapchain image was asked for: a failure other than an
/// out-of-date swapchain is an error, with its code.
pub fn acquire_action(status: SurfaceStatus) -> (r: Result<AcquireAction, i32>)
    ensures
        r == match status {
            SurfaceStatus::Success => Ok(AcquireAction::Render),
            SurfaceStatus::Suboptimal => Ok(AcquireAction::RenderAndRecreate),
            SurfaceStatus::OutOfDate => Ok(AcquireAction::SkipAndRecreate),
            SurfaceStatus::Failed(code) => Err(code),
        },
{
    match status {
        SurfaceStatus::Success => Ok(AcquireAction::Render),
        SurfaceStatus::Suboptimal => Ok(AcquireAction::RenderAndRecreate),
        SurfaceStatus::OutOfDate => Ok(AcquireAction::SkipAndRecreate),
        SurfaceStatus::Failed(code) => Err(code),
    }
}

/// Whether a presented frame asks for the swapchain to be rebuilt: a failure
/// other than an out-of-date swapchain is an error, with its code.
pub fn present_needs_recreate(status: SurfaceStatus) -> (r: Result<bool, i32>)
    ensures
        r == match status {
            SurfaceStatus::Success => Ok(false),
            SurfaceStatus::Suboptimal => Ok(true),
            SurfaceStatus::OutOfDate => Ok(true),
            SurfaceStatus::Failed(code) => Err::<bool, i32>(code),
        },
{
    match status {
        SurfaceStatus::Success => Ok(false),
        SurfaceStatus::Suboptimal | SurfaceStatus::OutOfDate => Ok(true),
        SurfaceStatus::Failed(code) => Err(code),
    }
}

} // verus!
