//! The bookkeeping of a swapchain: which frame slot acquires next, whether
//! the swapchain asked to be rebuilt, and the generation that tells images
//! of a rebuilt swapchain from older ones.

use vstd::prelude::*;
use crate::gpu::ids::QueueGroupId;
use crate::gpu::surface::Extent2D;
use crate::vk::{
    ERROR_FULL_SCREEN_EXCLUSIVE_MODE_LOST_EXT, ERROR_OUT_OF_DATE_KHR, ERROR_SURFACE_LOST_KHR,
    NOT_READY, SUBOPTIMAL_KHR, SUCCESS, TIMEOUT,
};

verus! {

/// What the driver answered when asked for the next image.
#[derive(Debug, Clone, Copy, PartialEq, Eq, Structural)]
pub enum AcquireResult {
    /// An image index, with the success code that came with it.
    Acquired { index: u32, code: i32 },
    /// An error code.
    Failed(i32),
}

/// Why no image was acquired.
#[derive(Debug, Clone, Copy, PartialEq, Eq, Structural)]
pub enum AcquireError {
    Timeout,
    NotReady,
    /// The swapchain no longer matches the surface.
    RecreateSwapchain,
    /// The surface is gone.
    RecreateSurface,
    /// Exclusive full-screen mode was lost.
    RegainFullScreen,
    /// A success code other than the plain one, timeout or not ready.
    UnknownSuccessCode(i32),
    /// Any other error code.
    Code(i32),
}

/// Why a swapchain request was refused.
#[derive(Debug, Clone, Copy, PartialEq, Eq, Structural)]
pub enum SwapchainError {
    /// The queue group is not the one the swapchain presents on.
    QueueGroupMismatch,
    /// A swapchain cannot have an empty extent.
    ZeroExtent,
    /// The image belongs to a swapchain generation that was replaced.
    GenerationMismatch,
    /// A swapchain needs at least one frame in flight.
    NoFramesInFlight,
}

/// The image index an acquire answer gives, or why it gives none. Only the
/// plain success code gives an image; a suboptimal one is reported as an
/// unknown success code.
pub open spec fn acquire_outcome(result: AcquireResult) -> Result<u32, AcquireError> {
    match result {
        AcquireResult::Acquired { index, code } => if code == SUCCESS {
            Ok(index)
        } else if code == TIMEOUT {
            Err(AcquireError::Timeout)
        } else if code == NOT_READY {
            Err(AcquireError::NotReady)
        } else {
            Err(AcquireError::UnknownSuccessCode(code))
        },
        AcquireResult::Failed(code) => if code == ERROR_OUT_OF_DATE_KHR {
            Err(AcquireError::RecreateSwapchain)
        } else if code == ERROR_SURFACE_LOST_KHR {
            Err(AcquireError::RecreateSurface)
        } else if code == ERROR_FULL_SCREEN_EXCLUSIVE_MODE_LOST_EXT {
            Err(AcquireError::RegainFullScreen)
        } else {
            Err(AcquireError::Code(code))
        },
    }
}

/// The answer says the swapchain should be rebuilt.
pub open spec fn asks_recreate(result: AcquireResult) -> bool {
    result matches AcquireResult::Acquired { code, .. } && code == SUBOPTIMAL_KHR
}

/// Whether an image of generation `token` may be presented on a swapchain
/// of generation `current`.
pub open spec fn present_check(current: u64, token: u64) -> Result<(), SwapchainError> {
    if token == current {
        Ok(())
    } else {
        Err(SwapchainError::GenerationMismatch)
    }
}

/// An image acquired before a rebuild cannot be presented after it.
pub proof fn lemma_rebuild_refuses_older_images(generation: u64)
    requires
        generation < u64::MAX,
    ensures
        present_check((generation + 1) as u64, generation) == Err::<(), SwapchainError>(
            SwapchainError::GenerationMismatch,
        ),
        present_check(generation, generation) is Ok,
{
}

/// The state of a swapchain with a fixed number of frame slots.
#[derive(Debug, Clone, Copy)]
pub struct SwapchainState {
    queue_group_id: QueueGroupId,
    generation: u64,
    slot_count: usize,
    slot_index: usize,
    should_recreate: bool,
}

impl SwapchainState {
    /// The slot index stays below the number of slots.
    #[verifier::type_invariant]
    spec fn slot_in_range(self) -> bool {
        self.slot_index < self.slot_count
    }

    pub closed spec fn group_spec(&self) -> QueueGroupId {
        self.queue_group_id
    }

    pub closed spec fn generation_spec(&self) -> u64 {
        self.generation
    }

    pub closed spec fn slot_count_spec(&self) -> usize {
        self.slot_count
    }

    pub closed spec fn slot_index_spec(&self) -> usize {
        self.slot_index
    }

    pub closed spec fn recreate_spec(&self) -> bool {
        self.should_recreate
    }

    /// A new swapchain presenting on `queue_group_id` with an image of
    /// `extent` and `frames_in_flight` slots. An empty extent is refused
    /// first, then a count of zero slots.
    pub fn new(queue_group_id: QueueGroupId, extent: Extent2D, frames_in_flight: usize) -> (r: Result<
        Self,
        SwapchainError,
    >)
        ensures
            (extent.width == 0 || extent.height == 0) ==> r == Err::<Self, SwapchainError>(
                SwapchainError::ZeroExtent,
            ),
            (extent.width != 0 && extent.height != 0 && frames_in_flight == 0) ==> r == Err::<
                Self,
                SwapchainError,
            >(SwapchainError::NoFramesInFlight),
            (extent.width != 0 && extent.height != 0 && frames_in_flight != 0) ==> (r matches Ok(
                s,
            ) && s.group_spec() == queue_group_id && s.generation_spec() == 0
                && s.slot_count_spec() == frames_in_flight && s.slot_index_spec() == 0
                && !s.recreate_spec()),
    {
        if extent.width == 0 || extent.height == 0 {
            return Err(SwapchainError::ZeroExtent);
        }
        if frames_in_flight == 0 {
            return Err(SwapchainError::NoFramesInFlight);
        }
        Ok(
            SwapchainState {
                queue_group_id,
                generation: 0,
                slot_count: frames_in_flight,
                slot_index: 0,
                should_recreate: false,
            },
        )
    }

    /// The queue group the swapchain presents on.
    pub fn queue_group_id(&self) -> (r: QueueGroupId)
        ensures
            r == self.group_spec(),
    {
        self.queue_group_id
    }

    /// The generation: how many times the swapchain was rebuilt.
    pub fn generation(&self) -> (r: u64)
        ensures
            r == self.generation_spec(),
    {
        self.generation
    }

    /// The slot whose semaphores and fence the next acquire uses.
    pub fn slot_index(&self) -> (r: usize)
        ensures
            r == self.slot_index_spec(),
            r < self.slot_count_spec(),
    {
        proof {
            use_type_invariant(self);
        }
        self.slot_index
    }

    /// Whether the swapchain asked to be rebuilt.
    pub fn should_recreate(&self) -> (r: bool)
        ensures
            r == self.recreate_spec(),
    {
        self.should_recreate
    }

    /// Takes the driver's answer for the current slot: the image index, or
    /// why there is none. A suboptimal answer asks for a rebuild; an image
    /// moves the next acquire to the next slot, round the slots.
    pub fn acquire(&mut self, result: AcquireResult) -> (r: Result<u32, AcquireError>)
        ensures
            r == acquire_outcome(result),
            final(self).recreate_spec() == (old(self).recreate_spec() || asks_recreate(result)),
            final(self).slot_index_spec() == (if r is Ok {
                ((old(self).slot_index_spec() + 1) % (old(self).slot_count_spec() as int)) as usize
            } else {
                old(self).slot_index_spec()
            }),
            final(self).slot_count_spec() == old(self).slot_count_spec(),
            final(self).generation_spec() == old(self).generation_spec(),
            final(self).group_spec() == old(self).group_spec(),
    {
        proof {
            use_type_invariant(&*self);
        }
        let r = match result {
            AcquireResult::Acquired { index, code } => {
                if code == SUBOPTIMAL_KHR {
                    self.should_recreate = true;
                }
                if code == SUCCESS {
                    Ok(index)
                } else if code == TIMEOUT {
                    Err(AcquireError::Timeout)
                } else if code == NOT_READY {
                    Err(AcquireError::NotReady)
                } else {
                    Err(AcquireError::UnknownSuccessCode(code))
                }
            },
            AcquireResult::Failed(code) => {
                if code == ERROR_OUT_OF_DATE_KHR {
                    Err(AcquireError::RecreateSwapchain)
                } else if code == ERROR_SURFACE_LOST_KHR {
                    Err(AcquireError::RecreateSurface)
                } else if code == ERROR_FULL_SCREEN_EXCLUSIVE_MODE_LOST_EXT {
                    Err(AcquireError::RegainFullScreen)
                } else {
                    Err(AcquireError::Code(code))
                }
            },
        };
        if r.is_ok() {
            self.slot_index = (self.slot_index + 1) % self.slot_count;
        }
        r
    }

    /// Whether the swapchain may be rebuilt for `queue_group` at `extent`:
    /// the group must be the swapchain's and the extent not empty.
    pub fn check_recreate(&self, queue_group: QueueGroupId, extent: Extent2D) -> (r: Result<
        (),
        SwapchainError,
    >)
        ensures
            r == (if queue_group != self.group_spec() {
                Err(SwapchainError::QueueGroupMismatch)
            } else if extent.width == 0 || extent.height == 0 {
                Err(SwapchainError::ZeroExtent)
            } else {
                Ok(())
            }),
    {
        if queue_group != self.queue_group_id {
            return Err(SwapchainError::QueueGroupMismatch);
        }
        if extent.width == 0 || extent.height == 0 {
            return Err(SwapchainError::ZeroExtent);
        }
        Ok(())
    }

    /// Records a rebuild: a new generation, and no rebuild asked for.
    pub fn recreated(&mut self)
        requires
            old(self).generation_spec() < u64::MAX,
        ensures
            final(self).generation_spec() == old(self).generation_spec() + 1,
            !final(self).recreate_spec(),
            final(self).slot_index_spec() == old(self).slot_index_spec(),
            final(self).slot_count_spec() == old(self).slot_count_spec(),
            final(self).group_spec() == old(self).group_spec(),
    {
        proof {
            use_type_invariant(&*self);
        }
        self.generation = self.generation + 1;
        self.should_recreate = false;
    }

    /// Whether an image of generation `generation` may be presented.
    pub fn check_present(&self, generation: u64) -> (r: Result<(), SwapchainError>)
        ensures
            r == present_check(self.generation_spec(), generation),
    {
        if generation != self.generation {
            return Err(SwapchainError::GenerationMismatch);
        }
        Ok(())
    }
}

} // verus!
