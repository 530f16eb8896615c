use vulka::gpu::ids::QueueGroupId;
use vulka::gpu::surface::Extent2D;
use vulka::gpu::swapchain::{AcquireError, AcquireResult, SwapchainError, SwapchainState};
use vulka::vk::{
    ERROR_FULL_SCREEN_EXCLUSIVE_MODE_LOST_EXT, ERROR_OUT_OF_DATE_KHR, ERROR_SURFACE_LOST_KHR,
    NOT_READY, SUBOPTIMAL_KHR, SUCCESS, TIMEOUT,
};

#[test]
fn acquired_images_rotate_the_frame_slots() {
    let mut swapchain = SwapchainState::new(QueueGroupId(0), Extent2D { width: 800, height: 600 }, 2).unwrap();
    assert_eq!(swapchain.slot_index(), 0);
    assert_eq!(swapchain.acquire(AcquireResult::Acquired { index: 3, code: SUCCESS }), Ok(3));
    assert_eq!(swapchain.slot_index(), 1);
    assert_eq!(swapchain.acquire(AcquireResult::Acquired { index: 0, code: SUCCESS }), Ok(0));
    assert_eq!(swapchain.slot_index(), 0);
    assert_eq!(swapchain.acquire(AcquireResult::Acquired { index: 0, code: TIMEOUT }), Err(AcquireError::Timeout));
    assert_eq!(swapchain.slot_index(), 0);
    assert!(!swapchain.should_recreate());
}

#[test]
fn driver_answers_map_to_errors() {
    let mut swapchain = SwapchainState::new(QueueGroupId(0), Extent2D { width: 800, height: 600 }, 1).unwrap();
    assert_eq!(swapchain.acquire(AcquireResult::Acquired { index: 0, code: NOT_READY }), Err(AcquireError::NotReady));
    assert_eq!(swapchain.acquire(AcquireResult::Failed(ERROR_OUT_OF_DATE_KHR)), Err(AcquireError::RecreateSwapchain));
    assert_eq!(swapchain.acquire(AcquireResult::Failed(ERROR_SURFACE_LOST_KHR)), Err(AcquireError::RecreateSurface));
    assert_eq!(
        swapchain.acquire(AcquireResult::Failed(ERROR_FULL_SCREEN_EXCLUSIVE_MODE_LOST_EXT)),
        Err(AcquireError::RegainFullScreen)
    );
    assert_eq!(swapchain.acquire(AcquireResult::Failed(-2)), Err(AcquireError::Code(-2)));
    assert!(!swapchain.should_recreate());
    assert_eq!(
        swapchain.acquire(AcquireResult::Acquired { index: 1, code: SUBOPTIMAL_KHR }),
        Err(AcquireError::UnknownSuccessCode(SUBOPTIMAL_KHR))
    );
    assert!(swapchain.should_recreate());
}

#[test]
fn rebuilding_starts_a_new_generation() {
    let mut swapchain = SwapchainState::new(QueueGroupId(1), Extent2D { width: 800, height: 600 }, 2).unwrap();
    let extent = Extent2D { width: 640, height: 480 };
    assert_eq!(swapchain.check_recreate(QueueGroupId(2), extent), Err(SwapchainError::QueueGroupMismatch));
    assert_eq!(
        swapchain.check_recreate(QueueGroupId(1), Extent2D { width: 0, height: 480 }),
        Err(SwapchainError::ZeroExtent)
    );
    assert_eq!(swapchain.check_recreate(QueueGroupId(1), extent), Ok(()));
    swapchain.acquire(AcquireResult::Acquired { index: 0, code: SUBOPTIMAL_KHR }).unwrap_err();
    assert_eq!(swapchain.check_present(0), Ok(()));
    swapchain.recreated();
    assert_eq!(swapchain.generation(), 1);
    assert!(!swapchain.should_recreate());
    assert_eq!(swapchain.check_present(0), Err(SwapchainError::GenerationMismatch));
    assert_eq!(swapchain.check_present(1), Ok(()));
    assert_eq!(swapchain.queue_group_id(), QueueGroupId(1));
}

#[test]
fn a_swapchain_needs_an_extent_and_a_frame_in_flight() {
    let empty = Extent2D { width: 0, height: 600 };
    let extent = Extent2D { width: 800, height: 600 };
    assert_eq!(SwapchainState::new(QueueGroupId(0), empty, 0).unwrap_err(), SwapchainError::ZeroExtent);
    assert_eq!(
        SwapchainState::new(QueueGroupId(0), Extent2D { width: 800, height: 0 }, 2).unwrap_err(),
        SwapchainError::ZeroExtent
    );
    assert_eq!(SwapchainState::new(QueueGroupId(0), extent, 0).unwrap_err(), SwapchainError::NoFramesInFlight);
    let swapchain = SwapchainState::new(QueueGroupId(3), extent, 3).unwrap();
    assert_eq!(swapchain.queue_group_id(), QueueGroupId(3));
    assert_eq!(swapchain.generation(), 0);
    assert_eq!(swapchain.slot_index(), 0);
}
