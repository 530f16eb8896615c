use vulka::gpu::frame_allocator::{FrameAllocator, FrameError, WaitPlan};

#[test]
fn first_frame_is_handed_out_once() {
    let mut allocator = FrameAllocator::new(7u32);
    assert_eq!(allocator.frames_in_flight(5), 0);
    assert_eq!(allocator.wait_until(1, 5, 9), Ok(WaitPlan::Ready));
    let mut asked = 0;
    assert_eq!(allocator.next_frame(|| -> Result<u32, String> { asked += 1; Ok(8) }), Ok(7));
    assert_eq!(asked, 0);
    assert_eq!(allocator.next_frame(|| -> Result<u32, String> { Ok(8) }), Ok(8));
    assert_eq!(allocator.next_frame(|| -> Result<u32, String> { Err("lost".to_string()) }), Err("lost".to_string()));
    assert_eq!(allocator.frames_in_flight(5), 5);
}

#[test]
fn pacing_after_the_first_frame() {
    let mut allocator = FrameAllocator::new(());
    allocator.next_frame(|| -> Result<(), ()> { Ok(()) }).unwrap();
    assert_eq!(allocator.wait_until(0, 0, 0), Err(FrameError::ZeroFramesInFlight));
    assert_eq!(allocator.wait_until(3, 2, 10), Ok(WaitPlan::Ready));
    assert_eq!(allocator.wait_until(3, 3, 10), Ok(WaitPlan::Until(8)));
    assert_eq!(allocator.wait_until(3, 4, 1), Ok(WaitPlan::Until(0)));
    assert_eq!(allocator.wait_until(1, 1, 10), Ok(WaitPlan::Until(10)));
}
