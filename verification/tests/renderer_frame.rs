use vulka::renderer::depth::{depth_format_candidates, select_depth_format};
use vulka::vk::{FORMAT_D24_UNORM_S8_UINT, FORMAT_D32_SFLOAT, FORMAT_D32_SFLOAT_S8_UINT};
use vulka::renderer::frame::{
    acquire_action, present_needs_recreate, AcquireAction, FrameLayouts, LayoutTransition,
    SurfaceStatus,
};
use vulka::vk::{
    ACCESS_2_DEPTH_STENCIL_ATTACHMENT_WRITE, ACCESS_2_NONE, IMAGE_LAYOUT_COLOR_ATTACHMENT_OPTIMAL,
    IMAGE_LAYOUT_DEPTH_ATTACHMENT_OPTIMAL, IMAGE_LAYOUT_PRESENT_SRC_KHR, IMAGE_LAYOUT_UNDEFINED,
    PIPELINE_STAGE_2_BOTTOM_OF_PIPE, PIPELINE_STAGE_2_EARLY_FRAGMENT_TESTS,
    PIPELINE_STAGE_2_TOP_OF_PIPE,
};

#[test]
fn first_frame_starts_from_undefined() {
    let layouts = FrameLayouts::new(3);
    assert_eq!(layouts.image_count(), 3);
    let plan = layouts.plan(1).unwrap();
    assert_eq!(plan.color.old_layout, IMAGE_LAYOUT_UNDEFINED);
    assert_eq!(plan.color.new_layout, IMAGE_LAYOUT_COLOR_ATTACHMENT_OPTIMAL);
    assert_eq!(plan.color.src_stage, PIPELINE_STAGE_2_TOP_OF_PIPE);
    assert_eq!(plan.depth.old_layout, IMAGE_LAYOUT_UNDEFINED);
    assert_eq!(plan.depth.src_stage, PIPELINE_STAGE_2_TOP_OF_PIPE);
    assert_eq!(plan.depth.src_access, ACCESS_2_NONE);
    assert_eq!(plan.present.new_layout, IMAGE_LAYOUT_PRESENT_SRC_KHR);
    assert!(layouts.plan(3).is_none());
}

#[test]
fn finished_frame_sets_up_the_next() {
    let mut layouts = FrameLayouts::new(2);
    layouts.finish(0);
    let again = layouts.plan(0).unwrap();
    assert_eq!(
        again.color,
        LayoutTransition {
            old_layout: IMAGE_LAYOUT_PRESENT_SRC_KHR,
            new_layout: IMAGE_LAYOUT_COLOR_ATTACHMENT_OPTIMAL,
            src_stage: PIPELINE_STAGE_2_BOTTOM_OF_PIPE,
            src_access: ACCESS_2_NONE,
            dst_stage: again.color.dst_stage,
            dst_access: again.color.dst_access,
        }
    );
    assert_eq!(again.depth.old_layout, IMAGE_LAYOUT_DEPTH_ATTACHMENT_OPTIMAL);
    assert_eq!(again.depth.src_stage, PIPELINE_STAGE_2_EARLY_FRAGMENT_TESTS);
    assert_eq!(again.depth.src_access, ACCESS_2_DEPTH_STENCIL_ATTACHMENT_WRITE);
    let other = layouts.plan(1).unwrap();
    assert_eq!(other.color.old_layout, IMAGE_LAYOUT_UNDEFINED);
    // an index past the images still moves the depth image on
    let mut fresh = FrameLayouts::new(1);
    fresh.finish(5);
    assert_eq!(fresh.plan(0).unwrap().color.old_layout, IMAGE_LAYOUT_UNDEFINED);
    assert_eq!(fresh.plan(0).unwrap().depth.old_layout, IMAGE_LAYOUT_DEPTH_ATTACHMENT_OPTIMAL);
}

#[test]
fn swapchain_results() {
    assert_eq!(acquire_action(SurfaceStatus::Success), Ok(AcquireAction::Render));
    assert_eq!(acquire_action(SurfaceStatus::Suboptimal), Ok(AcquireAction::RenderAndRecreate));
    assert_eq!(acquire_action(SurfaceStatus::OutOfDate), Ok(AcquireAction::SkipAndRecreate));
    assert_eq!(acquire_action(SurfaceStatus::Failed(-4)), Err(-4));
    assert_eq!(present_needs_recreate(SurfaceStatus::Success), Ok(false));
    assert_eq!(present_needs_recreate(SurfaceStatus::Suboptimal), Ok(true));
    assert_eq!(present_needs_recreate(SurfaceStatus::OutOfDate), Ok(true));
    assert_eq!(present_needs_recreate(SurfaceStatus::Failed(-3)), Err(-3));
}

#[test]
fn depth_format_is_the_first_usable_candidate() {
    assert_eq!(depth_format_candidates(), vec![FORMAT_D32_SFLOAT, FORMAT_D32_SFLOAT_S8_UINT, FORMAT_D24_UNORM_S8_UINT]);
    assert_eq!(select_depth_format(&vec![0x201, 0x200, 0x200]), Some(FORMAT_D32_SFLOAT));
    assert_eq!(select_depth_format(&vec![0x1, 0x0, 0x3ff]), Some(FORMAT_D24_UNORM_S8_UINT));
    assert_eq!(select_depth_format(&vec![0x1ff, 0x0, 0x400]), None);
}
