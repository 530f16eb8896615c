use vulka::gpu::extensions::{
    missing_device_features, missing_extensions, needs_portability, required_device_extensions,
    required_instance_extensions, supports,
};
use vulka::gpu::future::GpuFuture;
use vulka::gpu::future_set::GpuFutureSet;
use vulka::gpu::ids::{QueueFamilyId, QueueId};
use vulka::gpu::tokens::{LivenessToken, UsageToken};

fn names(list: &[&str]) -> Vec<String> {
    list.iter().map(|s| s.to_string()).collect()
}

fn qid(family: u32) -> QueueId {
    QueueId { family: QueueFamilyId(family), index: 0 }
}

#[test]
fn missing_extensions_keep_the_required_order() {
    let required = names(&["VK_KHR_swapchain", "VK_KHR_dynamic_rendering", "VK_EXT_debug_utils"]);
    let supported = names(&["VK_EXT_debug_utils", "VK_KHR_maintenance1"]);
    assert_eq!(
        missing_extensions(&required, &supported),
        names(&["VK_KHR_swapchain", "VK_KHR_dynamic_rendering"])
    );
    assert!(missing_extensions(&required, &required).is_empty());
    assert!(supports(&supported, "VK_KHR_maintenance1"));
    assert!(!supports(&supported, "VK_KHR_maintenance"));
}

#[test]
fn missing_device_features_by_name() {
    assert!(missing_device_features(true, true).is_empty());
    assert_eq!(missing_device_features(false, true), vec!["timelineSemaphore"]);
    assert_eq!(missing_device_features(true, false), vec!["synchronization2"]);
    assert_eq!(missing_device_features(false, false), vec!["timelineSemaphore", "synchronization2"]);
}

#[test]
fn future_set_keeps_one_future_per_queue() {
    let mut set = GpuFutureSet::new();
    set.add_if_not_present(GpuFuture::new(qid(0)));
    set.add_if_not_present(GpuFuture::new(qid(1)));
    set.add_if_not_present(GpuFuture::new(qid(0)));
    assert_eq!(set.len(), 2);
    assert!(set.has(qid(1)));
    assert!(!set.has(qid(2)));
    assert_eq!(set.get(qid(1)).queue_id(), qid(1));
    let taken = set.take_futures();
    assert_eq!(taken.len(), 2);
    assert_eq!(set.len(), 0);
}

#[test]
fn tokens_count_and_mark_use() {
    let mut usage = UsageToken::new();
    assert!(!usage.used);
    usage.consume();
    assert!(usage.used);
    let mut liveness = LivenessToken::new();
    let _first = liveness.guard();
    let _second = liveness.guard();
    assert_eq!(liveness.counter, 2);
}

#[test]
fn required_extensions_follow_the_platform() {
    assert_eq!(required_device_extensions(true), vec!["VK_KHR_swapchain"]);
    assert!(required_device_extensions(false).is_empty());
    assert!(needs_portability(true, 1, 3, 216));
    assert!(needs_portability(true, 1, 4, 0));
    assert!(!needs_portability(true, 1, 3, 215));
    assert!(!needs_portability(false, 1, 3, 280));
    let window = names(&["VK_KHR_xlib_surface"]);
    assert_eq!(
        required_instance_extensions(Some(&window), true),
        names(&[
            "VK_KHR_surface",
            "VK_KHR_xlib_surface",
            "VK_KHR_get_physical_device_properties2",
            "VK_KHR_portability_enumeration",
        ])
    );
    assert!(required_instance_extensions(None, false).is_empty());
}
