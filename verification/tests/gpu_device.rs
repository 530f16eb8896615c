use vulka::gpu::device_select::{
    is_version_compatible, score_device, DeviceProfile, QueueFamilyPropertyInfo,
    PHYSICAL_DEVICE_TYPE_DISCRETE_GPU, PHYSICAL_DEVICE_TYPE_INTEGRATED_GPU,
};
use vulka::gpu::ids::{DeviceKind, QueueFamilyId};
use vulka::gpu::roles::QueueRoleFlags;
use vulka::gpu::surface::{
    Extent2D, SurfaceCapabilities, SurfaceError, SurfaceFormat, SurfaceSupport,
    COLOR_SPACE_SRGB_NONLINEAR, FORMAT_B8G8R8A8_SRGB, FORMAT_B8G8R8A8_UNORM,
    FORMAT_R8G8B8A8_SRGB, PRESENT_MODE_FIFO,
};

fn version(major: u32, minor: u32, patch: u32) -> u32 {
    (major << 22) | (minor << 12) | patch
}

fn family(flags: u32, count: u32, present: Option<bool>) -> QueueFamilyPropertyInfo {
    QueueFamilyPropertyInfo { queue_flags: flags, queue_count: count, supports_surface: present }
}

#[test]
fn version_check() {
    assert!(is_version_compatible(version(1, 3, 0)));
    assert!(is_version_compatible(version(1, 4, 2)));
    assert!(!is_version_compatible(version(1, 2, 9)));
}

#[test]
fn device_scores() {
    let profile = DeviceProfile {
        kind: None,
        roles: QueueRoleFlags::graphics().union(QueueRoleFlags::present()),
    };
    let families = vec![family(0x1 | 0x2, 2, Some(true)), family(0x4, 1, Some(false))];
    let score = score_device(4, &profile, version(1, 3, 0), PHYSICAL_DEVICE_TYPE_DISCRETE_GPU, &families)
        .unwrap();
    assert_eq!(score.id.0, 4);
    assert_eq!(score.kind, Some(DeviceKind::Discrete));
    assert_eq!(score.score, 4);
    assert_eq!(score.families.len(), 1);
    assert_eq!(score.families[0].id, QueueFamilyId(0));
    assert_eq!(score.families[0].count, 2);

    let compute_only = DeviceProfile { kind: None, roles: QueueRoleFlags::compute() };
    assert!(score_device(0, &compute_only, version(1, 3, 0), 0, &vec![family(0x1, 1, None)]).is_none());
    assert!(score_device(0, &profile, version(1, 1, 0), 0, &families).is_none());
    let integrated = DeviceProfile { kind: Some(DeviceKind::Integrated), roles: QueueRoleFlags::graphics() };
    assert!(score_device(0, &integrated, version(1, 3, 0), PHYSICAL_DEVICE_TYPE_DISCRETE_GPU, &families).is_none());
    assert!(score_device(0, &integrated, version(1, 3, 0), PHYSICAL_DEVICE_TYPE_INTEGRATED_GPU, &families).is_some());
}

fn capabilities(min: u32, max: u32, current: Extent2D, alpha: u32) -> SurfaceCapabilities {
    SurfaceCapabilities {
        min_image_count: min,
        max_image_count: max,
        current_extent: current,
        min_image_extent: Extent2D { width: 1, height: 1 },
        max_image_extent: Extent2D { width: 4096, height: 2048 },
        supported_composite_alpha: alpha,
        current_transform: 1,
    }
}

fn format(format: i32) -> SurfaceFormat {
    SurfaceFormat { format, color_space: COLOR_SPACE_SRGB_NONLINEAR }
}

#[test]
fn surface_choices() {
    let free = Extent2D { width: u32::MAX, height: u32::MAX };
    let support = SurfaceSupport::new(
        capabilities(2, 3, free, 0b0110),
        vec![format(FORMAT_B8G8R8A8_UNORM), format(FORMAT_R8G8B8A8_SRGB), format(FORMAT_B8G8R8A8_SRGB)],
        vec![0, PRESENT_MODE_FIFO],
    )
    .unwrap();
    assert_eq!(support.get_min_image_count(), 3);
    assert_eq!(support.get_best_surface_format().format, FORMAT_B8G8R8A8_SRGB);
    assert_eq!(
        support.get_clamped_extent(Extent2D { width: 5000, height: 0 }),
        Extent2D { width: 4096, height: 1 }
    );
    assert_eq!(support.get_present_mode(), Ok(PRESENT_MODE_FIFO));
    assert_eq!(support.composite_alpha(), Ok(0b0010));
    assert_eq!(support.pre_transform(), 1);

    let fixed = SurfaceSupport::new(
        capabilities(2, 2, Extent2D { width: 800, height: 600 }, 0),
        vec![format(100), format(FORMAT_B8G8R8A8_UNORM)],
        vec![],
    )
    .unwrap();
    assert_eq!(fixed.get_min_image_count(), 2);
    assert_eq!(fixed.get_best_surface_format().format, FORMAT_B8G8R8A8_UNORM);
    let odd = SurfaceSupport::new(capabilities(2, 0, free, 1), vec![format(100)], vec![1]).unwrap();
    assert!(odd.get_srbg_nonlinear_surface_format().is_none());
    assert_eq!(odd.get_best_surface_format().format, 100);
    assert_eq!(odd.get_present_mode(), Ok(1));
    assert_eq!(odd.get_min_image_count(), 3);
    assert_eq!(odd.composite_alpha(), Ok(1));
    assert_eq!(fixed.get_clamped_extent(Extent2D { width: 1, height: 1 }), Extent2D { width: 800, height: 600 });
    assert_eq!(fixed.get_present_mode(), Err(SurfaceError::NoPresentModes));
    assert_eq!(fixed.composite_alpha(), Err(SurfaceError::NoCompositeAlpha));
    assert_eq!(
        SurfaceSupport::new(capabilities(1, 0, free, 1), vec![], vec![]).unwrap_err(),
        SurfaceError::NoFormats
    );
}
