//! Choosing a physical device: which devices meet a profile, and how well
//! their queue families cover the roles asked for.

use vstd::prelude::*;
use crate::gpu::ids::{DeviceId, DeviceKind, QueueFamilyId};
use crate::gpu::roles::{role_count, QueueRoleFlags, ROLE_COMPUTE, ROLE_GRAPHICS, ROLE_PRESENT, ROLE_TRANSFER};
use crate::sort::{lemma_stable_sort_sorted, sort_by_key_stable, stable_sort_by_key, SortKey};

verus! {

/// `VK_PHYSICAL_DEVICE_TYPE_INTEGRATED_GPU`.
pub const PHYSICAL_DEVICE_TYPE_INTEGRATED_GPU: i32 = 1;

/// `VK_PHYSICAL_DEVICE_TYPE_DISCRETE_GPU`.
pub const PHYSICAL_DEVICE_TYPE_DISCRETE_GPU: i32 = 2;

/// The oldest Vulkan version accepted: 1.3.0.
pub const MIN_API_MAJOR: u32 = 1;
pub const MIN_API_MINOR: u32 = 3;
pub const MIN_API_PATCH: u32 = 0;

/// What a caller asks of a device: its kind, if it matters, and the queue
/// roles it must offer.
#[derive(Debug, Clone, Copy, Default)]
pub struct DeviceProfile {
    pub kind: Option<DeviceKind>,
    pub roles: QueueRoleFlags,
}

/// A queue family of a device and the roles it offers.
#[derive(Debug, Clone, Copy, PartialEq, Eq, Structural)]
pub struct QueueFamily {
    pub id: QueueFamilyId,
    pub roles: QueueRoleFlags,
    pub count: u32,
}

/// A queue family as Vulkan reports it, and whether it can present to the
/// surface (when there is one).
#[derive(Debug, Clone, Copy)]
pub struct QueueFamilyPropertyInfo {
    /// `VkQueueFlags` bits.
    pub queue_flags: u32,
    pub queue_count: u32,
    pub supports_surface: Option<bool>,
}

/// A device that meets a profile: its id, its score, its kind and the
/// families that offer a requested role, in index order.
#[derive(Debug, Clone)]
pub struct DeviceScore {
    pub id: DeviceId,
    pub score: u128,
    pub kind: Option<DeviceKind>,
    pub families: Vec<QueueFamily>,
}

/// The major number of a packed Vulkan version.
pub open spec fn version_major(version: u32) -> u32 {
    version >> 22u32
}

/// The minor number of a packed Vulkan version.
pub open spec fn version_minor(version: u32) -> u32 {
    (version >> 12u32) & 0x3ffu32
}

/// The patch number of a packed Vulkan version.
pub open spec fn version_patch(version: u32) -> u32 {
    version & 0xfffu32
}

/// A version is at least 1.3.0, comparing major, then minor, then patch.
pub open spec fn version_compatible(version: u32) -> bool {
    if version_major(version) != MIN_API_MAJOR {
        MIN_API_MAJOR <= version_major(version)
    } else if version_minor(version) != MIN_API_MINOR {
        MIN_API_MINOR <= version_minor(version)
    } else {
        MIN_API_PATCH <= version_patch(version)
    }
}

/// Whether the packed Vulkan `version` is at least 1.3.0.
pub fn is_version_compatible(version: u32) -> (r: bool)
    ensures
        r == version_compatible(version),
{
    let major = version >> 22u32;
    let minor = (version >> 12u32) & 0x3ffu32;
    let patch = version & 0xfffu32;
    if MIN_API_MAJOR != major {
        return MIN_API_MAJOR <= major;
    }
    if MIN_API_MINOR != minor {
        return MIN_API_MINOR <= minor;
    }
    MIN_API_PATCH <= patch
}

/// The kind of a device from its Vulkan device type.
pub open spec fn kind_of_type(device_type: i32) -> Option<DeviceKind> {
    if device_type == PHYSICAL_DEVICE_TYPE_INTEGRATED_GPU {
        Some(DeviceKind::Integrated)
    } else if device_type == PHYSICAL_DEVICE_TYPE_DISCRETE_GPU {
        Some(DeviceKind::Discrete)
    } else {
        None
    }
}

/// The roles of a family: its queue flags' roles, and present when it can
/// present to the surface.
pub open spec fn family_roles(info: QueueFamilyPropertyInfo) -> u8 {
    let base = (info.queue_flags & 0b0111u32) as u8;
    if info.supports_surface == Some(true) {
        base | ROLE_PRESENT
    } else {
        base
    }
}

/// The roles offered by the families, together.
pub open spec fn supported_roles(families: Seq<QueueFamilyPropertyInfo>) -> u8
    decreases families.len(),
{
    if families.len() == 0 {
        0
    } else {
        supported_roles(families.drop_last()) | family_roles(families.last())
    }
}

/// The score of the families: for each, the number of requested roles it
/// offers times its queue count.
pub open spec fn families_score(wanted: u8, families: Seq<QueueFamilyPropertyInfo>) -> nat
    decreases families.len(),
{
    if families.len() == 0 {
        0
    } else {
        families_score(wanted, families.drop_last()) + role_count(
            family_roles(families.last()) & wanted,
        ) * (families.last().queue_count as nat)
    }
}

/// Whether the family offers role `role` and the profile asks for it.
pub open spec fn offers_wanted(info: QueueFamilyPropertyInfo, wanted: u8, role: u8) -> bool {
    family_roles(info) & role != 0 && wanted & role != 0
}

/// How many of the four roles (graphics, compute, transfer, present) the
/// family offers that the profile asks for.
pub open spec fn wanted_roles_offered(info: QueueFamilyPropertyInfo, wanted: u8) -> nat {
    (if offers_wanted(info, wanted, ROLE_GRAPHICS) { 1nat } else { 0nat })
        + (if offers_wanted(info, wanted, ROLE_COMPUTE) { 1nat } else { 0nat })
        + (if offers_wanted(info, wanted, ROLE_TRANSFER) { 1nat } else { 0nat })
        + (if offers_wanted(info, wanted, ROLE_PRESENT) { 1nat } else { 0nat })
}

/// A family adds to a device's score the number of requested roles it
/// offers times its number of queues, whatever families come before it;
/// the score of a device is the sum of those of its families, however they
/// are split.
pub proof fn lemma_family_adds_roles_times_queues(
    wanted: u8,
    families: Seq<QueueFamilyPropertyInfo>,
    info: QueueFamilyPropertyInfo,
    more: Seq<QueueFamilyPropertyInfo>,
)
    ensures
        families_score(wanted, families.push(info)) == families_score(wanted, families)
            + wanted_roles_offered(info, wanted) * (info.queue_count as nat),
        families_score(wanted, seq![info]) == wanted_roles_offered(info, wanted) * (
        info.queue_count as nat),
        families_score(wanted, families + more) == families_score(wanted, families)
            + families_score(wanted, more),
    decreases more.len(),
{
    let roles = family_roles(info);
    assert((roles & wanted) & ROLE_GRAPHICS != 0 <==> (roles & ROLE_GRAPHICS != 0 && wanted
        & ROLE_GRAPHICS != 0)) by (bit_vector)
        requires
            ROLE_GRAPHICS == 1u8,
    ;
    assert((roles & wanted) & ROLE_COMPUTE != 0 <==> (roles & ROLE_COMPUTE != 0 && wanted
        & ROLE_COMPUTE != 0)) by (bit_vector)
        requires
            ROLE_COMPUTE == 2u8,
    ;
    assert((roles & wanted) & ROLE_TRANSFER != 0 <==> (roles & ROLE_TRANSFER != 0 && wanted
        & ROLE_TRANSFER != 0)) by (bit_vector)
        requires
            ROLE_TRANSFER == 4u8,
    ;
    assert((roles & wanted) & ROLE_PRESENT != 0 <==> (roles & ROLE_PRESENT != 0 && wanted
        & ROLE_PRESENT != 0)) by (bit_vector)
        requires
            ROLE_PRESENT == 8u8,
    ;
    assert(role_count(roles & wanted) == wanted_roles_offered(info, wanted));
    assert(families.push(info).drop_last() =~= families);
    assert(seq![info].drop_last() =~= Seq::<QueueFamilyPropertyInfo>::empty());
    assert(seq![info].last() == info);
    assert(families_score(wanted, Seq::<QueueFamilyPropertyInfo>::empty()) == 0);
    assert(families_score(wanted, seq![info]) == role_count(roles & wanted) * (
    info.queue_count as nat));
    if more.len() == 0 {
        assert(families + more =~= families);
    } else {
        let last = more.last();
        lemma_family_adds_roles_times_queues(wanted, families, last, more.drop_last());
        assert((families + more).drop_last() =~= families + more.drop_last());
        assert((families + more).last() == last);
    }
}

/// The families that offer a requested role, with their ids and roles, in
/// index order.
pub open spec fn kept_families(wanted: u8, families: Seq<QueueFamilyPropertyInfo>) -> Seq<
    QueueFamily,
>
    decreases families.len(),
{
    if families.len() == 0 {
        Seq::empty()
    } else {
        let rest = kept_families(wanted, families.drop_last());
        let info = families.last();
        if family_roles(info) & wanted == 0 {
            rest
        } else {
            rest.push(
                QueueFamily {
                    id: QueueFamilyId((families.len() - 1) as u32),
                    roles: QueueRoleFlags { bits: family_roles(info) },
                    count: info.queue_count,
                },
            )
        }
    }
}

/// The device meets the profile: a compatible version, the requested kind
/// (when one is requested), and every requested role offered by some family.
pub open spec fn device_accepted(
    profile: DeviceProfile,
    api_version: u32,
    device_type: i32,
    families: Seq<QueueFamilyPropertyInfo>,
) -> bool {
    &&& version_compatible(api_version)
    &&& match profile.kind {
        Some(k) => kind_of_type(device_type) == Some(k),
        None => true,
    }
    &&& profile.roles.bits & !supported_roles(families) == 0
}

/// Scores device `index` against `profile`: `None` when it does not meet
/// the profile; otherwise its score, kind and the families that offer a
/// requested role.
pub fn score_device(
    index: usize,
    profile: &DeviceProfile,
    api_version: u32,
    device_type: i32,
    families: &Vec<QueueFamilyPropertyInfo>,
) -> (r: Option<DeviceScore>)
    ensures
        r is Some <==> device_accepted(*profile, api_version, device_type, families@),
        r matches Some(d) ==> {
            &&& d.id.0 == index
            &&& d.kind == kind_of_type(device_type)
            &&& d.score == families_score(profile.roles.bits, families@)
            &&& d.families@ == kept_families(profile.roles.bits, families@)
        },
{
    if !is_version_compatible(api_version) {
        return None;
    }
    let kind = if device_type == PHYSICAL_DEVICE_TYPE_INTEGRATED_GPU {
        Some(DeviceKind::Integrated)
    } else if device_type == PHYSICAL_DEVICE_TYPE_DISCRETE_GPU {
        Some(DeviceKind::Discrete)
    } else {
        None
    };
    match profile.kind {
        Some(wanted) => match kind {
            Some(k) => {
                if wanted != k {
                    return None;
                }
            },
            None => {
                return None;
            },
        },
        None => {},
    }
    let mut score: u128 = 0;
    let mut supported = QueueRoleFlags::empty();
    let mut kept: Vec<QueueFamily> = Vec::new();
    let mut i: usize = 0;
    while i < families.len()
        invariant
            i <= families@.len(),
            score == families_score(profile.roles.bits, families@.take(i as int)),
            score <= i * 0x4_0000_0000,
            supported.bits == supported_roles(families@.take(i as int)),
            kept@ == kept_families(profile.roles.bits, families@.take(i as int)),
        decreases families.len() - i,
    {
        let info = families[i];
        proof {
            assert(families@.take(i as int + 1).drop_last() =~= families@.take(i as int));
            assert(families@.take(i as int + 1).last() == info);
            assert(families_score(profile.roles.bits, families@.take(i as int + 1)) == families_score(
                profile.roles.bits,
                families@.take(i as int),
            ) + role_count(family_roles(info) & profile.roles.bits) * (info.queue_count as nat));
        }
        let mut queue_flags = QueueRoleFlags::from_queue_flags(info.queue_flags);
        if info.supports_surface == Some(true) {
            queue_flags = queue_flags.union(QueueRoleFlags::present());
        }
        proof {
            assert(queue_flags.bits == family_roles(info)) by {
                let f = info.queue_flags;
                assert((f & 0b0111u32) as u8 as u32 == f & 0b0111u32) by (bit_vector);
            }
        }
        supported = supported.union(queue_flags);
        let intersection = queue_flags.intersection(profile.roles);
        if !intersection.is_empty() {
            let n = intersection.count();
            proof {
                assert(n <= 4);
                assert(n * info.queue_count <= 4 * 0xffff_ffff) by (nonlinear_arith)
                    requires
                        n <= 4,
                        info.queue_count <= 0xffff_ffff,
                ;
            }
            score = score + (n as u128) * (info.queue_count as u128);
            kept.push(
                QueueFamily { id: QueueFamilyId::from_usize(i), count: info.queue_count, roles: queue_flags },
            );
        } else {
            proof {
                assert(role_count(intersection.bits) == 0) by {
                    assert(intersection.bits == 0);
                    assert(0u8 & 1u8 == 0u8 && 0u8 & 2u8 == 0u8 && 0u8 & 4u8 == 0u8 && 0u8 & 8u8 == 0u8)
                        by (bit_vector);
                }
            }
        }
        i = i + 1;
    }
    proof {
        assert(families@.take(i as int) =~= families@);
    }
    if profile.roles.bits & !supported.bits != 0 {
        return None;
    }
    Some(DeviceScore { id: DeviceId::from_usize(index), score, kind, families: kept })
}

impl SortKey for DeviceScore {
    /// Devices rank by descending score.
    open spec fn sort_key(&self) -> u128 {
        (u128::MAX - self.score) as u128
    }

    fn key(&self) -> (r: u128) {
        u128::MAX - self.score
    }
}

/// The accepted devices, best score first; devices of equal score keep
/// their enumeration order.
pub fn rank_devices(devices: Vec<DeviceScore>) -> (r: Vec<DeviceScore>)
    ensures
        r@ == stable_sort_by_key(devices@),
        forall|i: int, j: int| 0 <= i < j < r@.len() ==> r@[i].score >= r@[j].score,
        r@.to_multiset() == devices@.to_multiset(),
{
    proof {
        lemma_stable_sort_sorted(devices@);
    }
    sort_by_key_stable(devices)
}

/// The best of the ranked devices, if any.
pub fn best_device(devices: Vec<DeviceScore>) -> (r: Option<DeviceScore>)
    ensures
        devices@.len() == 0 ==> r is None,
        devices@.len() > 0 ==> r == Some(stable_sort_by_key(devices@)[0]),
{
    let mut ranked = rank_devices(devices);
    ranked.truncate(1);
    ranked.pop()
}

} // verus!
