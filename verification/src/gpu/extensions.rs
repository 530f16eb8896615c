//! What a Vulkan instance or device lacks of what the renderer needs: the
//! required extensions it does not support, and the device features it
//! does not offer.

use vstd::prelude::*;
use crate::text::str_eq;

verus! {

/// Whether `name` is among `supported`.
pub open spec fn is_supported(supported: Seq<Seq<char>>, name: Seq<char>) -> bool {
    exists|i: int| 0 <= i < supported.len() && supported[i] == name
}

/// The required names that `supported` lacks, in the order they are required.
pub open spec fn missing_of(required: Seq<Seq<char>>, supported: Seq<Seq<char>>) -> Seq<Seq<char>> {
    required.filter(|name: Seq<char>| !is_supported(supported, name))
}

/// The names as character sequences.
pub open spec fn names_of(v: Seq<String>) -> Seq<Seq<char>> {
    v.map_values(|s: String| s@)
}

/// Whether `name` is among `supported`.
pub fn supports(supported: &Vec<String>, name: &str) -> (r: bool)
    ensures
        r == is_supported(names_of(supported@), name@),
{
    let mut i: usize = 0;
    while i < supported.len()
        invariant
            i <= supported@.len(),
            forall|k: int| 0 <= k < i ==> (#[trigger] supported@[k])@ != name@,
        decreases supported.len() - i,
    {
        if str_eq(supported[i].as_str(), name) {
            proof {
                assert(names_of(supported@)[i as int] == name@);
            }
            return true;
        }
        i = i + 1;
    }
    proof {
        assert forall|k: int| 0 <= k < names_of(supported@).len() implies names_of(supported@)[k]
            != name@ by {
            assert(names_of(supported@)[k] == supported@[k]@);
        }
    }
    false
}

/// The required extensions that the supported ones lack, in the order they
/// are required.
pub fn missing_extensions(required: &Vec<String>, supported: &Vec<String>) -> (r: Vec<String>)
    ensures
        names_of(r@) == missing_of(names_of(required@), names_of(supported@)),
{
    let mut missing: Vec<String> = Vec::new();
    let mut i: usize = 0;
    while i < required.len()
        invariant
            i <= required@.len(),
            names_of(missing@) == missing_of(names_of(required@).take(i as int), names_of(supported@)),
        decreases required.len() - i,
    {
        proof {
            let taken = names_of(required@).take(i as int + 1);
            assert(taken.drop_last() =~= names_of(required@).take(i as int));
            reveal_with_fuel(Seq::filter, 1);
        }
        if !supports(supported, required[i].as_str()) {
            missing.push(required[i].clone());
            proof {
                assert(names_of(missing@) =~= missing_of(
                    names_of(required@).take(i as int),
                    names_of(supported@),
                ).push(required@[i as int]@));
            }
        } else {
            proof {
                assert(names_of(missing@) =~= missing_of(
                    names_of(required@).take(i as int),
                    names_of(supported@),
                ));
            }
        }
        i = i + 1;
    }
    proof {
        assert(names_of(required@).take(i as int) =~= names_of(required@));
    }
    missing
}

/// The device extensions the renderer needs: the swapchain extension when it
/// presents to a surface, and none otherwise.
pub fn required_device_extensions(has_surface: bool) -> (r: Vec<&'static str>)
    ensures
        r@.len() == (if has_surface { 1int } else { 0int }),
        has_surface ==> r@[0]@ == "VK_KHR_swapchain"@,
{
    let mut extensions: Vec<&'static str> = Vec::new();
    if has_surface {
        extensions.push("VK_KHR_swapchain");
    }
    extensions
}

/// Whether the Vulkan loader of version `major.minor.patch` needs the
/// portability extensions: on macOS, from 1.3.216 on.
pub open spec fn portability_needed(is_macos: bool, major: u32, minor: u32, patch: u32) -> bool {
    is_macos && (major > 1 || (major == 1 && (minor > 3 || (minor == 3 && patch >= 216))))
}

/// Whether the Vulkan loader needs the portability extensions.
pub fn needs_portability(is_macos: bool, major: u32, minor: u32, patch: u32) -> (r: bool)
    ensures
        r == portability_needed(is_macos, major, minor, patch),
{
    is_macos && (major > 1 || (major == 1 && (minor > 3 || (minor == 3 && patch >= 216))))
}

/// The instance extensions the renderer needs, in order: for a window, the
/// surface extension and the window system's own; then, where the loader
/// needs them, the two portability extensions.
pub open spec fn instance_extensions_spec(window: Option<Seq<Seq<char>>>, portability: bool) -> Seq<
    Seq<char>,
> {
    let surface = match window {
        Some(extensions) => seq!["VK_KHR_surface"@] + extensions,
        None => Seq::empty(),
    };
    if portability {
        surface + seq!["VK_KHR_get_physical_device_properties2"@, "VK_KHR_portability_enumeration"@]
    } else {
        surface
    }
}

/// The instance extensions the renderer needs; `window` holds the
/// extensions the window system asks for, when there is a window.
pub fn required_instance_extensions(window: Option<&Vec<String>>, portability: bool) -> (r: Vec<
    String,
>)
    ensures
        names_of(r@) == instance_extensions_spec(
            match window {
                Some(w) => Some(names_of(w@)),
                None => None,
            },
            portability,
        ),
{
    let mut required: Vec<String> = Vec::new();
    if let Some(extensions) = window {
        required.push(String::from_str("VK_KHR_surface"));
        proof {
            assert(names_of(required@) =~= seq!["VK_KHR_surface"@]);
            assert(names_of(extensions@).take(0) =~= Seq::<Seq<char>>::empty());
            assert(seq!["VK_KHR_surface"@] + Seq::<Seq<char>>::empty() =~= seq!["VK_KHR_surface"@]);
        }
        let mut i: usize = 0;
        while i < extensions.len()
            invariant
                i <= extensions@.len(),
                names_of(required@) == seq!["VK_KHR_surface"@] + names_of(extensions@).take(i as int),
            decreases extensions.len() - i,
        {
            let ghost before = required@;
            required.push(extensions[i].clone());
            proof {
                assert(names_of(required@) =~= names_of(before).push(extensions@[i as int]@));
                assert(names_of(extensions@).take(i as int + 1) =~= names_of(extensions@).take(
                    i as int,
                ).push(extensions@[i as int]@));
                assert(names_of(required@) =~= seq!["VK_KHR_surface"@] + names_of(extensions@).take(
                    i as int + 1,
                ));
            }
            i = i + 1;
        }
        proof {
            assert(names_of(extensions@).take(i as int) =~= names_of(extensions@));
        }
    }
    let ghost surface = names_of(required@);
    if portability {
        let ghost before = required@;
        required.push(String::from_str("VK_KHR_get_physical_device_properties2"));
        let ghost middle = required@;
        required.push(String::from_str("VK_KHR_portability_enumeration"));
        proof {
            assert(names_of(middle) =~= names_of(before).push("VK_KHR_get_physical_device_properties2"@));
            assert(names_of(required@) =~= names_of(middle).push("VK_KHR_portability_enumeration"@));
            assert(names_of(required@) =~= surface + seq![
                "VK_KHR_get_physical_device_properties2"@,
                "VK_KHR_portability_enumeration"@,
            ]);
        }
    }
    proof {
        if window is None {
            assert(surface =~= Seq::<Seq<char>>::empty());
        }
    }
    required
}

/// The device features the renderer needs that the device does not offer,
/// by their Vulkan names: timeline semaphores, then synchronization2.
pub fn missing_device_features(timeline_semaphore: bool, synchronization2: bool) -> (r: Vec<&'static str>)
    ensures
        r@.len() == (if timeline_semaphore { 0int } else { 1int }) + (if synchronization2 {
            0int
        } else {
            1int
        }),
        !timeline_semaphore ==> r@[0]@ == "timelineSemaphore"@,
        !synchronization2 ==> r@[r@.len() - 1]@ == "synchronization2"@,
{
    let mut missing: Vec<&'static str> = Vec::new();
    if !timeline_semaphore {
        missing.push("timelineSemaphore");
    }
    if !synchronization2 {
        missing.push("synchronization2");
    }
    missing
}

} // verus!
