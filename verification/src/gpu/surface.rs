//! What a surface supports, and the swapchain settings chosen from it.

use vstd::prelude::*;

verus! {

/// `VK_FORMAT_R8G8B8A8_UNORM`.
pub const FORMAT_R8G8B8A8_UNORM: i32 = 37;
/// `VK_FORMAT_R8G8B8A8_SRGB`.
pub const FORMAT_R8G8B8A8_SRGB: i32 = 43;
/// `VK_FORMAT_B8G8R8A8_UNORM`.
pub const FORMAT_B8G8R8A8_UNORM: i32 = 44;
/// `VK_FORMAT_B8G8R8A8_SRGB`.
pub const FORMAT_B8G8R8A8_SRGB: i32 = 50;
/// `VK_COLOR_SPACE_SRGB_NONLINEAR_KHR`.
pub const COLOR_SPACE_SRGB_NONLINEAR: i32 = 0;
/// `VK_PRESENT_MODE_FIFO_KHR`.
pub const PRESENT_MODE_FIFO: i32 = 2;
/// `VK_COMPOSITE_ALPHA_OPAQUE_BIT_KHR`.
pub const COMPOSITE_ALPHA_OPAQUE: u32 = 0x1;
/// Every `VkCompositeAlphaFlagBitsKHR` bit.
pub const COMPOSITE_ALPHA_ALL: u32 = 0xf;

/// A width and a height in pixels.
#[derive(Debug, Clone, Copy, PartialEq, Eq, Structural)]
pub struct Extent2D {
    pub width: u32,
    pub height: u32,
}

/// The limits a surface reports.
#[derive(Debug, Clone, Copy, PartialEq, Eq, Structural)]
pub struct SurfaceCapabilities {
    pub min_image_count: u32,
    /// 0 when there is no maximum.
    pub max_image_count: u32,
    /// Both components are `u32::MAX` when the swapchain decides the extent.
    pub current_extent: Extent2D,
    pub min_image_extent: Extent2D,
    pub max_image_extent: Extent2D,
    /// `VkCompositeAlphaFlagsKHR` bits.
    pub supported_composite_alpha: u32,
    /// `VkSurfaceTransformFlagBitsKHR` bit.
    pub current_transform: u32,
}

/// A format and color space a surface supports.
#[derive(Debug, Clone, Copy, PartialEq, Eq, Structural)]
pub struct SurfaceFormat {
    pub format: i32,
    pub color_space: i32,
}

/// Why the surface cannot back a swapchain.
#[derive(Debug, Clone, Copy, PartialEq, Eq, Structural)]
pub enum SurfaceError {
    NoFormats,
    NoPresentModes,
    NoCompositeAlpha,
}

/// What a surface supports.
#[derive(Debug, Clone)]
pub struct SurfaceSupport {
    pub capabilities: SurfaceCapabilities,
    pub formats: Vec<SurfaceFormat>,
    pub present_modes: Vec<i32>,
}

/// `value` clamped into `[lo, hi]`.
pub open spec fn clamp(value: u32, lo: u32, hi: u32) -> u32 {
    if value < lo {
        lo
    } else if value > hi {
        hi
    } else {
        value
    }
}

/// The index of the first format with sRGB non-linear color space and
/// format `want`, if any.
pub open spec fn first_with_format(formats: Seq<SurfaceFormat>, want: i32, i: int) -> bool {
    &&& 0 <= i < formats.len()
    &&& formats[i].color_space == COLOR_SPACE_SRGB_NONLINEAR
    &&& formats[i].format == want
    &&& forall|j: int|
        0 <= j < i ==> !((#[trigger] formats[j]).color_space == COLOR_SPACE_SRGB_NONLINEAR
            && formats[j].format == want)
}

/// Some format has sRGB non-linear color space and format `want`.
pub open spec fn has_format(formats: Seq<SurfaceFormat>, want: i32) -> bool {
    exists|i: int|
        0 <= i < formats.len() && (#[trigger] formats[i]).color_space == COLOR_SPACE_SRGB_NONLINEAR
            && formats[i].format == want
}

/// The preferred sRGB non-linear format, in order: BGRA sRGB, RGBA sRGB,
/// BGRA unorm, RGBA unorm; the first matching entry of the list for the
/// first preference met.
pub open spec fn preferred_format(formats: Seq<SurfaceFormat>) -> Option<i32> {
    if has_format(formats, FORMAT_B8G8R8A8_SRGB) {
        Some(FORMAT_B8G8R8A8_SRGB)
    } else if has_format(formats, FORMAT_R8G8B8A8_SRGB) {
        Some(FORMAT_R8G8B8A8_SRGB)
    } else if has_format(formats, FORMAT_B8G8R8A8_UNORM) {
        Some(FORMAT_B8G8R8A8_UNORM)
    } else if has_format(formats, FORMAT_R8G8B8A8_UNORM) {
        Some(FORMAT_R8G8B8A8_UNORM)
    } else {
        None
    }
}

/// The lowest set bit of `bits`.
pub open spec fn lowest_bit(bits: u32) -> u32 {
    bits & (!bits).wrapping_add(1)
}

fn find_format(formats: &Vec<SurfaceFormat>, want: i32) -> (r: Option<SurfaceFormat>)
    ensures
        match r {
            Some(f) => exists|i: int| first_with_format(formats@, want, i) && f == formats@[i],
            None => !has_format(formats@, want),
        },
{
    let mut i: usize = 0;
    while i < formats.len()
        invariant
            i <= formats@.len(),
            forall|j: int|
                0 <= j < i ==> !((#[trigger] formats@[j]).color_space == COLOR_SPACE_SRGB_NONLINEAR
                    && formats@[j].format == want),
        decreases formats.len() - i,
    {
        let f = formats[i];
        if f.color_space == COLOR_SPACE_SRGB_NONLINEAR && f.format == want {
            proof {
                assert(first_with_format(formats@, want, i as int));
            }
            return Some(f);
        }
        i = i + 1;
    }
    None
}

impl SurfaceSupport {
    /// The supported formats.
    pub open spec fn formats_spec(&self) -> Seq<SurfaceFormat> {
        self.formats@
    }

    /// The support of a surface; fails when it offers no format.
    pub fn new(
        capabilities: SurfaceCapabilities,
        formats: Vec<SurfaceFormat>,
        present_modes: Vec<i32>,
    ) -> (r: Result<Self, SurfaceError>)
        ensures
            formats@.len() == 0 <==> r is Err,
            r matches Err(e) ==> e == SurfaceError::NoFormats,
            r matches Ok(s) ==> s.capabilities == capabilities && s.formats_spec() == formats@
                && s.present_modes@ == present_modes@,
    {
        if formats.len() == 0 {
            return Err(SurfaceError::NoFormats);
        }
        Ok(SurfaceSupport { capabilities, formats, present_modes })
    }

    /// One more image than the minimum, kept within the maximum when there
    /// is one. The reported minimum must leave room for one more and must
    /// not exceed a reported maximum.
    pub fn get_min_image_count(&self) -> (r: u32)
        requires
            self.capabilities.min_image_count < u32::MAX,
            self.capabilities.max_image_count != 0 ==> self.capabilities.min_image_count
                <= self.capabilities.max_image_count,
        ensures
            r == if self.capabilities.max_image_count == 0 {
                (self.capabilities.min_image_count + 1) as u32
            } else {
                clamp(
                    (self.capabilities.min_image_count + 1) as u32,
                    self.capabilities.min_image_count,
                    self.capabilities.max_image_count,
                )
            },
    {
        let min = self.capabilities.min_image_count;
        let max = self.capabilities.max_image_count;
        let count = min + 1;
        if max == 0 {
            count
        } else if count < min {
            min
        } else if count > max {
            max
        } else {
            count
        }
    }

    /// The preferred sRGB non-linear format, if the surface offers one.
    pub fn get_srbg_nonlinear_surface_format(&self) -> (r: Option<SurfaceFormat>)
        ensures
            match r {
                Some(f) => preferred_format(self.formats_spec()) == Some(f.format) && exists|i: int|
                    first_with_format(self.formats_spec(), f.format, i) && f
                        == self.formats_spec()[i],
                None => preferred_format(self.formats_spec()) is None,
            },
    {
        if let Some(f) = find_format(&self.formats, FORMAT_B8G8R8A8_SRGB) {
            return Some(f);
        }
        if let Some(f) = find_format(&self.formats, FORMAT_R8G8B8A8_SRGB) {
            return Some(f);
        }
        if let Some(f) = find_format(&self.formats, FORMAT_B8G8R8A8_UNORM) {
            return Some(f);
        }
        if let Some(f) = find_format(&self.formats, FORMAT_R8G8B8A8_UNORM) {
            return Some(f);
        }
        None
    }

    /// The preferred format, or else the first the surface offers.
    pub fn get_best_surface_format(&self) -> (r: SurfaceFormat)
        requires
            self.formats_spec().len() > 0,
        ensures
            match preferred_format(self.formats_spec()) {
                Some(want) => exists|i: int|
                    first_with_format(self.formats_spec(), want, i) && r == self.formats_spec()[i],
                None => r == self.formats_spec()[0],
            },
    {
        match self.get_srbg_nonlinear_surface_format() {
            Some(f) => f,
            None => self.formats[0],
        }
    }

    /// The current extent when the surface fixes it; otherwise `extent`
    /// clamped into the supported range, which must then not be inverted.
    pub fn get_clamped_extent(&self, extent: Extent2D) -> (r: Extent2D)
        requires
            self.capabilities.current_extent.width == u32::MAX
                && self.capabilities.current_extent.height == u32::MAX ==> {
                &&& self.capabilities.min_image_extent.width
                    <= self.capabilities.max_image_extent.width
                &&& self.capabilities.min_image_extent.height
                    <= self.capabilities.max_image_extent.height
            },
        ensures
            r == if self.capabilities.current_extent.width != u32::MAX
                || self.capabilities.current_extent.height != u32::MAX {
                self.capabilities.current_extent
            } else {
                Extent2D {
                    width: clamp(
                        extent.width,
                        self.capabilities.min_image_extent.width,
                        self.capabilities.max_image_extent.width,
                    ),
                    height: clamp(
                        extent.height,
                        self.capabilities.min_image_extent.height,
                        self.capabilities.max_image_extent.height,
                    ),
                }
            },
    {
        let current = self.capabilities.current_extent;
        if current.width != u32::MAX || current.height != u32::MAX {
            return current;
        }
        let lo = self.capabilities.min_image_extent;
        let hi = self.capabilities.max_image_extent;
        let width = if extent.width < lo.width {
            lo.width
        } else if extent.width > hi.width {
            hi.width
        } else {
            extent.width
        };
        let height = if extent.height < lo.height {
            lo.height
        } else if extent.height > hi.height {
            hi.height
        } else {
            extent.height
        };
        Extent2D { width, height }
    }

    /// FIFO when the surface offers it (it always should), else its first
    /// present mode; fails when it offers none.
    pub fn get_present_mode(&self) -> (r: Result<i32, SurfaceError>)
        ensures
            self.present_modes@.contains(PRESENT_MODE_FIFO) ==> r == Ok::<i32, SurfaceError>(
                PRESENT_MODE_FIFO,
            ),
            !self.present_modes@.contains(PRESENT_MODE_FIFO) ==> if self.present_modes@.len()
                == 0 {
                r == Err::<i32, SurfaceError>(SurfaceError::NoPresentModes)
            } else {
                r == Ok::<i32, SurfaceError>(self.present_modes@[0])
            },
    {
        let mut i: usize = 0;
        while i < self.present_modes.len()
            invariant
                i <= self.present_modes@.len(),
                forall|j: int| 0 <= j < i ==> self.present_modes@[j] != PRESENT_MODE_FIFO,
            decreases self.present_modes.len() - i,
        {
            if self.present_modes[i] == PRESENT_MODE_FIFO {
                return Ok(PRESENT_MODE_FIFO);
            }
            i = i + 1;
        }
        if self.present_modes.len() == 0 {
            return Err(SurfaceError::NoPresentModes);
        }
        Ok(self.present_modes[0])
    }

    /// Opaque when supported, else the lowest supported composite alpha bit;
    /// fails when none is supported or that bit is not a known flag.
    pub fn composite_alpha(&self) -> (r: Result<u32, SurfaceError>)
        ensures
            ({
                let bits = self.capabilities.supported_composite_alpha;
                if bits & COMPOSITE_ALPHA_OPAQUE == COMPOSITE_ALPHA_OPAQUE {
                    r == Ok::<u32, SurfaceError>(COMPOSITE_ALPHA_OPAQUE)
                } else if bits == 0 || lowest_bit(bits) & !COMPOSITE_ALPHA_ALL != 0 {
                    r == Err::<u32, SurfaceError>(SurfaceError::NoCompositeAlpha)
                } else {
                    r == Ok::<u32, SurfaceError>(lowest_bit(bits))
                }
            }),
    {
        let bits = self.capabilities.supported_composite_alpha;
        if bits & COMPOSITE_ALPHA_OPAQUE == COMPOSITE_ALPHA_OPAQUE {
            return Ok(COMPOSITE_ALPHA_OPAQUE);
        }
        if bits == 0 {
            return Err(SurfaceError::NoCompositeAlpha);
        }
        let lowest = bits & (!bits).wrapping_add(1);
        if lowest & !COMPOSITE_ALPHA_ALL != 0 {
            return Err(SurfaceError::NoCompositeAlpha);
        }
        Ok(lowest)
    }

    /// The surface's current transform.
    pub fn pre_transform(&self) -> (r: u32)
        ensures
            r == self.capabilities.current_transform,
    {
        self.capabilities.current_transform
    }
}

} // verus!
