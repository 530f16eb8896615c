//! The depth attachment format: the first of the renderer's candidates that
//! the device can use as a depth attachment with optimal tiling.

use vstd::prelude::*;
use crate::vk::{
    FORMAT_D24_UNORM_S8_UINT, FORMAT_D32_SFLOAT, FORMAT_D32_SFLOAT_S8_UINT,
    FORMAT_FEATURE_DEPTH_STENCIL_ATTACHMENT,
};

verus! {

/// The depth formats the renderer can use, the most preferred first.
pub open spec fn depth_candidates() -> Seq<i32> {
    seq![FORMAT_D32_SFLOAT, FORMAT_D32_SFLOAT_S8_UINT, FORMAT_D24_UNORM_S8_UINT]
}

/// The format features allow a depth attachment.
pub open spec fn allows_depth(features: u32) -> bool {
    features & FORMAT_FEATURE_DEPTH_STENCIL_ATTACHMENT == FORMAT_FEATURE_DEPTH_STENCIL_ATTACHMENT
}

/// The first candidate from position `from` on whose features allow a depth
/// attachment.
pub open spec fn first_depth_from(features: Seq<u32>, from: int) -> Option<i32>
    decreases features.len() - from,
{
    if from < 0 || from >= features.len() {
        None
    } else if allows_depth(features[from]) {
        Some(depth_candidates()[from])
    } else {
        first_depth_from(features, from + 1)
    }
}

/// The candidate depth formats, the most preferred first.
pub fn depth_format_candidates() -> (r: Vec<i32>)
    ensures
        r@ == depth_candidates(),
{
    let r = vec![FORMAT_D32_SFLOAT, FORMAT_D32_SFLOAT_S8_UINT, FORMAT_D24_UNORM_S8_UINT];
    assert(r@ =~= depth_candidates());
    r
}

/// The first candidate whose optimal-tiling features allow a depth
/// attachment, if any; `features[i]` are the features the device reports for
/// the `i`-th candidate.
pub fn select_depth_format(features: &Vec<u32>) -> (r: Option<i32>)
    requires
        features@.len() == depth_candidates().len(),
    ensures
        r == first_depth_from(features@, 0),
{
    let candidates = depth_format_candidates();
    let mut i: usize = 0;
    while i < features.len()
        invariant
            features@.len() == depth_candidates().len(),
            candidates@ == depth_candidates(),
            i <= features@.len(),
            first_depth_from(features@, 0) == first_depth_from(features@, i as int),
        decreases features.len() - i,
    {
        if features[i] & FORMAT_FEATURE_DEPTH_STENCIL_ATTACHMENT == FORMAT_FEATURE_DEPTH_STENCIL_ATTACHMENT {
            return Some(candidates[i]);
        }
        i = i + 1;
    }
    None
}

} // verus!
