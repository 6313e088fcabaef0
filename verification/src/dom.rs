//! Canvas backing-size policy.
use vstd::prelude::*;

verus! {

/// Backing-store side length for a canvas side of `device_px` device pixels:
/// at least one pixel and at most the GPU's largest texture side `max_dim`.
pub fn canvas_backing_dim(device_px: u32, max_dim: u32) -> (r: u32)
    requires
        max_dim >= 1,
    ensures
        r == if device_px < 1 {
            1
        } else if device_px > max_dim {
            max_dim
        } else {
            device_px
        },
{
    if device_px < 1 {
        1
    } else if device_px > max_dim {
        max_dim
    } else {
        device_px
    }
}

} // verus!
