//! Integer bookkeeping of the renderer: the surface size it is configured for
//! and the sizes of the half-resolution bloom targets.
use vstd::prelude::*;

verus! {

/// Pixel size the GPU surface and offscreen targets are configured for.
pub struct SurfaceSize {
    pub width: u32,
    pub height: u32,
}

impl SurfaceSize {
    /// Adopt a new canvas size: a size with a zero side is ignored, a changed
    /// size is taken. Returns whether the surface and targets must be rebuilt.
    pub fn resize_if_needed(&mut self, width: u32, height: u32) -> (changed: bool)
        ensures
            changed == (width != 0 && height != 0 && (width != old(self).width || height
                != old(self).height)),
            changed ==> final(self).width == width && final(self).height == height,
            !changed ==> final(self).width == old(self).width && final(self).height == old(
                self,
            ).height,
    {
        if width == 0 || height == 0 {
            return false;
        }
        if width != self.width || height != self.height {
            self.width = width;
            self.height = height;
            true
        } else {
            false
        }
    }
}

/// Half of a side length, at least one pixel.
pub open spec fn half_side(x: u32) -> u32 {
    let m = if x >= 1 { x } else { 1u32 };
    if m / 2 >= 1 { (m / 2) as u32 } else { 1u32 }
}

/// Size of the half-resolution bloom targets for a `width` x `height` scene.
pub fn bloom_size(width: u32, height: u32) -> (r: (u32, u32))
    ensures
        r.0 == half_side(width),
        r.1 == half_side(height),
        r.0 >= 1 && r.1 >= 1,
{
    let bw = if width >= 1 { width } else { 1 } / 2;
    let bh = if height >= 1 { height } else { 1 } / 2;
    (if bw >= 1 { bw } else { 1 }, if bh >= 1 { bh } else { 1 })
}

} // verus!
