use vstd::prelude::*;

verus! {

/// A placed region of a surface, in pixels.  `left` and `bottom` locate
/// the corner nearest the surface origin; the region covers the texels
/// `[left, left + width) x [bottom, bottom + height)`.
#[derive(Clone, Copy, Debug, PartialEq, Eq, Structural)]
pub struct Rect {
    pub left: u32,
    pub bottom: u32,
    pub width: u32,
    pub height: u32,
}

/// Two rectangles overlap when they share at least one texel.  A
/// zero-area rectangle covers no texel and so overlaps nothing.
pub open spec fn overlaps(a: Rect, b: Rect) -> bool {
    &&& vstd::math::max(a.left as int, b.left as int)
        < vstd::math::min(a.left + a.width, b.left + b.width)
    &&& vstd::math::max(a.bottom as int, b.bottom as int)
        < vstd::math::min(a.bottom + a.height, b.bottom + b.height)
}

/// The rectangle lies inside a surface of the given dimensions.
pub open spec fn within(r: Rect, width: u32, height: u32) -> bool {
    r.left + r.width <= width && r.bottom + r.height <= height
}

} // verus!
