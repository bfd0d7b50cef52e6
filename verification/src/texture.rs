use crate::backend::{AtlasError, Backend, SurfaceHandle};
use crate::rect::{overlaps, within, Rect};
use vstd::prelude::*;

verus! {

/// One fixed-size bitmap surface with shelf-packing state.
///
/// Sprites are placed left to right along the current row, starting from
/// the surface origin.  When a request no longer fits horizontally the
/// cursor commits to a fresh row above, sized by the tallest sprite of
/// the row just closed; the unused tail of the old row is lost for good.
/// Space is never reclaimed.
#[derive(Clone, Copy)]
pub struct Texture {
    /// The backend surface this texture writes into.
    pub handle: SurfaceHandle,
    /// Width of the surface in pixels.
    pub width: u32,
    /// Height of the surface in pixels.
    pub height: u32,
    /// Base of the current row: all earlier rows end at or below it.
    pub bottom: u32,
    /// Height of the tallest sprite placed on the current row.
    pub tallest: u32,
    /// How far along the current row the next sprite would go.
    pub left: u32,
    /// Every rectangle handed out by this texture, oldest first.
    pub placed: Ghost<Seq<Rect>>,
}

impl Texture {
    /// The packing invariant: the cursor stays inside the surface, and
    /// every rectangle handed out lies inside it, is accounted for by
    /// the cursor, and overlaps no other.
    pub open spec fn wf(self) -> bool {
        &&& self.left <= self.width
        &&& self.bottom + self.tallest <= self.height
        &&& forall|k: int|
            0 <= k < self.placed@.len() ==> self.settled(#[trigger] self.placed@[k])
        &&& forall|j: int, k: int|
            0 <= j < k < self.placed@.len() ==> !overlaps(self.placed@[j], self.placed@[k])
    }

    /// A rectangle the cursor accounts for: inside the surface, and
    /// either on a row closed below the current one, or on the current
    /// row, left of the write position and no taller than its tallest.
    pub open spec fn settled(self, r: Rect) -> bool {
        &&& within(r, self.width, self.height)
        &&& (r.bottom + r.height <= self.bottom || (r.bottom == self.bottom && r.left + r.width
            <= self.left && r.height <= self.tallest))
    }

    /// The space left on the current row cannot take the request, so
    /// reserving it commits to a fresh row.
    pub open spec fn row_advances(self, width: u32) -> bool {
        self.width - self.left < width
    }

    /// Base of the row the request would be placed on.
    pub open spec fn row_base(self, width: u32) -> int {
        if self.row_advances(width) {
            self.bottom + self.tallest
        } else {
            self.bottom as int
        }
    }

    /// Left edge the request would be placed at.
    pub open spec fn row_left(self, width: u32) -> int {
        if self.row_advances(width) {
            0
        } else {
            self.left as int
        }
    }

    /// Tallest sprite on the row the request would be placed on, before
    /// the request itself is counted.
    pub open spec fn row_tallest(self, width: u32) -> int {
        if self.row_advances(width) {
            0
        } else {
            self.tallest as int
        }
    }

    /// Whether a reservation succeeds on this texture in its current
    /// state: the request fits the surface at all, and the row it would
    /// go on leaves it enough vertical room.
    pub open spec fn fits(self, width: u32, height: u32) -> bool {
        &&& width <= self.width
        &&& height <= self.height
        &&& self.row_base(width) + height <= self.height
    }

    /// The rectangle a successful reservation hands out.
    pub open spec fn spot(self, width: u32, height: u32) -> Rect {
        Rect {
            left: self.row_left(width) as u32,
            bottom: self.row_base(width) as u32,
            width,
            height,
        }
    }
}

/// How a successful reservation changes a texture: the rectangle is the
/// current spot, the cursor moves right past it, the row remembers its
/// tallest sprite, and the rectangle joins the record of placements.
pub open spec fn reserve_placed(pre: Texture, post: Texture, width: u32, height: u32, r: Rect) -> bool {
    &&& r == pre.spot(width, height)
    &&& post.handle == pre.handle
    &&& post.width == pre.width
    &&& post.height == pre.height
    &&& post.bottom == pre.row_base(width)
    &&& post.left == pre.row_left(width) + width
    &&& post.tallest == vstd::math::max(pre.row_tallest(width), height as int)
    &&& post.placed@ == pre.placed@.push(r)
}

/// How a failed reservation changes a texture: an oversize request
/// leaves it untouched; otherwise the cursor may have committed to a
/// fresh row before the vertical check failed.  Nothing is placed.
pub open spec fn reserve_missed(pre: Texture, post: Texture, width: u32, height: u32) -> bool {
    &&& post.handle == pre.handle
    &&& post.width == pre.width
    &&& post.height == pre.height
    &&& post.placed@ == pre.placed@
    &&& if width <= pre.width && height <= pre.height {
        &&& post.bottom == pre.row_base(width)
        &&& post.left == pre.row_left(width)
        &&& post.tallest == pre.row_tallest(width)
    } else {
        post == pre
    }
}

/// The texture's handle is a live surface of the backend, with the
/// texture's dimensions.
pub open spec fn tex_registered(t: Texture, surfaces: Map<SurfaceHandle, (u32, u32)>) -> bool {
    surfaces.dom().contains(t.handle) && surfaces[t.handle] == (t.width, t.height)
}

impl Texture {
    /// Create a texture over a fresh backend surface of the given size,
    /// with an empty packing state.
    pub fn new<B: Backend>(backend: &mut B, width: u32, height: u32) -> (r: Result<
        Texture,
        AtlasError,
    >)
        ensures
            match r {
                Ok(t) => {
                    &&& t.wf()
                    &&& t.width == width
                    &&& t.height == height
                    &&& t.bottom == 0 && t.left == 0 && t.tallest == 0
                    &&& t.placed@ == Seq::<Rect>::empty()
                    &&& !old(backend).surfaces().dom().contains(t.handle)
                    &&& final(backend).surfaces() == old(backend).surfaces().insert(
                        t.handle,
                        (width, height),
                    )
                },
                Err(e) => e == AtlasError::ResourceExhausted && final(backend).surfaces() == old(
                    backend,
                ).surfaces(),
            },
    {
        match backend.create_surface(width, height) {
            Ok(handle) => Ok(
                Texture {
                    handle,
                    width,
                    height,
                    bottom: 0,
                    tallest: 0,
                    left: 0,
                    placed: Ghost(Seq::empty()),
                },
            ),
            Err(e) => Err(e),
        }
    }

    /// Reserve space for a sprite of the given size and upload its
    /// pixels there.
    ///
    /// Fails at once on a request larger than the surface, and after any
    /// row advance when the remaining height is short, handing the pixel
    /// bytes back unconsumed so the caller can retry elsewhere without
    /// copying.  A committed row advance is kept even when the
    /// reservation then fails.  Succeeds exactly when [`Texture::fits`]
    /// held on entry; the fresh rectangle overlaps no earlier one.
    pub fn reserve<B: Backend>(
        &mut self,
        backend: &mut B,
        width: u32,
        height: u32,
        data: Vec<u8>,
    ) -> (r: Result<Rect, Vec<u8>>)
        requires
            old(self).wf(),
            tex_registered(*old(self), old(backend).surfaces()),
            data@.len() == 4 * (width as int) * (height as int),
        ensures
            final(self).wf(),
            final(backend).surfaces() == old(backend).surfaces(),
            match r {
                Ok(rect) => {
                    &&& old(self).fits(width, height)
                    &&& reserve_placed(*old(self), *final(self), width, height, rect)
                    &&& within(rect, old(self).width, old(self).height)
                    &&& forall|k: int|
                        0 <= k < old(self).placed@.len() ==> !overlaps(
                            #[trigger] old(self).placed@[k],
                            rect,
                        )
                },
                Err(d) => {
                    &&& !old(self).fits(width, height)
                    &&& d@ == data@
                    &&& reserve_missed(*old(self), *final(self), width, height)
                },
            },
    {
        if width > self.width || height > self.height {
            // No state of this texture could ever satisfy the request.
            return Err(data);
        }
        let x_left = self.width - self.left;
        if x_left < width {
            // Commit to the next row; the tail of this one is lost.
            self.bottom = self.bottom + self.tallest;
            self.left = 0;
            self.tallest = 0;
        }
        let y_left = self.height - self.bottom;
        if y_left < height {
            // No room in this texture.
            return Err(data);
        }
        let rect = Rect { left: self.left, bottom: self.bottom, width, height };
        proof {
            assert forall|k: int| 0 <= k < self.placed@.len() implies !overlaps(
                #[trigger] self.placed@[k],
                rect,
            ) by {
                assert(old(self).settled(old(self).placed@[k]));
            }
        }
        backend.upload(self.handle, rect, &data);
        self.left = self.left + width;
        if height > self.tallest {
            self.tallest = height;
        }
        self.placed = Ghost(self.placed@.push(rect));
        Ok(rect)
    }
}

/// Every rectangle ever handed out by a well-formed texture lies inside
/// its surface.
pub proof fn lemma_placed_within(t: Texture, k: int)
    requires
        t.wf(),
        0 <= k < t.placed@.len(),
    ensures
        within(t.placed@[k], t.width, t.height),
{
}

/// No two rectangles handed out by the same texture overlap.
pub proof fn lemma_placed_disjoint(t: Texture, j: int, k: int)
    requires
        t.wf(),
        0 <= j < t.placed@.len(),
        0 <= k < t.placed@.len(),
        j != k,
    ensures
        !overlaps(t.placed@[j], t.placed@[k]),
{
    if j < k {
        assert(!overlaps(t.placed@[j], t.placed@[k]));
    } else {
        assert(!overlaps(t.placed@[k], t.placed@[j]));
    }
}

} // verus!
