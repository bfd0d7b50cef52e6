use crate::backend::{AtlasError, Backend, SurfaceHandle};
use crate::rect::{within, Rect};
use crate::texture::{reserve_missed, reserve_placed, tex_registered, Texture};
use vstd::arithmetic::power2::{lemma2_to64, lemma_pow2_strictly_increases, pow2};
use vstd::prelude::*;

verus! {

/// Default minimum edge length of a freshly created texture, in pixels.
pub const MIN_DIM: u32 = 2048;

/// Largest request edge the allocator takes: anything above would
/// overflow the power-of-two rounding of a fresh texture's size.
pub const MAX_DIM: u32 = 0x8000_0000;

/// An immutable handle to one placed sprite: the surface to bind and the
/// rectangle its pixels were written to.  Reading it never changes any
/// allocator state; dropping it releases no atlas space.
#[derive(Clone, Copy, Debug, PartialEq, Eq, Structural)]
pub struct Sprite {
    pub texture: SurfaceHandle,
    pub coords: Rect,
}

impl Sprite {
    /// The rectangle the sprite's pixels occupy.  Reading it is pure: it
    /// returns the stored rectangle and changes no state, however often
    /// it is called.
    pub fn rectangle(&self) -> (r: Rect)
        ensures
            r == self.coords,
    {
        self.coords
    }

    /// The surface to bind when drawing the sprite; pure, like
    /// [`Sprite::rectangle`].
    pub fn surface(&self) -> (h: SurfaceHandle)
        ensures
            h == self.texture,
    {
        self.texture
    }
}

/// The multi-texture layer: an ordered collection of textures, oldest
/// first.  A request goes to the first texture with room; when none has
/// any, one fresh texture is created and appended.  Textures are never
/// removed, merged, or shrunk.
pub struct Atlas {
    pub textures: Vec<Texture>,
    /// Minimum edge length for freshly created textures.
    pub min_dim: u32,
}

/// The value is a power of two.
pub open spec fn is_pow2(n: int) -> bool {
    exists|e: nat| n == pow2(e)
}

/// `n` is the least power of two at or above `v`.
pub open spec fn least_pow2_at_least(n: int, v: int) -> bool {
    is_pow2(n) && n >= v && (n == 1 || n / 2 < v)
}

/// Textures before position `i` were tried and missed, each keeping any
/// row advance the failed attempt committed.
pub open spec fn tried_before(
    pre: Seq<Texture>,
    post: Seq<Texture>,
    i: int,
    width: u32,
    height: u32,
) -> bool {
    forall|j: int|
        0 <= j < i ==> !(#[trigger] pre[j]).fits(width, height) && reserve_missed(
            pre[j],
            post[j],
            width,
            height,
        )
}

/// The sprite was placed in texture `i`, the first with room: every
/// earlier texture was tried and missed, every later one is untouched.
pub open spec fn placed_in_existing(
    pre: Seq<Texture>,
    post: Seq<Texture>,
    i: int,
    width: u32,
    height: u32,
    s: Sprite,
) -> bool {
    &&& post.len() == pre.len()
    &&& 0 <= i < pre.len()
    &&& pre[i].fits(width, height)
    &&& tried_before(pre, post, i, width, height)
    &&& forall|j: int| i < j < pre.len() ==> post[j] == pre[j]
    &&& reserve_placed(pre[i], post[i], width, height, s.coords)
    &&& s.texture == pre[i].handle
    &&& within(s.coords, pre[i].width, pre[i].height)
}

/// No texture had room: every one was tried and missed, then a fresh
/// square texture whose edge is the least power of two covering the
/// request and the configured minimum was created from a fresh surface,
/// the sprite was placed at its origin, and it was appended.
pub open spec fn placed_in_grown(
    pre: Seq<Texture>,
    post: Seq<Texture>,
    width: u32,
    height: u32,
    s: Sprite,
    min_dim: u32,
    pre_surfaces: Map<SurfaceHandle, (u32, u32)>,
    post_surfaces: Map<SurfaceHandle, (u32, u32)>,
) -> bool {
    let t = post[post.len() - 1];
    &&& post.len() == pre.len() + 1
    &&& tried_before(pre, post, pre.len() as int, width, height)
    &&& t.width == t.height
    &&& least_pow2_at_least(
        t.width as int,
        vstd::math::max3(width as int, height as int, min_dim as int),
    )
    &&& t.bottom == 0 && t.left == width && t.tallest == height
    &&& t.placed@ == seq![s.coords]
    &&& s.texture == t.handle
    &&& s.coords == (Rect { left: 0, bottom: 0, width, height })
    &&& within(s.coords, t.width, t.height)
    &&& !pre_surfaces.dom().contains(t.handle)
    &&& post_surfaces == pre_surfaces.insert(t.handle, (t.width, t.height))
}

/// What a successful allocation did: placed in the first existing
/// texture with room, touching no surface, or grown by one texture.
pub open spec fn allocate_placed(
    pre: Seq<Texture>,
    post: Seq<Texture>,
    width: u32,
    height: u32,
    s: Sprite,
    min_dim: u32,
    pre_surfaces: Map<SurfaceHandle, (u32, u32)>,
    post_surfaces: Map<SurfaceHandle, (u32, u32)>,
) -> bool {
    ||| (exists|i: int| placed_in_existing(pre, post, i, width, height, s)) && post_surfaces
        == pre_surfaces
    ||| placed_in_grown(pre, post, width, height, s, min_dim, pre_surfaces, post_surfaces)
}

/// The least power of two at or above `v`.
pub fn next_power_of_two(v: u32) -> (r: u32)
    requires
        v <= MAX_DIM,
    ensures
        least_pow2_at_least(r as int, v as int),
        r <= MAX_DIM,
{
    proof {
        lemma2_to64();
    }
    let mut p: u32 = 1;
    while p < v
        invariant
            v <= MAX_DIM,
            1 <= p <= MAX_DIM,
            is_pow2(p as int),
            p == 1 || p / 2 < v,
        decreases (if p < v {
            v as int - p as int
        } else {
            0int
        }),
    {
        proof {
            // p is a power of two strictly below 2^31, so it is at most
            // 2^30 and doubling keeps it a power of two within bounds.
            lemma2_to64();
            let e = choose|e: nat| p as int == pow2(e);
            if e >= 31 {
                if e > 31 {
                    lemma_pow2_strictly_increases(31, e);
                }
                assert(false);
            }
            if e < 30 {
                lemma_pow2_strictly_increases(e, 30);
            }
            assert(p <= 0x4000_0000);
            assert(2 * p as int == pow2((e + 1) as nat));
        }
        p = p * 2;
    }
    p
}

impl Atlas {
    /// All textures are well formed, no two share a surface, and the
    /// configured minimum texture edge is one the power-of-two rounding
    /// can take.
    pub open spec fn wf(self) -> bool {
        &&& self.min_dim <= MAX_DIM
        &&& forall|i: int| 0 <= i < self.textures@.len() ==> (#[trigger] self.textures@[i]).wf()
        &&& forall|i: int, j: int|
            0 <= i < j < self.textures@.len() ==> self.textures@[i].handle
                != self.textures@[j].handle
    }

    /// Every texture's handle is a live surface of the backend, with the
    /// texture's dimensions.
    pub open spec fn registered(self, surfaces: Map<SurfaceHandle, (u32, u32)>) -> bool {
        forall|i: int|
            0 <= i < self.textures@.len() ==> tex_registered(
                #[trigger] self.textures@[i],
                surfaces,
            )
    }

    /// An empty atlas with the default minimum texture edge.
    pub fn new() -> (a: Atlas)
        ensures
            a.wf(),
            a.textures@.len() == 0,
            a.min_dim == MIN_DIM,
    {
        Atlas { textures: Vec::new(), min_dim: MIN_DIM }
    }

    /// An empty atlas whose freshly created textures are at least
    /// `min_dim` pixels on each edge.
    pub fn with_min_dim(min_dim: u32) -> (a: Atlas)
        requires
            min_dim <= MAX_DIM,
        ensures
            a.wf(),
            a.textures@.len() == 0,
            a.min_dim == min_dim,
    {
        Atlas { textures: Vec::new(), min_dim }
    }

    /// How many textures the atlas holds.
    pub fn texture_count(&self) -> (n: usize)
        ensures
            n == self.textures@.len(),
    {
        self.textures.len()
    }

    /// Width and height of the texture at position `i`, oldest first.
    pub fn texture_size(&self, i: usize) -> (r: (u32, u32))
        requires
            i < self.textures@.len(),
        ensures
            r.0 == self.textures@[i as int].width,
            r.1 == self.textures@[i as int].height,
    {
        let t = &self.textures[i];
        (t.width, t.height)
    }

    /// Place a sprite of the given size somewhere in the atlas and
    /// upload its pixels there.
    ///
    /// Existing textures are tried in creation order and the first with
    /// room wins; a failed try keeps any row advance it committed, but
    /// places nothing.  When none has room, a fresh square texture is
    /// created, sized to the least power of two covering the request and
    /// the configured minimum; the sprite then lands at its origin,
    /// which cannot fail.  The one error is resource exhaustion when the
    /// backend refuses that fresh surface; no texture is recorded then.
    pub fn allocate<B: Backend>(
        &mut self,
        backend: &mut B,
        width: u32,
        height: u32,
        data: Vec<u8>,
    ) -> (r: Result<Sprite, AtlasError>)
        requires
            old(self).wf(),
            old(self).registered(old(backend).surfaces()),
            width <= MAX_DIM,
            height <= MAX_DIM,
            data@.len() == 4 * (width as int) * (height as int),
        ensures
            final(self).wf(),
            final(self).registered(final(backend).surfaces()),
            final(self).min_dim == old(self).min_dim,
            old(backend).surfaces().submap_of(final(backend).surfaces()),
            match r {
                Ok(s) => allocate_placed(
                    old(self).textures@,
                    final(self).textures@,
                    width,
                    height,
                    s,
                    old(self).min_dim,
                    old(backend).surfaces(),
                    final(backend).surfaces(),
                ),
                Err(e) => {
                    &&& e == AtlasError::ResourceExhausted
                    &&& final(self).textures@.len() == old(self).textures@.len()
                    &&& tried_before(
                        old(self).textures@,
                        final(self).textures@,
                        old(self).textures@.len() as int,
                        width,
                        height,
                    )
                    &&& final(backend).surfaces() == old(backend).surfaces()
                },
            },
    {
        let ghost pre = self.textures@;
        let ghost surf0 = backend.surfaces();
        let mut data = data;
        let n = self.textures.len();
        let mut i: usize = 0;
        while i < n
            invariant
                n == pre.len(),
                pre == old(self).textures@,
                surf0 == old(backend).surfaces(),
                self.textures@.len() == n,
                i <= n,
                self.min_dim == old(self).min_dim,
                self.wf(),
                backend.surfaces() == surf0,
                self.registered(surf0),
                data@.len() == 4 * (width as int) * (height as int),
                tried_before(pre, self.textures@, i as int, width, height),
                forall|j: int| i <= j < n ==> self.textures@[j] == pre[j],
            decreases n - i,
        {
            let mut tex = self.textures[i];
            let result = tex.reserve(backend, width, height, data);
            self.textures[i] = tex;
            match result {
                Ok(rect) => {
                    let s = Sprite { texture: tex.handle, coords: rect };
                    proof {
                        assert(placed_in_existing(
                            pre,
                            self.textures@,
                            i as int,
                            width,
                            height,
                            s,
                        ));
                    }
                    return Ok(s);
                },
                Err(d) => {
                    data = d;
                },
            }
            i = i + 1;
        }
        // No existing texture has room: grow by one fresh square
        // texture, large enough that the reservation cannot miss.
        let mut size = if width > height {
            width
        } else {
            height
        };
        if self.min_dim > size {
            size = self.min_dim;
        }
        let size = next_power_of_two(size);
        let mut tex = match Texture::new(backend, size, size) {
            Ok(t) => t,
            Err(e) => {
                return Err(e);
            },
        };
        let result = tex.reserve(backend, width, height, data);
        let rect = match result {
            Ok(rect) => rect,
            Err(_) => {
                // A fresh texture at least as large as the request on
                // both edges always has room at its origin.
                proof {
                    assert(false);
                }
                vstd::pervasive::unreached()
            },
        };
        let s = Sprite { texture: tex.handle, coords: rect };
        self.textures.push(tex);
        proof {
            assert forall|j: int| 0 <= j < pre.len() implies tex_registered(
                #[trigger] self.textures@[j],
                backend.surfaces(),
            ) by {
                assert(tex_registered(pre[j], surf0));
            }
            assert(surf0.submap_of(backend.surfaces()));
            assert(placed_in_grown(
                pre,
                self.textures@,
                width,
                height,
                s,
                self.min_dim,
                surf0,
                backend.surfaces(),
            ));
        }
        Ok(s)
    }
}

/// Every sprite a successful allocation returns lies inside the texture
/// it was placed in: some texture of the atlas carries the sprite's
/// surface, and the rectangle is within that texture's edges.
pub proof fn lemma_sprite_within_its_texture(
    pre: Seq<Texture>,
    post: Seq<Texture>,
    width: u32,
    height: u32,
    s: Sprite,
    min_dim: u32,
    pre_surfaces: Map<SurfaceHandle, (u32, u32)>,
    post_surfaces: Map<SurfaceHandle, (u32, u32)>,
)
    requires
        allocate_placed(pre, post, width, height, s, min_dim, pre_surfaces, post_surfaces),
    ensures
        exists|i: int|
            0 <= i < post.len() && s.texture == #[trigger] post[i].handle && within(
                s.coords,
                post[i].width,
                post[i].height,
            ),
{
    if exists|i: int| placed_in_existing(pre, post, i, width, height, s) {
        let i = choose|i: int| placed_in_existing(pre, post, i, width, height, s);
        assert(0 <= i < post.len() && s.texture == post[i].handle && within(
            s.coords,
            post[i].width,
            post[i].height,
        ));
    } else {
        let i = post.len() - 1;
        assert(0 <= i < post.len() && s.texture == post[i].handle && within(
            s.coords,
            post[i].width,
            post[i].height,
        ));
    }
}

/// First-fit: when a sprite lands in an existing texture, no earlier
/// texture had room, so any texture with room at or before it in
/// creation order can only be the one chosen or a later one.
pub proof fn lemma_first_fit(
    pre: Seq<Texture>,
    post: Seq<Texture>,
    i: int,
    j: int,
    width: u32,
    height: u32,
    s: Sprite,
)
    requires
        placed_in_existing(pre, post, i, width, height, s),
        0 <= j < pre.len(),
        pre[j].fits(width, height),
    ensures
        i <= j,
{
}

} // verus!
