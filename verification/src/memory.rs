use crate::backend::{AtlasError, Backend, SurfaceHandle};
use crate::rect::Rect;
use vstd::prelude::*;

verus! {

/// An in-memory rendering backend.
///
/// Surfaces are charged against a byte budget, four bytes per texel, so
/// device memory exhaustion can be exercised without a device; uploads
/// are kept as an ordered log, the way a real backend queues them to
/// hardware.  Handles are positions in creation order.
pub struct MemoryBackend {
    /// Width and height of every surface created, in creation order;
    /// a handle's id is its position here.
    pub dims: Vec<(u32, u32)>,
    /// Every upload issued so far, oldest first.
    pub uploads: Vec<(SurfaceHandle, Rect)>,
    /// Budget still available for fresh surfaces, in bytes.
    pub bytes_left: u64,
}

impl MemoryBackend {
    /// A backend with no surfaces and the given byte budget.
    pub fn new(budget: u64) -> (b: MemoryBackend)
        ensures
            b.surfaces() == Map::<SurfaceHandle, (u32, u32)>::empty(),
            b.bytes_left == budget,
            b.uploads@.len() == 0,
    {
        let b = MemoryBackend { dims: Vec::new(), uploads: Vec::new(), bytes_left: budget };
        proof {
            assert(b.surfaces() =~= Map::<SurfaceHandle, (u32, u32)>::empty());
        }
        b
    }

    /// How many surfaces were created so far.
    pub fn surface_count(&self) -> (n: usize)
        ensures
            n == self.dims@.len(),
    {
        self.dims.len()
    }

    /// How many uploads were issued so far.
    pub fn upload_count(&self) -> (n: usize)
        ensures
            n == self.uploads@.len(),
    {
        self.uploads.len()
    }

    /// The upload at position `i`, oldest first: the surface written to
    /// and the rectangle covered.
    pub fn upload_at(&self, i: usize) -> (r: (SurfaceHandle, Rect))
        requires
            i < self.uploads@.len(),
        ensures
            r == self.uploads@[i as int],
    {
        self.uploads[i]
    }

    /// Width and height of the surface behind a handle.
    pub fn surface_size(&self, handle: SurfaceHandle) -> (r: (u32, u32))
        requires
            self.surfaces().dom().contains(handle),
        ensures
            r == self.surfaces()[handle],
    {
        let n = self.dims.len();
        proof {
            assert(handle.id < n as u64);
        }
        self.dims[handle.id as usize]
    }
}

/// A backend whose device memory is already gone: it holds no surface
/// and refuses every request for one.  Useful to drive an allocator into
/// its resource-exhaustion path.
pub struct ExhaustedBackend;

impl Backend for ExhaustedBackend {
    open spec fn surfaces(&self) -> Map<SurfaceHandle, (u32, u32)> {
        Map::empty()
    }

    fn create_surface(&mut self, width: u32, height: u32) -> (r: Result<
        SurfaceHandle,
        AtlasError,
    >) {
        Err(AtlasError::ResourceExhausted)
    }

    fn upload(&mut self, handle: SurfaceHandle, rect: Rect, pixels: &Vec<u8>) {
        // No surface exists, so no valid upload can reach this backend.
        vstd::pervasive::unreached()
    }
}

impl Backend for MemoryBackend {
    open spec fn surfaces(&self) -> Map<SurfaceHandle, (u32, u32)> {
        Map::new(
            |h: SurfaceHandle| h.id < self.dims@.len(),
            |h: SurfaceHandle| self.dims@[h.id as int],
        )
    }

    fn create_surface(&mut self, width: u32, height: u32) -> (r: Result<
        SurfaceHandle,
        AtlasError,
    >) {
        proof {
            assert((width as int) * (height as int) <= 0xffff_ffff * 0xffff_ffff)
                by (nonlinear_arith)
                requires
                    width as int <= 0xffff_ffff,
                    height as int <= 0xffff_ffff,
            ;
        }
        let texels: u64 = (width as u64) * (height as u64);
        let cost: u128 = 4u128 * (texels as u128);
        if cost > self.bytes_left as u128 {
            return Err(AtlasError::ResourceExhausted);
        }
        self.bytes_left = self.bytes_left - (cost as u64);
        let handle = SurfaceHandle { id: self.dims.len() as u64 };
        self.dims.push((width, height));
        proof {
            assert(self.surfaces() =~= old(self).surfaces().insert(handle, (width, height)));
        }
        Ok(handle)
    }

    fn upload(&mut self, handle: SurfaceHandle, rect: Rect, pixels: &Vec<u8>) {
        self.uploads.push((handle, rect));
        proof {
            assert(self.surfaces() =~= old(self).surfaces());
        }
    }
}

} // verus!
