use crate::rect::Rect;
use vstd::prelude::*;

verus! {

/// Identifies one surface created by a [`Backend`].  A renderer uses it
/// to bind the right texture when issuing draw calls.  Surface memory is
/// owned by the backend; a handle stays valid for the backend's
/// lifetime, since atlas space is never reclaimed.
#[derive(Clone, Copy, Debug, PartialEq, Eq, Hash, Structural)]
pub struct SurfaceHandle {
    pub id: u64,
}

/// The one externally meaningful failure of allocation: the backend
/// could not allocate device memory for a fresh surface.
#[derive(Clone, Copy, Debug, PartialEq, Eq, Structural)]
pub enum AtlasError {
    ResourceExhausted,
}

/// The rendering backend the allocator draws surface memory from.
///
/// `surfaces` is the model of the backend's state: every surface created
/// so far, keyed by handle, valued by width and height in pixels.  An
/// embedding application supplies the implementation that talks to its
/// device; [`crate::memory::MemoryBackend`] is a verified in-memory one.
pub trait Backend: Sized {
    spec fn surfaces(&self) -> Map<SurfaceHandle, (u32, u32)>;

    /// Ask for a fresh surface of the given size.  Succeeds with a
    /// handle never handed out before, or fails with resource
    /// exhaustion, leaving the backend unchanged.
    fn create_surface(&mut self, width: u32, height: u32) -> (r: Result<
        SurfaceHandle,
        AtlasError,
    >)
        ensures
            match r {
                Ok(h) => !old(self).surfaces().dom().contains(h) && final(self).surfaces()
                    == old(self).surfaces().insert(h, (width, height)),
                Err(e) => e == AtlasError::ResourceExhausted && final(self).surfaces() == old(
                    self,
                ).surfaces(),
            },
    ;

    /// Write pixel bytes into one rectangle of one surface: four bytes
    /// per texel, rows in order, nearest the origin first.  A write
    /// inside the surface always succeeds and creates or destroys no
    /// surface.
    fn upload(&mut self, handle: SurfaceHandle, rect: Rect, pixels: &Vec<u8>)
        requires
            old(self).surfaces().dom().contains(handle),
            rect.left + rect.width <= old(self).surfaces()[handle].0,
            rect.bottom + rect.height <= old(self).surfaces()[handle].1,
            pixels@.len() == 4 * (rect.width as int) * (rect.height as int),
        ensures
            final(self).surfaces() == old(self).surfaces(),
    ;
}

} // verus!
