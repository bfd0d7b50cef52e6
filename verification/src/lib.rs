//! A texture atlas allocator.
//!
//! Many small, variably sized bitmaps (glyphs, icons) are packed into a
//! few large textures so that a renderer rarely has to switch textures.
//! Each [`texture::Texture`] places sprites by shelf packing; the
//! [`atlas::Atlas`] routes a request to the first texture with room and
//! grows by one fresh power-of-two texture when none has any.  The
//! rendering backend that owns the actual surface memory is abstracted
//! by [`backend::Backend`]; [`memory::MemoryBackend`] is a verified
//! in-memory implementation of it.

pub mod atlas;
pub mod backend;
pub mod memory;
pub mod rect;
pub mod texture;
