use texture_atlas::atlas::{next_power_of_two, Atlas};
use texture_atlas::backend::{AtlasError, SurfaceHandle};
use texture_atlas::memory::{ExhaustedBackend, MemoryBackend};
use texture_atlas::rect::Rect;
use texture_atlas::texture::Texture;

fn bytes(width: u32, height: u32) -> Vec<u8> {
    vec![0u8; (4 * width * height) as usize]
}

fn rects_overlap(a: &Rect, b: &Rect) -> bool {
    let lo_x = a.left.max(b.left);
    let hi_x = (a.left + a.width).min(b.left + b.width);
    let lo_y = a.bottom.max(b.bottom);
    let hi_y = (a.bottom + a.height).min(b.bottom + b.height);
    lo_x < hi_x && lo_y < hi_y
}

#[test]
fn row_advance_on_small_texture() {
    let mut backend = MemoryBackend::new(u64::MAX);
    let mut tex = Texture::new(&mut backend, 100, 100).unwrap();
    let first = tex.reserve(&mut backend, 60, 10, bytes(60, 10)).unwrap();
    assert_eq!(first, Rect { left: 0, bottom: 0, width: 60, height: 10 });
    // Only 40 pixels remain on the row, so the next sprite opens a new
    // row at the height of the tallest sprite of the old one.
    let second = tex.reserve(&mut backend, 60, 10, bytes(60, 10)).unwrap();
    assert_eq!(second, Rect { left: 0, bottom: 10, width: 60, height: 10 });
}

#[test]
fn growth_rounds_up_to_a_power_of_two() {
    let mut backend = MemoryBackend::new(u64::MAX);
    let mut atlas = Atlas::new();
    let sprite = atlas.allocate(&mut backend, 3000, 10, bytes(3000, 10)).unwrap();
    assert_eq!(atlas.texture_count(), 1);
    assert_eq!(atlas.texture_size(0), (4096, 4096));
    assert_eq!(sprite.coords, Rect { left: 0, bottom: 0, width: 3000, height: 10 });
}

#[test]
fn small_requests_grow_a_minimum_size_texture() {
    let mut backend = MemoryBackend::new(u64::MAX);
    let mut atlas = Atlas::new();
    let sprite = atlas.allocate(&mut backend, 8, 8, bytes(8, 8)).unwrap();
    assert_eq!(atlas.texture_size(0), (2048, 2048));
    assert_eq!(sprite.coords, Rect { left: 0, bottom: 0, width: 8, height: 8 });
    assert_eq!(backend.surface_size(sprite.texture), (2048, 2048));
}

#[test]
fn exhaustion_leaves_the_atlas_empty() {
    let mut backend = ExhaustedBackend;
    let mut atlas = Atlas::new();
    let r = atlas.allocate(&mut backend, 10, 10, bytes(10, 10));
    assert!(matches!(r, Err(AtlasError::ResourceExhausted)));
    assert_eq!(atlas.texture_count(), 0);
}

#[test]
fn an_empty_byte_budget_is_resource_exhaustion() {
    let mut backend = MemoryBackend::new(0);
    let mut atlas = Atlas::new();
    let r = atlas.allocate(&mut backend, 1, 1, bytes(1, 1));
    assert!(matches!(r, Err(AtlasError::ResourceExhausted)));
    assert_eq!(atlas.texture_count(), 0);
    assert_eq!(backend.surface_count(), 0);
}

#[test]
fn the_byte_budget_is_charged_per_texel() {
    let mut backend = MemoryBackend::new(16);
    // A 2x2 surface costs exactly the 16 bytes available...
    assert!(Texture::new(&mut backend, 2, 2).is_ok());
    // ...so nothing is left for even the smallest surface.
    assert!(Texture::new(&mut backend, 1, 1).is_err());
}

#[test]
fn first_fit_prefers_the_oldest_texture_with_room() {
    let mut backend = MemoryBackend::new(u64::MAX);
    let mut atlas = Atlas::with_min_dim(64);
    let a = atlas.allocate(&mut backend, 32, 32, bytes(32, 32)).unwrap();
    // Wider than the first texture: a second one is grown for it.
    let b = atlas.allocate(&mut backend, 100, 10, bytes(100, 10)).unwrap();
    assert_eq!(atlas.texture_count(), 2);
    assert_eq!(atlas.texture_size(1), (128, 128));
    assert_ne!(a.texture, b.texture);
    // This request fits both textures; first-fit picks the older one.
    let c = atlas.allocate(&mut backend, 20, 20, bytes(20, 20)).unwrap();
    assert_eq!(c.texture, a.texture);
    assert_eq!(c.coords, Rect { left: 32, bottom: 0, width: 20, height: 20 });
}

#[test]
fn rectangles_stay_inside_their_textures() {
    let mut backend = MemoryBackend::new(u64::MAX);
    let mut atlas = Atlas::new();
    for i in 0u32..200 {
        let width = i * 37 % 600 + 1;
        let height = i * 91 % 400 + 1;
        let sprite = atlas.allocate(&mut backend, width, height, bytes(width, height)).unwrap();
        // Every request is at most the minimum dimension, so every
        // texture this atlas creates is 2048 pixels on each edge.
        assert_eq!(backend.surface_size(sprite.texture), (2048, 2048));
        assert!(sprite.coords.left + sprite.coords.width <= 2048);
        assert!(sprite.coords.bottom + sprite.coords.height <= 2048);
    }
}

#[test]
fn sprites_of_one_texture_never_overlap() {
    let mut backend = MemoryBackend::new(u64::MAX);
    let mut atlas = Atlas::with_min_dim(256);
    let mut placed: Vec<(SurfaceHandle, Rect)> = Vec::new();
    for i in 0u32..120 {
        let width = i * 53 % 200 + 1;
        let height = i * 29 % 90 + 1;
        let sprite = atlas.allocate(&mut backend, width, height, bytes(width, height)).unwrap();
        placed.push((sprite.texture, sprite.coords));
    }
    for x in 0..placed.len() {
        for y in x + 1..placed.len() {
            if placed[x].0 == placed[y].0 {
                assert!(!rects_overlap(&placed[x].1, &placed[y].1));
            }
        }
    }
}

#[test]
fn zero_sized_requests_are_legal() {
    let mut backend = MemoryBackend::new(u64::MAX);
    let mut atlas = Atlas::new();
    let empty = atlas.allocate(&mut backend, 0, 5, bytes(0, 5)).unwrap();
    assert_eq!(empty.coords, Rect { left: 0, bottom: 0, width: 0, height: 5 });
    // The cursor advanced only trivially: the next sprite still starts
    // at the origin, and a zero-area rectangle overlaps nothing.
    let next = atlas.allocate(&mut backend, 10, 10, bytes(10, 10)).unwrap();
    assert_eq!(next.coords, Rect { left: 0, bottom: 0, width: 10, height: 10 });
}

#[test]
fn edge_exact_placement_is_legal() {
    let mut backend = MemoryBackend::new(u64::MAX);
    let mut tex = Texture::new(&mut backend, 64, 64).unwrap();
    let rect = tex.reserve(&mut backend, 64, 64, bytes(64, 64)).unwrap();
    assert_eq!(rect, Rect { left: 0, bottom: 0, width: 64, height: 64 });
    // The texture is now full even for the smallest sprite.
    assert!(tex.reserve(&mut backend, 1, 1, bytes(1, 1)).is_err());
}

#[test]
fn a_failed_reservation_returns_the_pixels_unconsumed() {
    let mut backend = MemoryBackend::new(u64::MAX);
    let mut tex = Texture::new(&mut backend, 10, 10).unwrap();
    let data: Vec<u8> = (0u32..4 * 20 * 5).map(|i| i as u8).collect();
    let returned = tex.reserve(&mut backend, 20, 5, data.clone()).unwrap_err();
    assert_eq!(returned, data);
    // An oversize miss leaves the texture untouched: the full surface is
    // still available.
    let rect = tex.reserve(&mut backend, 10, 10, bytes(10, 10)).unwrap();
    assert_eq!(rect, Rect { left: 0, bottom: 0, width: 10, height: 10 });
    assert_eq!(backend.upload_count(), 1);
}

#[test]
fn sprite_reads_never_change_state() {
    let mut backend = MemoryBackend::new(u64::MAX);
    let mut atlas = Atlas::new();
    let sprite = atlas.allocate(&mut backend, 40, 20, bytes(40, 20)).unwrap();
    let coords_once = sprite.rectangle();
    let coords_again = sprite.rectangle();
    let handle_once = sprite.surface();
    let handle_again = sprite.surface();
    assert_eq!(coords_once, coords_again);
    assert_eq!(handle_once, handle_again);
    assert_eq!(coords_once, sprite.coords);
    assert_eq!(handle_once, sprite.texture);
    assert_eq!(atlas.texture_count(), 1);
    assert_eq!(backend.upload_count(), 1);
    // The allocator behaves as if the sprite had never been looked at:
    // the next sprite goes right where the cursor was left.
    let next = atlas.allocate(&mut backend, 7, 7, bytes(7, 7)).unwrap();
    assert_eq!(next.coords, Rect { left: 40, bottom: 0, width: 7, height: 7 });
}

#[test]
fn uploads_are_logged_in_order() {
    let mut backend = MemoryBackend::new(u64::MAX);
    let mut atlas = Atlas::new();
    let a = atlas.allocate(&mut backend, 5, 5, bytes(5, 5)).unwrap();
    let b = atlas.allocate(&mut backend, 9, 3, bytes(9, 3)).unwrap();
    assert_eq!(backend.upload_count(), 2);
    assert_eq!(backend.upload_at(0), (a.texture, a.coords));
    assert_eq!(backend.upload_at(1), (b.texture, b.coords));
}

#[test]
fn next_power_of_two_values() {
    assert_eq!(next_power_of_two(0), 1);
    assert_eq!(next_power_of_two(1), 1);
    assert_eq!(next_power_of_two(2), 2);
    assert_eq!(next_power_of_two(3), 4);
    assert_eq!(next_power_of_two(2048), 2048);
    assert_eq!(next_power_of_two(2049), 4096);
    assert_eq!(next_power_of_two(0x8000_0000), 0x8000_0000);
}
