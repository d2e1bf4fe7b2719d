use venus::graphics::Graphics;
use venus::texture::{Animation, Texture};
use venus::texture_atlas::TextureHandle;

fn handle() -> TextureHandle {
    let mut gfx = Graphics::new();
    gfx.new_texture_from_bytes(&vec![0u8; 4 * 384 * 640], 384, 640).handle
}

/// The texture's normalised rectangle inside its bitmap: x, y, width, height.
fn uv(texture: &Texture) -> [f32; 4] {
    [
        texture.x() as f32 / texture.full_width() as f32,
        texture.y() as f32 / texture.full_height() as f32,
        texture.width() as f32 / texture.full_width() as f32,
        texture.height() as f32 / texture.full_height() as f32,
    ]
}

#[test]
fn sub_texture() {
    // a texture of 192 by 320 texels that shows the top left quarter of its bitmap
    let texture = Texture::new(handle(), 384, 640).sub_texture(0, 0, 192, 320);
    assert_eq!(uv(&texture), [0.0, 0.0, 0.5, 0.5]);
    assert_eq!(texture.width(), 192);
    assert_eq!(texture.height(), 320);
    // Basic width / height correctness
    let sub_texture = texture.sub_texture(0, 0, 32, 32);
    assert_eq!(
        sub_texture.width() as f32 / texture.width() as f32,
        uv(&sub_texture)[2] / uv(&texture)[2]
    );
    assert_eq!(
        sub_texture.height() as f32 / texture.height() as f32,
        uv(&sub_texture)[3] / uv(&texture)[3]
    );
    assert_eq!(sub_texture.width(), 32);
    assert_eq!(sub_texture.height(), 32);
}

#[test]
fn a_new_texture_shows_its_whole_bitmap() {
    let h = handle();
    let texture = Texture::new(h, 384, 640);
    assert_eq!(texture.handle(), h);
    assert_eq!((texture.x(), texture.y()), (0, 0));
    assert_eq!((texture.width(), texture.height()), (384, 640));
    assert_eq!((texture.full_width(), texture.full_height()), (384, 640));
    assert_eq!(uv(&texture), [0.0, 0.0, 1.0, 1.0]);
}

#[test]
fn the_full_part_of_a_texture_is_the_texture() {
    let texture = Texture::new(handle(), 384, 640).sub_texture(10, 20, 100, 200);
    let full = texture.sub_texture(0, 0, 100, 200);
    assert_eq!((full.x(), full.y(), full.width(), full.height()), (10, 20, 100, 200));
    assert_eq!(uv(&full), uv(&texture));
    assert_eq!(full.handle(), texture.handle());
}

#[test]
fn a_part_may_reach_the_far_edges() {
    let texture = Texture::new(handle(), 384, 640);
    let corner = texture.sub_texture(380, 600, 4, 40);
    assert_eq!((corner.x(), corner.y(), corner.width(), corner.height()), (380, 600, 4, 40));
    let empty = texture.sub_texture(384, 640, 0, 0);
    assert_eq!((empty.x(), empty.y(), empty.width(), empty.height()), (384, 640, 0, 0));
}

#[test]
fn parts_of_parts_add_their_offsets() {
    let texture = Texture::new(handle(), 384, 640);
    let outer = texture.sub_texture(100, 200, 200, 300);
    let inner = outer.sub_texture(50, 60, 20, 30);
    assert_eq!((inner.x(), inner.y(), inner.width(), inner.height()), (150, 260, 20, 30));
    assert_eq!((inner.full_width(), inner.full_height()), (384, 640));
    let direct = texture.sub_texture(150, 260, 20, 30);
    assert_eq!(uv(&inner), uv(&direct));
}

#[test]
fn an_animation_shows_each_frame_for_its_ticks_and_starts_over() {
    let texture = Texture::new(handle(), 384, 640);
    let frames: Vec<Texture> = (0..3).map(|n| texture.sub_texture(n * 100, 0, 100, 100)).collect();
    let animation = Animation::new(frames, 5);
    let shown = |tick: u32| animation.frame(tick).x() / 100;
    assert_eq!(shown(0), 0);
    assert_eq!(shown(4), 0);
    assert_eq!(shown(5), 1);
    assert_eq!(shown(9), 1);
    assert_eq!(shown(10), 2);
    assert_eq!(shown(14), 2);
    assert_eq!(shown(15), 0);
    assert_eq!(shown(29), 2);
    assert_eq!(shown(u32::MAX), (u32::MAX / 5) % 3);
}

#[test]
fn a_part_that_crosses_an_edge_is_none() {
    let texture = Texture::new(handle(), 384, 640).sub_texture(100, 100, 50, 60);
    assert!(texture.checked_sub_texture(0, 0, 51, 60).is_none());
    assert!(texture.checked_sub_texture(0, 0, 50, 61).is_none());
    assert!(texture.checked_sub_texture(1, 0, 50, 60).is_none());
    assert!(texture.checked_sub_texture(0, 1, 50, 60).is_none());
    assert!(texture.checked_sub_texture(u32::MAX, 0, 1, 1).is_none());
    assert!(texture.checked_sub_texture(0, 0, u32::MAX, u32::MAX).is_none());
    let full = texture.checked_sub_texture(0, 0, 50, 60).unwrap();
    assert_eq!(full, texture);
    let part = texture.checked_sub_texture(10, 20, 40, 40).unwrap();
    assert_eq!(part, texture.sub_texture(10, 20, 40, 40));
    assert_eq!((part.x(), part.y(), part.width(), part.height()), (110, 120, 40, 40));
}
