use venus::color::{Color, SCALAR_HALF, SCALAR_MINUS_ONE, SCALAR_ONE, SCALAR_ZERO};
use venus::graphics::{draw_image, Edges, Graphics, VERTEX_SCALARS};
use venus::texture::Texture;
use venus::texture_atlas::TextureHandle;

fn bits(values: &[f32]) -> Vec<u32> {
    values.iter().map(|v| v.to_bits()).collect()
}

fn floats(words: &[u32]) -> Vec<f32> {
    words.iter().map(|w| f32::from_bits(*w)).collect()
}

fn edges(left: f32, top: f32, right: f32, bottom: f32) -> Edges {
    Edges { left: left.to_bits(), top: top.to_bits(), right: right.to_bits(), bottom: bottom.to_bits() }
}

fn color(r: f32, g: f32, b: f32, a: f32) -> Color {
    Color { r: r.to_bits(), g: g.to_bits(), b: b.to_bits(), a: a.to_bits() }
}

/// A renderer with one bitmap on each of two pages.
fn two_pages() -> (Graphics, TextureHandle, TextureHandle) {
    let mut gfx = Graphics::new();
    let data = vec![0u8; 4 * 2048 * 2047];
    let a = gfx.new_texture_from_bytes(&data, 2048, 2047);
    let b = gfx.new_texture_from_bytes(&data, 2048, 2047);
    assert_eq!(a.handle.bind_point(), 1);
    assert_eq!(b.handle.bind_point(), 2);
    (gfx, a.handle, b.handle)
}

#[test]
fn scalar_constants_are_the_bits_of_the_numbers() {
    assert_eq!(f32::from_bits(SCALAR_ZERO), 0.0);
    assert_eq!(f32::from_bits(SCALAR_HALF), 0.5);
    assert_eq!(f32::from_bits(SCALAR_ONE), 1.0);
    assert_eq!(f32::from_bits(SCALAR_MINUS_ONE), -1.0);
    assert_eq!(VERTEX_SCALARS, 8);
}

#[test]
fn a_new_renderer_is_empty_and_projects_by_the_identity() {
    let mut gfx = Graphics::new();
    assert_eq!(gfx.pending_vertices(), 0);
    assert_eq!(gfx.bound_texture(), None);
    assert_eq!(gfx.atlas().page_count(), 0);
    assert_eq!(floats(&gfx.projection()), vec![1.0, 0.0, 0.0, 0.0, 1.0, 0.0, 0.0, 0.0, 1.0]);
    assert!(gfx.flush().is_none());
}

#[test]
fn an_untextured_rect_is_four_vertices_and_two_triangles() {
    let mut gfx = Graphics::new();
    let pushed = gfx.push_rect(edges(10.0, 20.0, 110.0, 70.0), color(0.25, 0.5, 0.75, 1.0), None);
    assert!(pushed.draw.is_none());
    assert_eq!(pushed.sampler, None);
    assert_eq!(gfx.pending_vertices(), 4);
    assert_eq!(gfx.bound_texture(), None);
    let draw = gfx.flush().unwrap();
    assert_eq!(
        floats(&draw.vertices),
        vec![
            0.25, 0.5, 0.75, 1.0, 10.0, 20.0, -1.0, -1.0, //
            0.25, 0.5, 0.75, 1.0, 110.0, 20.0, -1.0, -1.0, //
            0.25, 0.5, 0.75, 1.0, 110.0, 70.0, -1.0, -1.0, //
            0.25, 0.5, 0.75, 1.0, 10.0, 70.0, -1.0, -1.0,
        ]
    );
    assert_eq!(draw.indices, vec![0, 1, 2, 0, 2, 3]);
    assert_eq!(gfx.pending_vertices(), 0);
}

#[test]
fn a_textured_rect_carries_its_texture_coordinates() {
    let (mut gfx, a, _) = two_pages();
    let pushed = gfx.push_rect(
        edges(0.0, 0.0, 32.0, 16.0),
        color(1.0, 1.0, 1.0, 1.0),
        Some((a, edges(0.125, 0.25, 0.375, 0.5))),
    );
    assert!(pushed.draw.is_none());
    assert_eq!(pushed.sampler, Some(1));
    assert_eq!(gfx.bound_texture(), Some(1));
    let draw = gfx.flush().unwrap();
    assert_eq!(
        floats(&draw.vertices),
        vec![
            1.0, 1.0, 1.0, 1.0, 0.0, 0.0, 0.125, 0.25, //
            1.0, 1.0, 1.0, 1.0, 32.0, 0.0, 0.375, 0.25, //
            1.0, 1.0, 1.0, 1.0, 32.0, 16.0, 0.375, 0.5, //
            1.0, 1.0, 1.0, 1.0, 0.0, 16.0, 0.125, 0.5,
        ]
    );
    assert_eq!(draw.indices, vec![0, 1, 2, 0, 2, 3]);
}

#[test]
fn indices_count_on_from_rect_to_rect() {
    let mut gfx = Graphics::new();
    for _ in 0..3 {
        gfx.push_rect(edges(0.0, 0.0, 1.0, 1.0), Color::white(), None);
    }
    assert_eq!(gfx.pending_vertices(), 12);
    let draw = gfx.flush().unwrap();
    assert_eq!(draw.vertices.len(), 3 * 4 * 8);
    assert_eq!(draw.indices, vec![0, 1, 2, 0, 2, 3, 4, 5, 6, 4, 6, 7, 8, 9, 10, 8, 10, 11]);
    // after a flush the count starts again
    gfx.push_rect(edges(0.0, 0.0, 1.0, 1.0), Color::white(), None);
    assert_eq!(gfx.flush().unwrap().indices, vec![0, 1, 2, 0, 2, 3]);
}

#[test]
fn another_unit_ends_the_batch_once() {
    let (mut gfx, a, b) = two_pages();
    let uv = edges(0.0, 0.0, 1.0, 1.0);
    let first = gfx.push_rect(edges(0.0, 0.0, 1.0, 1.0), Color::white(), Some((a, uv)));
    assert!(first.draw.is_none());
    let second = gfx.push_rect(edges(2.0, 2.0, 3.0, 3.0), Color::white(), Some((b, uv)));
    let draw = second.draw.unwrap();
    assert_eq!(second.sampler, Some(2));
    assert_eq!(draw.indices, vec![0, 1, 2, 0, 2, 3]);
    assert_eq!(draw.vertices.len(), 32);
    assert_eq!(f32::from_bits(draw.vertices[4]), 0.0);
    // the second rectangle waits alone in the new batch
    assert_eq!(gfx.pending_vertices(), 4);
    assert_eq!(gfx.bound_texture(), Some(2));
    let rest = gfx.flush().unwrap();
    assert_eq!(rest.indices, vec![0, 1, 2, 0, 2, 3]);
    assert_eq!(f32::from_bits(rest.vertices[4]), 2.0);
}

#[test]
fn the_same_unit_keeps_the_batch() {
    let (mut gfx, a, _) = two_pages();
    let uv = edges(0.0, 0.0, 1.0, 1.0);
    assert!(gfx.push_rect(edges(0.0, 0.0, 1.0, 1.0), Color::white(), Some((a, uv))).draw.is_none());
    assert!(gfx.push_rect(edges(2.0, 2.0, 3.0, 3.0), Color::white(), Some((a, uv))).draw.is_none());
    assert_eq!(gfx.pending_vertices(), 8);
    assert_eq!(gfx.flush().unwrap().indices.len(), 12);
}

#[test]
fn untextured_rects_never_end_the_batch() {
    let (mut gfx, a, _) = two_pages();
    let uv = edges(0.0, 0.0, 1.0, 1.0);
    assert!(gfx.push_rect(edges(0.0, 0.0, 1.0, 1.0), Color::white(), None).draw.is_none());
    assert!(gfx.push_rect(edges(0.0, 0.0, 1.0, 1.0), Color::white(), Some((a, uv))).draw.is_none());
    let plain = gfx.push_rect(edges(0.0, 0.0, 1.0, 1.0), Color::white(), None);
    assert!(plain.draw.is_none());
    assert_eq!(plain.sampler, None);
    assert_eq!(gfx.bound_texture(), Some(1));
    assert_eq!(gfx.pending_vertices(), 12);
}

#[test]
fn a_flush_forgets_the_bound_unit() {
    let (mut gfx, a, b) = two_pages();
    let uv = edges(0.0, 0.0, 1.0, 1.0);
    gfx.push_rect(edges(0.0, 0.0, 1.0, 1.0), Color::white(), Some((a, uv)));
    assert!(gfx.flush().is_some());
    assert_eq!(gfx.bound_texture(), None);
    // nothing waits, so the other unit has nothing to end
    let pushed = gfx.push_rect(edges(0.0, 0.0, 1.0, 1.0), Color::white(), Some((b, uv)));
    assert!(pushed.draw.is_none());
    assert_eq!(gfx.bound_texture(), Some(2));
}

#[test]
fn a_new_projection_hands_out_what_waits() {
    let mut gfx = Graphics::new();
    gfx.push_rect(edges(0.0, 0.0, 1.0, 1.0), Color::white(), None);
    let matrix = bits(&[2.0, 0.0, 0.0, 0.0, -2.0, 0.0, -1.0, 1.0, 1.0]);
    let mut array = [0u32; 9];
    array.copy_from_slice(&matrix);
    let draw = gfx.set_projection_matrix(array).unwrap();
    assert_eq!(draw.indices, vec![0, 1, 2, 0, 2, 3]);
    assert_eq!(gfx.pending_vertices(), 0);
    assert_eq!(gfx.projection(), array);
    assert!(gfx.set_projection_matrix([0u32; 9]).is_none());
    assert_eq!(gfx.projection(), [0u32; 9]);
}

#[test]
fn uploads_leave_the_batch_alone() {
    let mut gfx = Graphics::new();
    gfx.push_rect(edges(0.0, 0.0, 1.0, 1.0), Color::white(), None);
    let up = gfx.new_texture_from_bytes(&[0u8; 16], 2, 2);
    assert!(up.new_page);
    assert_eq!(gfx.pending_vertices(), 4);
    assert_eq!(gfx.atlas().page_count(), 1);
    assert_eq!(gfx.atlas().region(up.handle), up.region);
}

#[test]
fn draw_image_is_a_white_textured_rect() {
    let (mut gfx, a, _) = two_pages();
    let texture = Texture::new(a, 2048, 2047);
    let pushed = draw_image(&mut gfx, &texture, edges(5.0, 6.0, 7.0, 8.0), edges(0.0, 0.0, 1.0, 1.0));
    assert_eq!(pushed.sampler, Some(1));
    let draw = gfx.flush().unwrap();
    assert_eq!(floats(&draw.vertices[0..8]), vec![1.0, 1.0, 1.0, 1.0, 5.0, 6.0, 0.0, 0.0]);
    assert_eq!(floats(&draw.vertices[16..24]), vec![1.0, 1.0, 1.0, 1.0, 7.0, 8.0, 1.0, 1.0]);
}

#[test]
fn colours_and_their_builders() {
    let at = |c: Color| [f32::from_bits(c.r), f32::from_bits(c.g), f32::from_bits(c.b), f32::from_bits(c.a)];
    assert_eq!(at(Color::white()), [1.0, 1.0, 1.0, 1.0]);
    assert_eq!(at(Color::black()), [0.0, 0.0, 0.0, 1.0]);
    assert_eq!(at(Color::red()), [1.0, 0.0, 0.0, 1.0]);
    assert_eq!(at(Color::orange()), [1.0, 0.5, 0.0, 1.0]);
    assert_eq!(at(Color::yellow()), [1.0, 1.0, 0.0, 1.0]);
    assert_eq!(at(Color::green()), [0.0, 1.0, 0.0, 1.0]);
    assert_eq!(at(Color::cyan()), [0.0, 1.0, 1.0, 1.0]);
    assert_eq!(at(Color::blue()), [0.0, 0.0, 1.0, 1.0]);
    assert_eq!(at(Color::magenta()), [1.0, 0.0, 0.5, 1.0]);
    assert_eq!(at(Color::purple()), [1.0, 0.0, 1.0, 1.0]);
    assert_eq!(at(Color::indigo()), [0.5, 0.0, 1.0, 1.0]);
    let c = Color::black()
        .with_red(0.1f32.to_bits())
        .with_green(0.2f32.to_bits())
        .with_blue(0.3f32.to_bits())
        .with_alpha(0.4f32.to_bits());
    assert_eq!(at(c), [0.1, 0.2, 0.3, 0.4]);
}

#[test]
fn can_push_tells_what_push_rect_takes() {
    let (mut gfx, a, _) = two_pages();
    let uv = edges(0.0, 0.0, 1.0, 1.0);
    assert!(gfx.can_push(None));
    assert!(gfx.can_push(Some((a, uv))));
    gfx.push_rect(edges(0.0, 0.0, 1.0, 1.0), Color::white(), Some((a, uv)));
    assert!(gfx.can_push(Some((a, uv))));
    // a bitmap of another atlas is none of this renderer's
    let mut other = Graphics::new();
    let data = vec![0u8; 4 * 2048 * 2047];
    other.new_texture_from_bytes(&data, 2048, 2047);
    other.new_texture_from_bytes(&data, 2048, 2047);
    let c = other.new_texture_from_bytes(&data, 2048, 2047).handle;
    assert!(!gfx.can_push(Some((c, uv))));
    assert!(other.can_push(Some((c, uv))));
}
