use rasterizer::algebra::{FourD, Matrix, ThreeD};
use rasterizer::colors::RGBA;
use rasterizer::mesh::Mesh;
use rasterizer::rasterizer::{CullMode, DrawCommand, Rasterizer, ViewPort};

fn pixel(r: &Rasterizer, x: usize, y: usize) -> u32 {
    r.pixels[x + y * r.width]
}

fn channels(p: u32) -> (u32, u32, u32) {
    ((p >> 16) & 0xff, (p >> 8) & 0xff, p & 0xff)
}

/// A triangle that covers the whole clip square and winds clockwise on the
/// screen, with red, green and blue corners.
fn covering_triangle() -> Mesh {
    Mesh::new(
        vec![ThreeD::new(-1, -1, 0), ThreeD::new(-1, 3, 0), ThreeD::new(3, -1, 0)],
        vec![RGBA::red(), RGBA::green(), RGBA::blue()],
        None,
    )
    .unwrap()
}

#[test]
fn new_framebuffer_is_zeroed_and_fully_viewed() {
    let r = Rasterizer::new(5, 3);
    assert_eq!(r.pixels.len(), 15);
    assert!(r.pixels.iter().all(|p| *p == 0));
    assert_eq!(r.view_port, ViewPort { x_min: 0, x_max: 5, y_min: 0, y_max: 3 });
}

#[test]
fn clear_fills_every_pixel() {
    let mut r = Rasterizer::new(3, 2);
    r.clear(RGBA::new(1, 2, 3));
    assert!(r.pixels.iter().all(|p| *p == 0x0001_0203));
}

#[test]
fn view_port_maps_clip_space() {
    let vp = ViewPort { x_min: 0, x_max: 4, y_min: 0, y_max: 4 };
    assert_eq!(vp.apply(&FourD::new(1, 1, 0, 2)), Some((48, 16)));
    assert_eq!(vp.apply(&FourD::new(-1, -1, 0, -2)), Some((48, 16)));
    assert_eq!(vp.apply(&FourD::new(-3, 0, 0, 1)), Some((-64, 32)));
    assert_eq!(vp.apply(&FourD::new(1, 1, 0, 0)), None);
}

#[test]
fn full_triangle_blends_corner_colors() {
    let mesh = covering_triangle();
    let mut r = Rasterizer::new(4, 4);
    r.clear(RGBA::new(0, 0, 0));
    r.draw(DrawCommand { mesh: &mesh, cull_mode: CullMode::Disabled, transform: Matrix::identity() });
    // every pixel center lies inside
    assert!(r.pixels.iter().all(|p| *p != 0));
    // near the centroid the three colors mix in about equal parts
    let (cr, cg, cb) = channels(pixel(&r, 2, 1));
    assert_eq!((cr, cg, cb), (95, 79, 79));
    for c in [cr, cg, cb] {
        assert!(60 <= c && c <= 110);
    }
    // next to the red corner red dominates
    assert_eq!(channels(pixel(&r, 0, 3)), (223, 15, 15));
    // red falls off smoothly away from its corner
    assert!(channels(pixel(&r, 0, 3)).0 > channels(pixel(&r, 1, 2)).0);
    assert!(channels(pixel(&r, 1, 2)).0 > channels(pixel(&r, 2, 1)).0);
    assert!(channels(pixel(&r, 2, 1)).0 > channels(pixel(&r, 3, 0)).0);
}

#[test]
fn clockwise_cull_skips_clockwise_triangle() {
    let mesh = covering_triangle();
    let mut r = Rasterizer::new(4, 4);
    r.clear(RGBA::new(0, 0, 0));
    r.draw(DrawCommand { mesh: &mesh, cull_mode: CullMode::ClockWise, transform: Matrix::identity() });
    assert!(r.pixels.iter().all(|p| *p == 0));
    r.draw(DrawCommand { mesh: &mesh, cull_mode: CullMode::CounterClockWise, transform: Matrix::identity() });
    assert_eq!(channels(pixel(&r, 2, 1)), (95, 79, 79));
}

#[test]
fn counter_clockwise_triangle_is_reordered() {
    // the same triangle with two corners swapped winds the other way
    let mesh = Mesh::new(
        vec![ThreeD::new(-1, -1, 0), ThreeD::new(3, -1, 0), ThreeD::new(-1, 3, 0)],
        vec![RGBA::red(), RGBA::blue(), RGBA::green()],
        None,
    )
    .unwrap();
    let mut r = Rasterizer::new(4, 4);
    r.draw(DrawCommand { mesh: &mesh, cull_mode: CullMode::CounterClockWise, transform: Matrix::identity() });
    assert!(r.pixels.iter().all(|p| *p == 0));
    r.draw(DrawCommand { mesh: &mesh, cull_mode: CullMode::ClockWise, transform: Matrix::identity() });
    assert_eq!(channels(pixel(&r, 2, 1)), (95, 79, 79));
}

#[test]
fn indexed_square_fills_without_gaps() {
    let mesh = Mesh::rectangle();
    let mut r = Rasterizer::new(4, 4);
    r.clear(RGBA::new(1, 2, 3));
    r.draw(DrawCommand { mesh: &mesh, cull_mode: CullMode::Disabled, transform: Matrix::identity() });
    assert!(r.pixels.iter().all(|p| *p != 0x0001_0203));
    assert_eq!(channels(pixel(&r, 0, 3)), (191, 31, 31));
}

#[test]
fn degenerate_and_weightless_triangles_are_skipped() {
    let flat = Mesh::new(
        vec![ThreeD::new(-1, -1, 0), ThreeD::new(0, 0, 0), ThreeD::new(1, 1, 0)],
        vec![RGBA::red(), RGBA::green(), RGBA::blue()],
        None,
    )
    .unwrap();
    let mut r = Rasterizer::new(4, 4);
    r.draw(DrawCommand { mesh: &flat, cull_mode: CullMode::Disabled, transform: Matrix::identity() });
    assert!(r.pixels.iter().all(|p| *p == 0));
    // w becomes x, which is zero at the first corner
    let to_x = Matrix { values: [1, 0, 0, 0, 0, 1, 0, 0, 0, 0, 1, 0, 1, 0, 0, 0] };
    let mesh = Mesh::new(
        vec![ThreeD::new(0, -1, 0), ThreeD::new(1, 3, 0), ThreeD::new(3, -1, 0)],
        vec![RGBA::red(), RGBA::green(), RGBA::blue()],
        None,
    )
    .unwrap();
    r.draw(DrawCommand { mesh: &mesh, cull_mode: CullMode::Disabled, transform: to_x });
    assert!(r.pixels.iter().all(|p| *p == 0));
}

#[test]
fn later_triangle_overwrites_earlier() {
    let mesh = Mesh::new(
        vec![
            ThreeD::new(-1, -1, 0), ThreeD::new(-1, 3, 0), ThreeD::new(3, -1, 0),
            ThreeD::new(-1, -1, 5), ThreeD::new(-1, 3, 5), ThreeD::new(3, -1, 5),
        ],
        vec![
            RGBA::red(), RGBA::red(), RGBA::red(),
            RGBA::blue(), RGBA::blue(), RGBA::blue(),
        ],
        None,
    )
    .unwrap();
    let mut r = Rasterizer::new(4, 4);
    r.draw(DrawCommand { mesh: &mesh, cull_mode: CullMode::Disabled, transform: Matrix::identity() });
    assert!(r.pixels.iter().all(|p| *p == 0x0000_00ff));
}

#[test]
fn partial_triangle_stays_in_its_box() {
    // a small triangle in the top-left quadrant of an 8×8 buffer
    let mesh = Mesh::new(
        vec![ThreeD::new(-1, 0, 0), ThreeD::new(-1, 1, 0), ThreeD::new(0, 1, 0)],
        vec![RGBA::red(), RGBA::red(), RGBA::red()],
        None,
    )
    .unwrap();
    let mut r = Rasterizer::new(8, 8);
    r.draw(DrawCommand { mesh: &mesh, cull_mode: CullMode::Disabled, transform: Matrix::identity() });
    for y in 0..8 {
        for x in 0..8 {
            let inside = x + y <= 3;
            assert_eq!(pixel(&r, x, y) != 0, inside, "pixel {} {}", x, y);
        }
    }
}

#[test]
fn resize_reallocates_and_resets_view() {
    let mut r = Rasterizer::new(4, 4);
    r.clear(RGBA::red());
    r.resize(4, 4);
    assert_eq!(r.pixels.len(), 16);
    assert!(r.pixels.iter().all(|p| *p == 0x00ff_0000));
    r.resize(6, 3);
    assert_eq!((r.width, r.height), (6, 3));
    assert_eq!(r.pixels.len(), 18);
    assert!(r.pixels.iter().all(|p| *p == 0));
    assert_eq!(r.view_port, ViewPort { x_min: 0, x_max: 6, y_min: 0, y_max: 3 });
}

#[test]
fn perspective_cube_draws_in_center() {
    let cube = Mesh::cube();
    let projection = Matrix::perspective(1, 10, 1, 1);
    let camera = Matrix::translate(ThreeD::new(0, 0, -5));
    let transform = projection.mul(&camera);
    let mut r = Rasterizer::new(16, 16);
    r.clear(RGBA::new(1, 2, 3));
    r.draw(DrawCommand { mesh: &cube, cull_mode: CullMode::ClockWise, transform });
    // the front face (+Z, blue) faces the camera
    assert_eq!(pixel(&r, 8, 8), 0x0000_00ff);
    assert_eq!(pixel(&r, 0, 0), 0x0001_0203);
}
