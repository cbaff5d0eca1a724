//! Scan conversion of transformed triangles into a packed-pixel framebuffer.
//!
//! Screen positions are kept in fixed point, `SUBPIXEL` steps per pixel, and
//! every edge function and barycentric weight is computed exactly.
use vstd::prelude::*;
use crate::algebra::{det2d_spec, mat_vec, FourD, Matrix, Quad, COORD_LIMIT};
use crate::mesh::Mesh;
use vstd::math::{max, min};
use crate::colors::{blend_spec, RGBA};

verus! {

/// Fixed-point steps per pixel of a screen position.
pub const SUBPIXEL: i64 = 16;

/// Largest framebuffer width or height.
pub const MAX_DIM: usize = 0x8000;

/// Largest magnitude of a screen coordinate, in subpixel steps, of a vertex
/// that is drawn; a triangle with a vertex farther out is skipped.
pub const GUARD: i64 = 0x100_0000_0000;

/// The pixel rectangle `[x_min, x_max) × [y_min, y_max)` that clip space maps to.
#[derive(Clone, Copy, Debug, PartialEq, Eq, Structural)]
pub struct ViewPort {
    pub x_min: usize,
    pub x_max: usize,
    pub y_min: usize,
    pub y_max: usize,
}

/// Floor of `(extent * SUBPIXEL * (w + c)) / (2 * w)` for `w > 0`: where the
/// clip coordinate `c / w` falls across a span of `extent` pixels.
pub open spec fn span_offset(extent: int, c: int, w: int) -> int {
    (extent * SUBPIXEL * (w + c)) / (2 * w)
}

/// The screen position, in subpixel steps, of the clip-space vector `v` after
/// the perspective divide, or `None` where `w == 0` or the position lies
/// beyond `GUARD`. Clip-space +y is up and screen +y is down.
pub open spec fn project(vp: ViewPort, v: Quad) -> Option<(int, int)> {
    let (x, y, w) = if v.3 < 0 { (-v.0, -v.1, -v.3) } else { (v.0, v.1, v.3) };
    let sx = vp.x_min * SUBPIXEL + span_offset(vp.x_max - vp.x_min, x, w);
    let sy = vp.y_min * SUBPIXEL + span_offset(vp.y_max - vp.y_min, -y, w);
    if w == 0 || sx < -GUARD || sx > GUARD || sy < -GUARD || sy > GUARD {
        None
    } else {
        Some((sx, sy))
    }
}

impl ViewPort {
    pub open spec fn wf(&self) -> bool {
        self.x_min <= self.x_max <= MAX_DIM && self.y_min <= self.y_max <= MAX_DIM
    }

    /// Maps a clip-space vertex to the screen (see `project`).
    pub fn apply(&self, v: &FourD) -> (r: Option<(i64, i64)>)
        requires
            self.wf(),
        ensures
            r.is_some() == project(*self, v@).is_some(),
            r.is_some() ==> (r.unwrap().0 as int, r.unwrap().1 as int) == project(*self, v@).unwrap(),
    {
        if v.w == 0 {
            return None;
        }
        let neg = v.w < 0;
        let x: i128 = if neg { -(v.x as i128) } else { v.x as i128 };
        let y: i128 = if neg { -(v.y as i128) } else { v.y as i128 };
        let w: i128 = if neg { -(v.w as i128) } else { v.w as i128 };
        let sx = self.x_min as i128 * SUBPIXEL as i128 + offset_along(self.x_max - self.x_min, x, w);
        let sy = self.y_min as i128 * SUBPIXEL as i128 + offset_along(self.y_max - self.y_min, -y, w);
        if sx < -(GUARD as i128) || sx > GUARD as i128 || sy < -(GUARD as i128) || sy > GUARD as i128 {
            return None;
        }
        Some((sx as i64, sy as i64))
    }
}

/// `span_offset(extent, c, w)` in machine integers.
fn offset_along(extent: usize, c: i128, w: i128) -> (r: i128)
    requires
        extent <= MAX_DIM,
        0 < w <= 0x8000_0000_0000_0000,
        -0x8000_0000_0000_0000 <= c <= 0x8000_0000_0000_0000,
    ensures
        r == span_offset(extent as int, c as int, w as int),
        -0x10_0000_0000_0000_0000_0000 <= r <= 0x10_0000_0000_0000_0000_0000,
{
    let scaled: i128 = extent as i128 * 16;
    proof {
        assert(-0x10_0000_0000_0000_0000_0000 <= scaled * (w + c) <= 0x10_0000_0000_0000_0000_0000)
            by (nonlinear_arith)
            requires
                0 <= scaled <= 0x8_0000,
                -0x1_0000_0000_0000_0000 <= w + c <= 0x1_0000_0000_0000_0000,
        ;
        assert(extent * SUBPIXEL * (w + c) == scaled * (w + c));
    }
    let num: i128 = scaled * (w + c);
    let den: i128 = 2 * w;
    let q = floor_div(num, den);
    proof {
        lemma_div_bounded(num as int, den as int);
    }
    q
}

proof fn lemma_div_bounded(n: int, d: int)
    requires
        -0x10_0000_0000_0000_0000_0000 <= n <= 0x10_0000_0000_0000_0000_0000,
        d >= 1,
    ensures
        -0x10_0000_0000_0000_0000_0000 <= n / d <= 0x10_0000_0000_0000_0000_0000,
{
    assert(-0x10_0000_0000_0000_0000_0000 <= n / d <= 0x10_0000_0000_0000_0000_0000) by (nonlinear_arith)
        requires
            -0x10_0000_0000_0000_0000_0000 <= n <= 0x10_0000_0000_0000_0000_0000,
            d >= 1,
    ;
}

/// Division rounding toward negative infinity, for a positive divisor.
fn floor_div(n: i128, d: i128) -> (q: i128)
    requires
        0 < d <= 0x100_0000_0000_0000_0000_0000_0000_0000,
        -0x100_0000_0000_0000_0000_0000_0000_0000 <= n,
    ensures
        q == n as int / d as int,
{
    if n >= 0 {
        n / d
    } else {
        let m: i128 = -n;
        proof {
        }
        let t: i128 = (m - 1 + d) / d;
        proof {
            let tt = t as int;
            let (mi, di, ni) = (m as int, d as int, n as int);
            assert(tt * di <= mi - 1 + di < tt * di + di) by (nonlinear_arith)
                requires tt == (mi - 1 + di) / di, di > 0, mi - 1 + di >= 0;
            assert(-tt * di <= ni < -tt * di + di) by (nonlinear_arith)
                requires tt * di <= mi - 1 + di < tt * di + di, mi == -ni;
            vstd::arithmetic::div_mod::lemma_fundamental_div_mod_converse(
                n as int, d as int, -tt, n - (-tt) * d);
        }
        -t
    }
}

/// A vertex on the screen: its position in subpixel steps and its color.
#[derive(Clone, Copy, Debug, PartialEq, Eq, Structural)]
pub struct Corner {
    pub x: i64,
    pub y: i64,
    pub color: RGBA,
}

/// The edge function: `det2d(b - a, p - a)` over screen positions.
pub open spec fn edge(a: Corner, b: Corner, px: int, py: int) -> int {
    det2d_spec(
        (b.x - a.x, b.y - a.y, 0, 0),
        (px - a.x, py - a.y, 0, 0),
    )
}

/// Twice the signed screen area of a triangle: `det2d(v1 - v0, v2 - v0)`.
/// Negative means counter-clockwise on the screen.
pub open spec fn signed_area(v0: Corner, v1: Corner, v2: Corner) -> int {
    edge(v0, v1, v2.x as int, v2.y as int)
}

/// Which winding a draw call skips.
#[derive(Clone, Copy, Debug, PartialEq, Eq, Structural)]
pub enum CullMode {
    Disabled,
    ClockWise,
    CounterClockWise,
}

/// A triangle ready for scan conversion: wound clockwise on the screen, with
/// `area` its positive doubled area.
#[derive(Clone, Copy, Debug, PartialEq, Eq, Structural)]
pub struct Triangle {
    pub v0: Corner,
    pub v1: Corner,
    pub v2: Corner,
    pub area: i128,
}

/// Whether a triangle of doubled signed area `area` is culled; a triangle of
/// zero area covers no pixel and is always skipped.
pub open spec fn culled(area: int, mode: CullMode) -> bool {
    area == 0 || match mode {
        CullMode::Disabled => false,
        CullMode::ClockWise => area >= 0,
        CullMode::CounterClockWise => area < 0,
    }
}

/// The triangle that is drawn for three screen corners, or `None` where it is
/// culled. A counter-clockwise triangle has corners 1 and 2 swapped.
pub open spec fn setup(c0: Corner, c1: Corner, c2: Corner, mode: CullMode) -> Option<Triangle> {
    let area = signed_area(c0, c1, c2);
    if culled(area, mode) {
        None
    } else if area < 0 {
        Some(Triangle { v0: c0, v1: c2, v2: c1, area: (-area) as i128 })
    } else {
        Some(Triangle { v0: c0, v1: c1, v2: c2, area: area as i128 })
    }
}

/// The screen position of the center of pixel `(x, y)` along one axis.
pub open spec fn center(p: int) -> int {
    p * SUBPIXEL + SUBPIXEL / 2
}

impl Corner {
    pub open spec fn within_guard(&self) -> bool {
        -GUARD <= self.x <= GUARD && -GUARD <= self.y <= GUARD
    }
}

/// Every corner lies within `GUARD`.
pub open spec fn corners_within_guard(t: Triangle) -> bool {
    t.v0.within_guard() && t.v1.within_guard() && t.v2.within_guard()
}

/// `edge(a, b, px, py)` for corners and a point within `GUARD`.
fn edge_at(a: &Corner, b: &Corner, px: i64, py: i64) -> (r: i128)
    requires
        a.within_guard(),
        b.within_guard(),
        -GUARD <= px <= GUARD,
        -GUARD <= py <= GUARD,
    ensures
        r == edge(*a, *b, px as int, py as int),
        -0x20_0000_0000_0000_0000_0000 <= r <= 0x20_0000_0000_0000_0000_0000,
{
    let ex: i128 = b.x as i128 - a.x as i128;
    let ey: i128 = b.y as i128 - a.y as i128;
    let qx: i128 = px as i128 - a.x as i128;
    let qy: i128 = py as i128 - a.y as i128;
    proof {
        lemma_small_product(ex as int, qy as int);
        lemma_small_product(ey as int, qx as int);
    }
    ex * qy - ey * qx
}

proof fn lemma_small_product(a: int, b: int)
    requires
        -0x300_0000_0000 <= a <= 0x300_0000_0000,
        -0x300_0000_0000 <= b <= 0x300_0000_0000,
    ensures
        -0x10_0000_0000_0000_0000_0000 <= a * b <= 0x10_0000_0000_0000_0000_0000,
{
    assert(-0x10_0000_0000_0000_0000_0000 <= a * b <= 0x10_0000_0000_0000_0000_0000) by (nonlinear_arith)
        requires
            -0x300_0000_0000 <= a <= 0x300_0000_0000,
            -0x300_0000_0000 <= b <= 0x300_0000_0000,
    ;
}

/// Culls, then puts a kept triangle in clockwise order (see `setup`).
pub fn setup_triangle(c0: Corner, c1: Corner, c2: Corner, mode: CullMode) -> (r: Option<Triangle>)
    requires
        c0.within_guard(),
        c1.within_guard(),
        c2.within_guard(),
    ensures
        r == setup(c0, c1, c2, mode),
        r matches Some(t) ==> corners_within_guard(t) && t.area == signed_area(t.v0, t.v1, t.v2) && t.area > 0,
{
    let area = edge_at(&c0, &c1, c2.x, c2.y);
    let ccw = area < 0;
    let skip = area == 0 || match mode {
        CullMode::Disabled => false,
        CullMode::ClockWise => !ccw,
        CullMode::CounterClockWise => ccw,
    };
    if skip {
        None
    } else if ccw {
        proof {
            law_winding_swap(c0, c1, c2);
        }
        Some(Triangle { v0: c0, v1: c2, v2: c1, area: -area })
    } else {
        Some(Triangle { v0: c0, v1: c1, v2: c2, area })
    }
}

/// Swapping two corners of a triangle flips the sign of its signed area.
pub proof fn law_winding_swap(v0: Corner, v1: Corner, v2: Corner)
    ensures
        signed_area(v0, v2, v1) == -signed_area(v0, v1, v2),
        signed_area(v1, v0, v2) == -signed_area(v0, v1, v2),
        signed_area(v2, v1, v0) == -signed_area(v0, v1, v2),
{
    let (ax, ay) = (v1.x - v0.x, v1.y - v0.y);
    let (bx, by) = (v2.x - v0.x, v2.y - v0.y);
    assert(signed_area(v0, v2, v1) == -signed_area(v0, v1, v2)) by (nonlinear_arith)
        requires
            signed_area(v0, v1, v2) == ax * by - ay * bx,
            signed_area(v0, v2, v1) == bx * ay - by * ax,
    ;
    assert(signed_area(v1, v0, v2) == -signed_area(v0, v1, v2)) by (nonlinear_arith)
        requires
            signed_area(v0, v1, v2) == ax * by - ay * bx,
            signed_area(v1, v0, v2) == (-ax) * (by - ay) - (-ay) * (bx - ax),
    ;
    assert(signed_area(v2, v1, v0) == -signed_area(v0, v1, v2)) by (nonlinear_arith)
        requires
            signed_area(v0, v1, v2) == ax * by - ay * bx,
            signed_area(v2, v1, v0) == (ax - bx) * (-by) - (ay - by) * (-bx),
    ;
}

/// Culling goes by screen winding alone: a clockwise triangle (positive
/// doubled area) is skipped under `ClockWise` and drawn as given under
/// `CounterClockWise` and `Disabled`; a counter-clockwise one is the reverse,
/// and is drawn with corners 1 and 2 swapped.
pub proof fn law_cull_by_winding(c0: Corner, c1: Corner, c2: Corner)
    ensures
        signed_area(c0, c1, c2) > 0 ==> setup(c0, c1, c2, CullMode::ClockWise) is None,
        signed_area(c0, c1, c2) > 0 ==> setup(c0, c1, c2, CullMode::CounterClockWise) == Some(
            Triangle { v0: c0, v1: c1, v2: c2, area: signed_area(c0, c1, c2) as i128 },
        ),
        signed_area(c0, c1, c2) > 0 ==> setup(c0, c1, c2, CullMode::Disabled) == setup(c0, c1, c2, CullMode::CounterClockWise),
        signed_area(c0, c1, c2) < 0 ==> setup(c0, c1, c2, CullMode::CounterClockWise) is None,
        signed_area(c0, c1, c2) < 0 ==> setup(c0, c1, c2, CullMode::ClockWise) == Some(
            Triangle { v0: c0, v1: c2, v2: c1, area: (-signed_area(c0, c1, c2)) as i128 },
        ),
        signed_area(c0, c1, c2) < 0 ==> setup(c0, c1, c2, CullMode::Disabled) == setup(c0, c1, c2, CullMode::ClockWise),
        setup(c0, c1, c2, CullMode::Disabled) is None <==> signed_area(c0, c1, c2) == 0,
{
}

/// The three edge functions at any point sum to the doubled area, so the
/// barycentric weights `edge(v1, v2, p) / area`, `edge(v2, v0, p) / area` and
/// `edge(v0, v1, p) / area` sum to one; at each corner its own weight is one
/// and the other two are zero.
pub proof fn law_barycentric_partition(v0: Corner, v1: Corner, v2: Corner, px: int, py: int)
    ensures
        edge(v1, v2, px, py) + edge(v2, v0, px, py) + edge(v0, v1, px, py) == signed_area(v0, v1, v2),
        edge(v1, v2, v0.x as int, v0.y as int) == signed_area(v0, v1, v2),
        edge(v2, v0, v0.x as int, v0.y as int) == 0,
        edge(v0, v1, v0.x as int, v0.y as int) == 0,
        edge(v1, v2, v1.x as int, v1.y as int) == 0,
        edge(v2, v0, v1.x as int, v1.y as int) == signed_area(v0, v1, v2),
        edge(v0, v1, v1.x as int, v1.y as int) == 0,
        edge(v1, v2, v2.x as int, v2.y as int) == 0,
        edge(v2, v0, v2.x as int, v2.y as int) == 0,
        edge(v0, v1, v2.x as int, v2.y as int) == signed_area(v0, v1, v2),
{
    let (x0, y0, x1, y1, x2, y2) = (v0.x as int, v0.y as int, v1.x as int, v1.y as int, v2.x as int, v2.y as int);
    lemma_edge_expanded(x1, y1, x2, y2, px, py);
    lemma_edge_expanded(x2, y2, x0, y0, px, py);
    lemma_edge_expanded(x0, y0, x1, y1, px, py);
    lemma_edge_expanded(x0, y0, x1, y1, x2, y2);
    lemma_edge_expanded(x1, y1, x2, y2, x0, y0);
    lemma_edge_expanded(x2, y2, x0, y0, x0, y0);
    lemma_edge_expanded(x0, y0, x1, y1, x0, y0);
    lemma_edge_expanded(x1, y1, x2, y2, x1, y1);
    lemma_edge_expanded(x2, y2, x0, y0, x1, y1);
    lemma_edge_expanded(x0, y0, x1, y1, x1, y1);
    lemma_edge_expanded(x1, y1, x2, y2, x2, y2);
    lemma_edge_expanded(x2, y2, x0, y0, x2, y2);
}

/// `det2d(b - a, p - a)` multiplied out.
proof fn lemma_edge_expanded(ax: int, ay: int, bx: int, by: int, px: int, py: int)
    ensures
        (bx - ax) * (py - ay) - (by - ay) * (px - ax)
            == bx * py - bx * ay - ax * py - by * px + by * ax + ay * px,
{
    assert((bx - ax) * (py - ay) - (by - ay) * (px - ax)
        == bx * py - bx * ay - ax * py - by * px + by * ax + ay * px) by (nonlinear_arith);
}

/// Whether the center of pixel `(x, y)` lies on or inside every edge of `t`.
pub open spec fn inside(t: Triangle, x: int, y: int) -> bool {
    &&& edge(t.v0, t.v1, center(x), center(y)) >= 0
    &&& edge(t.v1, t.v2, center(x), center(y)) >= 0
    &&& edge(t.v2, t.v0, center(x), center(y)) >= 0
}

/// The color of pixel `(x, y)` inside `t`: the corner colors weighted by the
/// barycentric coordinates of the pixel center, packed.
pub open spec fn shade(t: Triangle, x: int, y: int) -> u32 {
    blend_spec(
        t.v0.color,
        t.v1.color,
        t.v2.color,
        edge(t.v1, t.v2, center(x), center(y)),
        edge(t.v2, t.v0, center(x), center(y)),
        edge(t.v0, t.v1, center(x), center(y)),
        t.area as int,
    ).packed()
}

pub open spec fn min3(a: int, b: int, c: int) -> int {
    if a <= b && a <= c { a } else if b <= c { b } else { c }
}

pub open spec fn max3(a: int, b: int, c: int) -> int {
    if a >= b && a >= c { a } else if b >= c { b } else { c }
}

/// The pixel rectangle `[x_lo, x_hi) × [y_lo, y_hi)` scanned for `t`: the
/// triangle's bounding box, rounded outward to whole pixels, within the view
/// port and the framebuffer.
pub open spec fn pixel_box(t: Triangle, vp: ViewPort, width: int, height: int) -> (int, int, int, int) {
    let x_lo = max(vp.x_min as int, min3(t.v0.x as int, t.v1.x as int, t.v2.x as int) / SUBPIXEL as int);
    let x_hi = min(min(width, vp.x_max as int), (max3(t.v0.x as int, t.v1.x as int, t.v2.x as int) + SUBPIXEL - 1) / SUBPIXEL as int);
    let y_lo = max(vp.y_min as int, min3(t.v0.y as int, t.v1.y as int, t.v2.y as int) / SUBPIXEL as int);
    let y_hi = min(min(height, vp.y_max as int), (max3(t.v0.y as int, t.v1.y as int, t.v2.y as int) + SUBPIXEL - 1) / SUBPIXEL as int);
    (x_lo, x_hi, y_lo, y_hi)
}

/// Whether drawing `t` writes pixel `(x, y)`.
pub open spec fn covers(t: Triangle, bx: (int, int, int, int), x: int, y: int) -> bool {
    bx.0 <= x < bx.1 && bx.2 <= y < bx.3 && inside(t, x, y)
}

/// The framebuffer `pixels`, `width` pixels a row, after drawing `t` over the
/// rectangle `bx`.
pub open spec fn paint(pixels: Seq<u32>, width: int, t: Triangle, bx: (int, int, int, int)) -> Seq<u32> {
    Seq::new(
        pixels.len(),
        |k: int|
            if covers(t, bx, k % width, k / width) {
                shade(t, k % width, k / width)
            } else {
                pixels[k]
            },
    )
}

/// The screen corner of logical vertex `i` of `mesh` under `transform`.
pub open spec fn corner_of(vp: ViewPort, mesh: &Mesh, transform: Seq<int>, i: int) -> Option<Corner> {
    match project(vp, mat_vec(transform, mesh.position(i).point())) {
        Some(p) => Some(Corner { x: p.0 as i64, y: p.1 as i64, color: mesh.color(i) }),
        None => None,
    }
}

/// Triangle `n` of `mesh` as it is drawn, or `None` where it is skipped.
pub open spec fn triangle_of(vp: ViewPort, mesh: &Mesh, transform: Seq<int>, mode: CullMode, n: int) -> Option<Triangle> {
    match (corner_of(vp, mesh, transform, 3 * n), corner_of(vp, mesh, transform, 3 * n + 1),
        corner_of(vp, mesh, transform, 3 * n + 2)) {
        (Some(c0), Some(c1), Some(c2)) => setup(c0, c1, c2, mode),
        _ => None,
    }
}

/// The framebuffer after drawing the first `n` triangles of a command, in
/// order, onto `pixels`.
pub open spec fn render(
    pixels: Seq<u32>,
    width: int,
    height: int,
    vp: ViewPort,
    mesh: &Mesh,
    transform: Seq<int>,
    mode: CullMode,
    n: nat,
) -> Seq<u32>
    decreases n,
{
    if n == 0 {
        pixels
    } else {
        let before = render(pixels, width, height, vp, mesh, transform, mode, (n - 1) as nat);
        match triangle_of(vp, mesh, transform, mode, n - 1) {
            Some(t) => paint(before, width, t, pixel_box(t, vp, width, height)),
            None => before,
        }
    }
}

/// A mesh to draw, the transform from object space to clip space, and the
/// winding to cull.
pub struct DrawCommand<'a> {
    pub mesh: &'a Mesh,
    pub cull_mode: CullMode,
    pub transform: Matrix,
}

/// A framebuffer of `width × height` packed pixels, row-major, and the view
/// port that clip space maps to.
pub struct Rasterizer {
    pub pixels: Vec<u32>,
    pub width: usize,
    pub height: usize,
    pub view_port: ViewPort,
}

pub open spec fn full_view(width: int, height: int) -> ViewPort {
    ViewPort { x_min: 0, x_max: width as usize, y_min: 0, y_max: height as usize }
}

impl Rasterizer {
    pub open spec fn wf(&self) -> bool {
        &&& self.width <= MAX_DIM
        &&& self.height <= MAX_DIM
        &&& self.pixels@.len() == self.width * self.height
        &&& self.view_port.wf()
    }

    /// A framebuffer of the given size, all pixels zero, viewing all of it.
    pub fn new(width: usize, height: usize) -> (r: Rasterizer)
        requires
            width <= MAX_DIM,
            height <= MAX_DIM,
        ensures
            r.wf(),
            r.width == width,
            r.height == height,
            r.pixels@ == Seq::new((width * height) as nat, |k: int| 0u32),
            r.view_port == full_view(width as int, height as int),
    {
        proof {
            assert(width * height <= MAX_DIM * MAX_DIM) by (nonlinear_arith)
                requires width <= MAX_DIM, height <= MAX_DIM;
        }
        let pixels = zeroed(width * height);
        Rasterizer {
            pixels,
            width,
            height,
            view_port: ViewPort { x_min: 0, x_max: width, y_min: 0, y_max: height },
        }
    }

    /// Fills every pixel with `color`.
    pub fn clear(&mut self, color: RGBA)
        ensures
            final(self).pixels@ == Seq::new(old(self).pixels@.len(), |k: int| color.packed()),
            final(self).width == old(self).width,
            final(self).height == old(self).height,
            final(self).view_port == old(self).view_port,
    {
        let value = color.to_color();
        let n = self.pixels.len();
        let mut k: usize = 0;
        while k < n
            invariant
                n == self.pixels@.len(),
                n == old(self).pixels@.len(),
                k <= n,
                self.width == old(self).width,
                self.height == old(self).height,
                self.view_port == old(self).view_port,
                value == color.packed(),
                forall|j: int| 0 <= j < k ==> #[trigger] self.pixels@[j] == value,
            decreases n - k,
        {
            self.pixels[k] = value;
            k += 1;
        }
        assert(self.pixels@ =~= Seq::new(old(self).pixels@.len(), |k: int| color.packed()));
    }

    /// Adopts the size that the display reports: on a change the buffer is
    /// reallocated, all pixels zero, and the view port covers it all.
    pub fn resize(&mut self, new_width: usize, new_height: usize)
        requires
            old(self).wf(),
            new_width <= MAX_DIM,
            new_height <= MAX_DIM,
        ensures
            final(self).wf(),
            final(self).width == new_width,
            final(self).height == new_height,
            new_width == old(self).width && new_height == old(self).height ==> *final(self) == *old(self),
            !(new_width == old(self).width && new_height == old(self).height) ==> {
                &&& final(self).pixels@ == Seq::new((new_width * new_height) as nat, |k: int| 0u32)
                &&& final(self).view_port == full_view(new_width as int, new_height as int)
            },
    {
        if new_width != self.width || new_height != self.height {
            *self = Rasterizer::new(new_width, new_height);
        }
    }

    /// Writes the packed `color` at pixel `(x, y)`.
    fn set(&mut self, x: usize, y: usize, color: RGBA)
        requires
            old(self).wf(),
            x < old(self).width,
            y < old(self).height,
        ensures
            final(self).pixels@ == old(self).pixels@.update(x + y * old(self).width, color.packed()),
            final(self).wf(),
            final(self).width == old(self).width,
            final(self).height == old(self).height,
            final(self).view_port == old(self).view_port,
    {
        proof {
            assert(x + y * self.width < self.width * self.height) by (nonlinear_arith)
                requires x < self.width, y < self.height;
            assert(self.width * self.height <= MAX_DIM * MAX_DIM) by (nonlinear_arith)
                requires self.width <= MAX_DIM, self.height <= MAX_DIM;
            assert(0 <= y * self.width) by (nonlinear_arith);
        }
        self.pixels[x + y * self.width] = color.to_color();
    }
    /// Draws the triangles of `cmd.mesh` in order: each vertex is transformed,
    /// divided by its weight and mapped through the view port; a triangle is
    /// skipped where a vertex has weight zero or lies beyond `GUARD`, where it
    /// has zero area, or where `cmd.cull_mode` culls its winding. A kept
    /// triangle overwrites every pixel of its box whose center lies inside it
    /// with the barycentric blend of its corner colors. A trailing group of
    /// fewer than three vertices is ignored.
    pub fn draw(&mut self, cmd: DrawCommand)
        requires
            old(self).wf(),
            cmd.mesh.wf(),
            cmd.mesh.bounded(),
            cmd.transform.bounded(),
        ensures
            final(self).pixels@ == render(
                old(self).pixels@,
                old(self).width as int,
                old(self).height as int,
                old(self).view_port,
                cmd.mesh,
                cmd.transform@,
                cmd.cull_mode,
                (cmd.mesh.vertex_count() / 3) as nat,
            ),
            final(self).width == old(self).width,
            final(self).height == old(self).height,
            final(self).view_port == old(self).view_port,
    {
        let total = cmd.mesh.len();
        let count = total / 3;
        proof {
            let vc = cmd.mesh.vertex_count() as int;
            assert(3 * (vc / 3) <= vc) by {
                vstd::arithmetic::div_mod::lemma_fundamental_div_mod(vc, 3);
            }
        }
        let mut n: usize = 0;
        while n < count
            invariant
                self.wf(),
                cmd.mesh.wf(),
                cmd.mesh.bounded(),
                cmd.transform.bounded(),
                count == cmd.mesh.vertex_count() / 3,
                3 * count <= total,
                total == cmd.mesh.vertex_count(),
                n <= count,
                self.width == old(self).width,
                self.height == old(self).height,
                self.view_port == old(self).view_port,
                self.pixels@ == render(
                    old(self).pixels@,
                    old(self).width as int,
                    old(self).height as int,
                    old(self).view_port,
                    cmd.mesh,
                    cmd.transform@,
                    cmd.cull_mode,
                    n as nat,
                ),
            decreases count - n,
        {
            let c0 = self.corner(cmd.mesh, &cmd.transform, 3 * n);
            let c1 = self.corner(cmd.mesh, &cmd.transform, 3 * n + 1);
            let c2 = self.corner(cmd.mesh, &cmd.transform, 3 * n + 2);
            match (c0, c1, c2) {
                (Some(c0), Some(c1), Some(c2)) => {
                    match setup_triangle(c0, c1, c2, cmd.cull_mode) {
                        Some(t) => self.fill(&t),
                        None => {},
                    }
                },
                _ => {},
            }
            n += 1;
        }
    }

    /// The screen corner of logical vertex `i` (see `corner_of`).
    fn corner(&self, mesh: &Mesh, transform: &Matrix, i: usize) -> (r: Option<Corner>)
        requires
            self.wf(),
            mesh.wf(),
            mesh.bounded(),
            transform.bounded(),
            i < mesh.vertex_count(),
        ensures
            r == corner_of(self.view_port, mesh, transform@, i as int),
            r matches Some(c) ==> c.within_guard(),
    {
        let p = mesh.get(i);
        proof {
            assert(0 <= mesh.slot(i as int) < mesh.positions@.len()) by {
                if mesh.indices.is_some() {
                    assert(crate::mesh::indices_in_range(mesh.index_seq().unwrap(), mesh.positions@.len()));
                }
            }
            assert(mesh.positions@[mesh.slot(i as int)].within(COORD_LIMIT as int));
        }
        let v = transform.apply(&p.as_point());
        match self.view_port.apply(&v) {
            Some(s) => Some(Corner { x: s.0, y: s.1, color: mesh.get_color(i) }),
            None => None,
        }
    }

    /// The pixel box of `t` (see `pixel_box`).
    fn box_of(&self, t: &Triangle) -> (r: (i128, i128, i128, i128))
        requires
            self.wf(),
            corners_within_guard(*t),
        ensures
            (r.0 as int, r.1 as int, r.2 as int, r.3 as int) == pixel_box(
                *t,
                self.view_port,
                self.width as int,
                self.height as int,
            ),
    {
        let vp = &self.view_port;
        let s = SUBPIXEL as i128;
        let lo_x = floor_div(min3_exec(t.v0.x, t.v1.x, t.v2.x) as i128, s);
        let hi_x = floor_div(max3_exec(t.v0.x, t.v1.x, t.v2.x) as i128 + s - 1, s);
        let lo_y = floor_div(min3_exec(t.v0.y, t.v1.y, t.v2.y) as i128, s);
        let hi_y = floor_div(max3_exec(t.v0.y, t.v1.y, t.v2.y) as i128 + s - 1, s);
        let x_end = if self.width <= vp.x_max { self.width } else { vp.x_max };
        let y_end = if self.height <= vp.y_max { self.height } else { vp.y_max };
        (
            if vp.x_min as i128 >= lo_x { vp.x_min as i128 } else { lo_x },
            if x_end as i128 <= hi_x { x_end as i128 } else { hi_x },
            if vp.y_min as i128 >= lo_y { vp.y_min as i128 } else { lo_y },
            if y_end as i128 <= hi_y { y_end as i128 } else { hi_y },
        )
    }

    /// Draws the clockwise triangle `t` over its pixel box.
    fn fill(&mut self, t: &Triangle)
        requires
            old(self).wf(),
            corners_within_guard(*t),
            t.area == signed_area(t.v0, t.v1, t.v2),
            t.area > 0,
        ensures
            final(self).pixels@ == paint(
                old(self).pixels@,
                old(self).width as int,
                *t,
                pixel_box(*t, old(self).view_port, old(self).width as int, old(self).height as int),
            ),
            final(self).width == old(self).width,
            final(self).height == old(self).height,
            final(self).view_port == old(self).view_port,
    {
        let (x_lo, x_hi, y_lo, y_hi) = self.box_of(t);
        let ghost bx = (x_lo as int, x_hi as int, y_lo as int, y_hi as int);
        let ghost w = self.width as int;
        let ghost before = self.pixels@;
        let mut y = y_lo;
        while y < y_hi
            invariant
                self.wf(),
                self.width == old(self).width,
                self.height == old(self).height,
                self.view_port == old(self).view_port,
                before == old(self).pixels@,
                w == self.width,
                self.pixels@.len() == before.len(),
                bx == pixel_box(*t, self.view_port, w, self.height as int),
                bx == (x_lo as int, x_hi as int, y_lo as int, y_hi as int),
                0 <= x_lo,
                x_hi <= w,
                0 <= y_lo <= y,
                y_hi <= self.height,
                corners_within_guard(*t),
                t.area == signed_area(t.v0, t.v1, t.v2),
                t.area > 0,
                forall|k: int| 0 <= k < before.len() ==> #[trigger] self.pixels@[k] == if covers(*t, bx, k % w, k / w) && k / w < y {
                    shade(*t, k % w, k / w)
                } else {
                    before[k]
                },
            decreases y_hi - y,
        {
            let mut x = x_lo;
            while x < x_hi
                invariant
                    self.wf(),
                    self.width == old(self).width,
                    self.height == old(self).height,
                    self.view_port == old(self).view_port,
                    w == self.width,
                    self.pixels@.len() == before.len(),
                    bx == (x_lo as int, x_hi as int, y_lo as int, y_hi as int),
                    0 <= x_lo <= x,
                    x_hi <= w,
                    0 <= y_lo <= y < y_hi,
                    y_hi <= self.height,
                    corners_within_guard(*t),
                    t.area == signed_area(t.v0, t.v1, t.v2),
                    t.area > 0,
                    forall|k: int| 0 <= k < before.len() ==> #[trigger] self.pixels@[k] == if covers(*t, bx, k % w, k / w) && (k / w < y || (k / w == y && k % w < x)) {
                        shade(*t, k % w, k / w)
                    } else {
                        before[k]
                    },
                decreases x_hi - x,
            {
                let ghost prev = self.pixels@;
                self.shade_pixel(t, x as usize, y as usize);
                proof {
                    let k0 = x + y * w;
                    let h = self.height as int;
                    assert(0 <= k0 < w * h) by (nonlinear_arith)
                        requires k0 == x + y * w, 0 <= x < w, 0 <= y < h;
                    assert(self.pixels@ == if inside(*t, x as int, y as int) {
                        prev.update(k0, shade(*t, x as int, y as int))
                    } else {
                        prev
                    });
                    assert forall|k: int| 0 <= k < before.len() implies #[trigger] self.pixels@[k] == if covers(*t, bx, k % w, k / w) && (k / w < y || (k / w == y && k % w < x + 1)) {
                        shade(*t, k % w, k / w)
                    } else {
                        before[k]
                    } by {
                        lemma_pixel_index(k, w, x as int, y as int);
                        if k != k0 {
                            if inside(*t, x as int, y as int) {
                                assert(prev.update(k0, shade(*t, x as int, y as int))[k] == prev[k]);
                            }
                            assert(self.pixels@[k] == prev[k]);
                        }
                    }
                }
                x += 1;
            }
            y += 1;
        }
        assert(self.pixels@ =~= paint(before, w, *t, bx));
    }

    /// Writes the shade of pixel `(x, y)` where its center lies inside `t`.
    fn shade_pixel(&mut self, t: &Triangle, x: usize, y: usize)
        requires
            old(self).wf(),
            x < old(self).width,
            y < old(self).height,
            corners_within_guard(*t),
            t.area == signed_area(t.v0, t.v1, t.v2),
            t.area > 0,
        ensures
            final(self).pixels@ == if inside(*t, x as int, y as int) {
                old(self).pixels@.update(x + y * old(self).width, shade(*t, x as int, y as int))
            } else {
                old(self).pixels@
            },
            final(self).wf(),
            final(self).width == old(self).width,
            final(self).height == old(self).height,
            final(self).view_port == old(self).view_port,
    {
        let px = x as i64 * SUBPIXEL + SUBPIXEL / 2;
        let py = y as i64 * SUBPIXEL + SUBPIXEL / 2;
        let d0 = edge_at(&t.v0, &t.v1, px, py);
        let d1 = edge_at(&t.v1, &t.v2, px, py);
        let d2 = edge_at(&t.v2, &t.v0, px, py);
        if d0 >= 0 && d1 >= 0 && d2 >= 0 {
            proof {
                law_barycentric_partition(t.v0, t.v1, t.v2, px as int, py as int);
            }
            let color = RGBA::blend(t.v0.color, t.v1.color, t.v2.color, d1, d2, d0, t.area);
            self.set(x, y, color);
        }
    }
}

/// Pixel `(x, y)` of a row-major buffer `w` pixels wide sits at index `k`
/// exactly when `k % w == x` and `k / w == y`.
proof fn lemma_pixel_index(k: int, w: int, x: int, y: int)
    requires
        0 < w,
        0 <= x < w,
        0 <= y,
        0 <= k,
    ensures
        (k == x + y * w) <==> (k % w == x && k / w == y),
{
    vstd::arithmetic::div_mod::lemma_fundamental_div_mod(k, w);
    vstd::arithmetic::mul::lemma_mul_is_commutative(w, y);
    if k == x + y * w {
        vstd::arithmetic::div_mod::lemma_fundamental_div_mod_converse(k, w, y, x);
    }
}

fn min3_exec(a: i64, b: i64, c: i64) -> (r: i64)
    ensures
        r == min3(a as int, b as int, c as int),
{
    if a <= b && a <= c { a } else if b <= c { b } else { c }
}

fn max3_exec(a: i64, b: i64, c: i64) -> (r: i64)
    ensures
        r == max3(a as int, b as int, c as int),
{
    if a >= b && a >= c { a } else if b >= c { b } else { c }
}

/// A vector of `n` zeros.
fn zeroed(n: usize) -> (v: Vec<u32>)
    ensures
        v@ == Seq::new(n as nat, |k: int| 0u32),
{
    let mut v: Vec<u32> = Vec::with_capacity(n);
    let mut k: usize = 0;
    while k < n
        invariant
            k <= n,
            v@.len() == k,
            forall|j: int| 0 <= j < k ==> #[trigger] v@[j] == 0u32,
        decreases n - k,
    {
        v.push(0);
        k += 1;
    }
    assert(v@ =~= Seq::new(n as nat, |k: int| 0u32));
    v
}

} // verus!
