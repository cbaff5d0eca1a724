//! Homogeneous-coordinate algebra over exact integers.
//!
//! Points and directions carry integer coordinates. A 4×4 matrix acts on
//! homogeneous vectors; because a homogeneous vector and any nonzero multiple
//! of it name the same point, fractional transforms (rotations, projections)
//! are written as integer matrices scaled by a common factor, and the
//! perspective divide happens only when a vertex is mapped to the screen.
use vstd::prelude::*;

verus! {

/// Largest magnitude of a matrix entry or a coordinate for which matrix
/// products stay exact in 64 bits (four products of 2^60 sum below 2^63).
pub const COORD_LIMIT: i64 = 0x4000_0000;

/// A homogeneous vector as mathematical integers.
pub type Quad = (int, int, int, int);

/// All four components lie within `[-lim, lim]`.
pub open spec fn quad_within(v: Quad, lim: int) -> bool {
    -lim <= v.0 <= lim && -lim <= v.1 <= lim && -lim <= v.2 <= lim && -lim <= v.3 <= lim
}

/// The 2-D determinant of the (x, y) parts of two vectors.
pub open spec fn det2d_spec(a: Quad, b: Quad) -> int {
    a.0 * b.1 - a.1 * b.0
}

pub open spec fn dot_spec(a: Quad, b: Quad) -> int {
    a.0 * b.0 + a.1 * b.1 + a.2 * b.2 + a.3 * b.3
}

pub open spec fn quad_sub(a: Quad, b: Quad) -> Quad {
    (a.0 - b.0, a.1 - b.1, a.2 - b.2, a.3 - b.3)
}

/// Row `r` of the row-major matrix `m` applied to `v`.
pub open spec fn row_times(m: Seq<int>, r: int, v: Quad) -> int {
    m[4 * r] * v.0 + m[4 * r + 1] * v.1 + m[4 * r + 2] * v.2 + m[4 * r + 3] * v.3
}

/// The linear map of a row-major 4×4 matrix.
pub open spec fn mat_vec(m: Seq<int>, v: Quad) -> Quad {
    (row_times(m, 0, v), row_times(m, 1, v), row_times(m, 2, v), row_times(m, 3, v))
}

/// Entry (i, j) of the product `a * b`.
pub open spec fn product_entry(a: Seq<int>, b: Seq<int>, i: int, j: int) -> int {
    a[4 * i] * b[j] + a[4 * i + 1] * b[4 + j] + a[4 * i + 2] * b[8 + j] + a[4 * i + 3] * b[12 + j]
}

/// The matrix product `a * b`, row-major.
pub open spec fn mat_mul(a: Seq<int>, b: Seq<int>) -> Seq<int> {
    Seq::new(16, |k: int| product_entry(a, b, k / 4, k % 4))
}

pub open spec fn is_matrix(m: Seq<int>) -> bool {
    m.len() == 16
}

pub open spec fn matrix_within(m: Seq<int>, lim: int) -> bool {
    m.len() == 16 && forall|k: int| 0 <= k < 16 ==> -lim <= #[trigger] m[k] <= lim
}

/// Whether `k` indexes a diagonal entry of a row-major 4×4 matrix.
pub open spec fn on_diagonal(k: int) -> bool {
    k == 0 || k == 5 || k == 10 || k == 15
}

pub open spec fn identity_spec() -> Seq<int> {
    Seq::new(16, |k: int| if on_diagonal(k) { 1int } else { 0 })
}

pub open spec fn scale_spec(sx: int, sy: int, sz: int) -> Seq<int> {
    seq![sx, 0, 0, 0, 0, sy, 0, 0, 0, 0, sz, 0, 0, 0, 0, 1int]
}

pub open spec fn translate_spec(tx: int, ty: int, tz: int) -> Seq<int> {
    Seq::new(
        16,
        |k: int|
            if on_diagonal(k) {
                1int
            } else if k == 3 {
                tx
            } else if k == 7 {
                ty
            } else if k == 11 {
                tz
            } else {
                0
            },
    )
}

/// Rotation in the x-y plane (about z) with `cos` and `sin` given in units of
/// `unit`; the homogeneous weight is scaled by `unit` as well.
pub open spec fn rotate_xy_spec(cos: int, sin: int, unit: int) -> Seq<int> {
    seq![cos, -sin, 0, 0, sin, cos, 0, 0, 0, 0, unit, 0, 0, 0, 0, unit]
}

/// Rotation in the y-z plane (about x).
pub open spec fn rotate_yz_spec(cos: int, sin: int, unit: int) -> Seq<int> {
    seq![unit, 0, 0, 0, 0, cos, -sin, 0, 0, sin, cos, 0, 0, 0, 0, unit]
}

/// Rotation in the z-x plane (about y).
pub open spec fn rotate_zx_spec(cos: int, sin: int, unit: int) -> Seq<int> {
    seq![cos, 0, sin, 0, 0, unit, 0, 0, -sin, 0, cos, 0, 0, 0, 0, unit]
}

/// The OpenGL-style projection for the frustum with near plane `n`, far
/// plane `f`, half-height `t` and half-width `r` at the near plane, scaled by
/// `r * t * (f - n)` so that every entry is an integer.
pub open spec fn perspective_spec(n: int, f: int, t: int, r: int) -> Seq<int> {
    seq![
        n * t * (f - n), 0, 0, 0,
        0, n * r * (f - n), 0, 0,
        0, 0, -((f + n) * r * t), -(2 * f * n * r * t),
        0, 0, -(r * t * (f - n)), 0
    ]
}

/// A position or direction in object space.
#[derive(Clone, Copy, Debug, PartialEq, Eq, Structural)]
pub struct ThreeD {
    pub x: i64,
    pub y: i64,
    pub z: i64,
}

impl ThreeD {
    pub fn new(x: i64, y: i64, z: i64) -> (r: ThreeD)
        ensures
            r == (ThreeD { x, y, z }),
    {
        ThreeD { x, y, z }
    }

    /// The homogeneous form of this value read as a point (weight 1).
    pub open spec fn point(&self) -> Quad {
        (self.x as int, self.y as int, self.z as int, 1)
    }

    /// The homogeneous form of this value read as a direction (weight 0).
    pub open spec fn direction(&self) -> Quad {
        (self.x as int, self.y as int, self.z as int, 0)
    }

    pub open spec fn within(&self, lim: int) -> bool {
        -lim <= self.x <= lim && -lim <= self.y <= lim && -lim <= self.z <= lim
    }

    pub fn as_vector(&self) -> (r: FourD)
        ensures
            r@ == self.direction(),
    {
        FourD { x: self.x, y: self.y, z: self.z, w: 0 }
    }

    pub fn as_point(&self) -> (r: FourD)
        ensures
            r@ == self.point(),
    {
        FourD { x: self.x, y: self.y, z: self.z, w: 1 }
    }
}

/// A homogeneous coordinate (x, y, z, w).
#[derive(Clone, Copy, Debug, PartialEq, Eq, Structural)]
pub struct FourD {
    pub x: i64,
    pub y: i64,
    pub z: i64,
    pub w: i64,
}

impl View for FourD {
    type V = Quad;

    open spec fn view(&self) -> Quad {
        (self.x as int, self.y as int, self.z as int, self.w as int)
    }
}

impl FourD {
    pub fn new(x: i64, y: i64, z: i64, w: i64) -> (r: FourD)
        ensures
            r@ == (x as int, y as int, z as int, w as int),
    {
        FourD { x, y, z, w }
    }

    pub fn x(&self) -> (r: i64)
        ensures
            r == self.x,
    {
        self.x
    }

    pub fn y(&self) -> (r: i64)
        ensures
            r == self.y,
    {
        self.y
    }

    pub fn z(&self) -> (r: i64)
        ensures
            r == self.z,
    {
        self.z
    }

    pub fn w(&self) -> (r: i64)
        ensures
            r == self.w,
    {
        self.w
    }

    /// Component-wise difference; every component of the result must fit.
    pub fn sub(self, rhs: FourD) -> (r: FourD)
        requires
            quad_within(quad_sub(self@, rhs@), i64::MAX as int),
        ensures
            r@ == quad_sub(self@, rhs@),
    {
        FourD { x: self.x - rhs.x, y: self.y - rhs.y, z: self.z - rhs.z, w: self.w - rhs.w }
    }

    /// `x * rhs.y - y * rhs.x`, exact for every pair of 64-bit vectors.
    pub fn det2d(&self, rhs: &FourD) -> (r: i128)
        ensures
            r == det2d_spec(self@, rhs@),
    {
        proof {
            assert(-0x4000_0000_0000_0000_0000_0000_0000_0000int + 0x8000_0000_0000_0000int
                <= self.x * rhs.y <= 0x4000_0000_0000_0000_0000_0000_0000_0000int) by (nonlinear_arith)
                requires
                    i64::MIN <= self.x <= i64::MAX,
                    i64::MIN <= rhs.y <= i64::MAX,
            ;
            assert(-0x4000_0000_0000_0000_0000_0000_0000_0000int + 0x8000_0000_0000_0000int
                <= self.y * rhs.x <= 0x4000_0000_0000_0000_0000_0000_0000_0000int) by (nonlinear_arith)
                requires
                    i64::MIN <= self.y <= i64::MAX,
                    i64::MIN <= rhs.x <= i64::MAX,
            ;
        }
        (self.x as i128) * (rhs.y as i128) - (self.y as i128) * (rhs.x as i128)
    }

    /// The dot product, for vectors whose components lie within `COORD_LIMIT`.
    pub fn dot(&self, rhs: &FourD) -> (r: i64)
        requires
            quad_within(self@, COORD_LIMIT as int),
            quad_within(rhs@, COORD_LIMIT as int),
        ensures
            r == dot_spec(self@, rhs@),
    {
        proof {
            lemma_bounded_product(self.x as int, rhs.x as int);
            lemma_bounded_product(self.y as int, rhs.y as int);
            lemma_bounded_product(self.z as int, rhs.z as int);
            lemma_bounded_product(self.w as int, rhs.w as int);
        }
        self.x * rhs.x + self.y * rhs.y + self.z * rhs.z + self.w * rhs.w
    }
}

/// A 4×4 matrix in row-major order acting on homogeneous column vectors.
#[derive(Clone, Copy, Debug)]
pub struct Matrix {
    pub values: [i64; 16],
}

impl View for Matrix {
    type V = Seq<int>;

    open spec fn view(&self) -> Seq<int> {
        self.values@.map_values(|v: i64| v as int)
    }
}

impl Matrix {
    /// Every entry lies within `COORD_LIMIT`, so the matrix can be multiplied.
    pub open spec fn bounded(&self) -> bool {
        matrix_within(self@, COORD_LIMIT as int)
    }

    /// Tests `bounded`, for callers outside verified code.
    pub fn is_bounded(&self) -> (r: bool)
        ensures
            r == self.bounded(),
    {
        let mut k: usize = 0;
        while k < 16
            invariant
                k <= 16,
                self@.len() == 16,
                forall|j: int| 0 <= j < k ==> -COORD_LIMIT <= #[trigger] self@[j] <= COORD_LIMIT,
            decreases 16 - k,
        {
            if self.values[k] < -COORD_LIMIT || self.values[k] > COORD_LIMIT {
                assert(!(-COORD_LIMIT <= self@[k as int] <= COORD_LIMIT));
                return false;
            }
            k += 1;
        }
        true
    }

    pub fn identity() -> (r: Matrix)
        ensures
            r@ == identity_spec(),
    {
        let r = Matrix { values: [1, 0, 0, 0, 0, 1, 0, 0, 0, 0, 1, 0, 0, 0, 0, 1] };
        assert(r@ =~= identity_spec());
        r
    }

    /// Per-axis scaling.
    pub fn scale(s: ThreeD) -> (r: Matrix)
        ensures
            r@ == scale_spec(s.x as int, s.y as int, s.z as int),
    {
        let r = Matrix { values: [s.x, 0, 0, 0, 0, s.y, 0, 0, 0, 0, s.z, 0, 0, 0, 0, 1] };
        assert(r@ =~= scale_spec(s.x as int, s.y as int, s.z as int));
        r
    }

    /// Uniform scaling.
    pub fn scale_scalar(s: i64) -> (r: Matrix)
        ensures
            r@ == scale_spec(s as int, s as int, s as int),
    {
        Self::scale(ThreeD::new(s, s, s))
    }

    pub fn translate(t: ThreeD) -> (r: Matrix)
        ensures
            r@ == translate_spec(t.x as int, t.y as int, t.z as int),
    {
        let r = Matrix { values: [1, 0, 0, t.x, 0, 1, 0, t.y, 0, 0, 1, t.z, 0, 0, 0, 1] };
        assert(r@ =~= translate_spec(t.x as int, t.y as int, t.z as int));
        r
    }

    /// Rotation about the z axis; `cos` and `sin` are fixed-point values with
    /// `unit` standing for 1.
    pub fn rotate_xy(cos: i64, sin: i64, unit: i64) -> (r: Matrix)
        requires
            sin > i64::MIN,
        ensures
            r@ == rotate_xy_spec(cos as int, sin as int, unit as int),
    {
        let r = Matrix { values: [cos, -sin, 0, 0, sin, cos, 0, 0, 0, 0, unit, 0, 0, 0, 0, unit] };
        assert(r@ =~= rotate_xy_spec(cos as int, sin as int, unit as int));
        r
    }

    /// Rotation about the x axis, in the fixed point of `rotate_xy`.
    pub fn rotate_yz(cos: i64, sin: i64, unit: i64) -> (r: Matrix)
        requires
            sin > i64::MIN,
        ensures
            r@ == rotate_yz_spec(cos as int, sin as int, unit as int),
    {
        let r = Matrix { values: [unit, 0, 0, 0, 0, cos, -sin, 0, 0, sin, cos, 0, 0, 0, 0, unit] };
        assert(r@ =~= rotate_yz_spec(cos as int, sin as int, unit as int));
        r
    }

    /// Rotation about the y axis, in the fixed point of `rotate_xy`.
    pub fn rotate_zx(cos: i64, sin: i64, unit: i64) -> (r: Matrix)
        requires
            sin > i64::MIN,
        ensures
            r@ == rotate_zx_spec(cos as int, sin as int, unit as int),
    {
        let r = Matrix { values: [cos, 0, sin, 0, 0, unit, 0, 0, -sin, 0, cos, 0, 0, 0, 0, unit] };
        assert(r@ =~= rotate_zx_spec(cos as int, sin as int, unit as int));
        r
    }

    /// The projection for the frustum `near`, `far`, with `top` and `right`
    /// the half-extents of the near plane (`top = near * tan(fov_y / 2)`,
    /// `right = top * aspect`). Each argument lies in `[0, 2^15]`.
    pub fn perspective(near: i64, far: i64, top: i64, right: i64) -> (r: Matrix)
        requires
            0 <= near <= 0x8000,
            0 <= far <= 0x8000,
            0 <= top <= 0x8000,
            0 <= right <= 0x8000,
        ensures
            r@ == perspective_spec(near as int, far as int, top as int, right as int),
    {
        proof {
            assert(0 <= near * top <= 0x4000_0000) by (nonlinear_arith)
                requires 0 <= near <= 0x8000, 0 <= top <= 0x8000;
            assert(0 <= near * right <= 0x4000_0000) by (nonlinear_arith)
                requires 0 <= near <= 0x8000, 0 <= right <= 0x8000;
            assert(0 <= right * top <= 0x4000_0000) by (nonlinear_arith)
                requires 0 <= right <= 0x8000, 0 <= top <= 0x8000;
            assert(0 <= far * near <= 0x4000_0000) by (nonlinear_arith)
                requires 0 <= near <= 0x8000, 0 <= far <= 0x8000;
            assert(0 <= (far * near) * (right * top) <= 0x1000_0000_0000_0000) by (nonlinear_arith)
                requires 0 <= far * near <= 0x4000_0000, 0 <= right * top <= 0x4000_0000;
            assert(-0x8000_0000_0000 <= near * top * (far - near) <= 0x8000_0000_0000) by (nonlinear_arith)
                requires 0 <= near * top <= 0x4000_0000, -0x8000 <= far - near <= 0x8000;
            assert(-0x8000_0000_0000 <= near * right * (far - near) <= 0x8000_0000_0000) by (nonlinear_arith)
                requires 0 <= near * right <= 0x4000_0000, -0x8000 <= far - near <= 0x8000;
            assert(-0x8000_0000_0000 <= right * top * (far - near) <= 0x8000_0000_0000) by (nonlinear_arith)
                requires 0 <= right * top <= 0x4000_0000, -0x8000 <= far - near <= 0x8000;
            assert(0 <= (far + near) * (right * top) <= 0x4000_0000_0000) by (nonlinear_arith)
                requires 0 <= right * top <= 0x4000_0000, 0 <= far + near <= 0x10000;
            assert(2 * far * near * right * top == 2 * ((far * near) * (right * top))) by (nonlinear_arith);
            assert((far + near) * right * top == (far + near) * (right * top)) by (nonlinear_arith);
        }
        let depth = far - near;
        let nt = near * top;
        let nr = near * right;
        let rt = right * top;
        let fn_ = far * near;
        let r = Matrix {
            values: [
                nt * depth, 0, 0, 0,
                0, nr * depth, 0, 0,
                0, 0, -((far + near) * rt), -(2 * (fn_ * rt)),
                0, 0, -(rt * depth), 0,
            ],
        };
        assert(r@ =~= perspective_spec(near as int, far as int, top as int, right as int));
        r
    }

    /// Entry (i, j) of `self * rhs`.
    fn product_at(&self, rhs: &Matrix, i: usize, j: usize) -> (r: i64)
        requires
            self.bounded(),
            rhs.bounded(),
            i < 4,
            j < 4,
        ensures
            r == product_entry(self@, rhs@, i as int, j as int),
    {
        let a = &self.values;
        let b = &rhs.values;
        proof {
            lemma_bounded_product(self@[4 * i as int], rhs@[j as int]);
            lemma_bounded_product(self@[4 * i + 1], rhs@[4 + j]);
            lemma_bounded_product(self@[4 * i + 2], rhs@[8 + j]);
            lemma_bounded_product(self@[4 * i + 3], rhs@[12 + j]);
        }
        a[4 * i] * b[j] + a[4 * i + 1] * b[4 + j] + a[4 * i + 2] * b[8 + j] + a[4 * i + 3] * b[12 + j]
    }

    /// Matrix composition: `self.mul(rhs)` applies `rhs` first.
    pub fn mul(&self, rhs: &Matrix) -> (r: Matrix)
        requires
            self.bounded(),
            rhs.bounded(),
        ensures
            r@ == mat_mul(self@, rhs@),
    {
        let r = Matrix {
            values: [
                self.product_at(rhs, 0, 0), self.product_at(rhs, 0, 1),
                self.product_at(rhs, 0, 2), self.product_at(rhs, 0, 3),
                self.product_at(rhs, 1, 0), self.product_at(rhs, 1, 1),
                self.product_at(rhs, 1, 2), self.product_at(rhs, 1, 3),
                self.product_at(rhs, 2, 0), self.product_at(rhs, 2, 1),
                self.product_at(rhs, 2, 2), self.product_at(rhs, 2, 3),
                self.product_at(rhs, 3, 0), self.product_at(rhs, 3, 1),
                self.product_at(rhs, 3, 2), self.product_at(rhs, 3, 3),
            ],
        };
        assert(r@ =~= mat_mul(self@, rhs@));
        r
    }

    /// Row `i` of `self` applied to `v`.
    fn row_at(&self, i: usize, v: &FourD) -> (r: i64)
        requires
            self.bounded(),
            quad_within(v@, COORD_LIMIT as int),
            i < 4,
        ensures
            r == row_times(self@, i as int, v@),
    {
        let a = &self.values;
        proof {
            lemma_bounded_product(self@[4 * i as int], v.x as int);
            lemma_bounded_product(self@[4 * i + 1], v.y as int);
            lemma_bounded_product(self@[4 * i + 2], v.z as int);
            lemma_bounded_product(self@[4 * i + 3], v.w as int);
        }
        a[4 * i] * v.x + a[4 * i + 1] * v.y + a[4 * i + 2] * v.z + a[4 * i + 3] * v.w
    }

    /// The linear map `self * v`.
    pub fn apply(&self, v: &FourD) -> (r: FourD)
        requires
            self.bounded(),
            quad_within(v@, COORD_LIMIT as int),
        ensures
            r@ == mat_vec(self@, v@),
    {
        FourD { x: self.row_at(0, v), y: self.row_at(1, v), z: self.row_at(2, v), w: self.row_at(3, v) }
    }
}

proof fn lemma_distribute(x0: int, x1: int, x2: int, x3: int, z: int)
    ensures
        (x0 + x1 + x2 + x3) * z == x0 * z + x1 * z + x2 * z + x3 * z,
        z * (x0 + x1 + x2 + x3) == z * x0 + z * x1 + z * x2 + z * x3,
{
    assert((x0 + x1 + x2 + x3) * z == x0 * z + x1 * z + x2 * z + x3 * z) by (nonlinear_arith);
    assert(z * (x0 + x1 + x2 + x3) == z * x0 + z * x1 + z * x2 + z * x3) by (nonlinear_arith);
}

proof fn lemma_regroup(a: int, b: int, v: int)
    ensures
        (a * b) * v == a * (b * v),
{
    assert((a * b) * v == a * (b * v)) by (nonlinear_arith);
}

/// Row `i` of a product applied to a vector.
proof fn lemma_row_of_product(a: Seq<int>, b: Seq<int>, i: int, v: Quad)
    requires
        is_matrix(a),
        is_matrix(b),
        0 <= i < 4,
    ensures
        row_times(mat_mul(a, b), i, v) == row_times(a, i, mat_vec(b, v)),
{
    let p = mat_mul(a, b);
    let bv = mat_vec(b, v);
    assert(p[4 * i] == product_entry(a, b, i, 0));
    assert(p[4 * i + 1] == product_entry(a, b, i, 1));
    assert(p[4 * i + 2] == product_entry(a, b, i, 2));
    assert(p[4 * i + 3] == product_entry(a, b, i, 3));
    let (a0, a1, a2, a3) = (a[4 * i], a[4 * i + 1], a[4 * i + 2], a[4 * i + 3]);
    lemma_distribute(a0 * b[0], a1 * b[4], a2 * b[8], a3 * b[12], v.0);
    lemma_distribute(a0 * b[1], a1 * b[5], a2 * b[9], a3 * b[13], v.1);
    lemma_distribute(a0 * b[2], a1 * b[6], a2 * b[10], a3 * b[14], v.2);
    lemma_distribute(a0 * b[3], a1 * b[7], a2 * b[11], a3 * b[15], v.3);
    lemma_distribute(b[0] * v.0, b[1] * v.1, b[2] * v.2, b[3] * v.3, a0);
    lemma_distribute(b[4] * v.0, b[5] * v.1, b[6] * v.2, b[7] * v.3, a1);
    lemma_distribute(b[8] * v.0, b[9] * v.1, b[10] * v.2, b[11] * v.3, a2);
    lemma_distribute(b[12] * v.0, b[13] * v.1, b[14] * v.2, b[15] * v.3, a3);
    lemma_regroup(a0, b[0], v.0);
    lemma_regroup(a0, b[1], v.1);
    lemma_regroup(a0, b[2], v.2);
    lemma_regroup(a0, b[3], v.3);
    lemma_regroup(a1, b[4], v.0);
    lemma_regroup(a1, b[5], v.1);
    lemma_regroup(a1, b[6], v.2);
    lemma_regroup(a1, b[7], v.3);
    lemma_regroup(a2, b[8], v.0);
    lemma_regroup(a2, b[9], v.1);
    lemma_regroup(a2, b[10], v.2);
    lemma_regroup(a2, b[11], v.3);
    lemma_regroup(a3, b[12], v.0);
    lemma_regroup(a3, b[13], v.1);
    lemma_regroup(a3, b[14], v.2);
    lemma_regroup(a3, b[15], v.3);
}

/// Applying a product equals applying its factors in turn, right factor first.
pub proof fn lemma_mat_vec_of_product(a: Seq<int>, b: Seq<int>, v: Quad)
    requires
        is_matrix(a),
        is_matrix(b),
    ensures
        mat_vec(mat_mul(a, b), v) == mat_vec(a, mat_vec(b, v)),
{
    lemma_row_of_product(a, b, 0, v);
    lemma_row_of_product(a, b, 1, v);
    lemma_row_of_product(a, b, 2, v);
    lemma_row_of_product(a, b, 3, v);
}

proof fn lemma_identity_left(m: Seq<int>)
    requires
        is_matrix(m),
    ensures
        mat_mul(identity_spec(), m) == m,
{
    assert(mat_mul(identity_spec(), m)[0] == m[0]);
    assert(mat_mul(identity_spec(), m)[1] == m[1]);
    assert(mat_mul(identity_spec(), m)[2] == m[2]);
    assert(mat_mul(identity_spec(), m)[3] == m[3]);
    assert(mat_mul(identity_spec(), m)[4] == m[4]);
    assert(mat_mul(identity_spec(), m)[5] == m[5]);
    assert(mat_mul(identity_spec(), m)[6] == m[6]);
    assert(mat_mul(identity_spec(), m)[7] == m[7]);
    assert(mat_mul(identity_spec(), m)[8] == m[8]);
    assert(mat_mul(identity_spec(), m)[9] == m[9]);
    assert(mat_mul(identity_spec(), m)[10] == m[10]);
    assert(mat_mul(identity_spec(), m)[11] == m[11]);
    assert(mat_mul(identity_spec(), m)[12] == m[12]);
    assert(mat_mul(identity_spec(), m)[13] == m[13]);
    assert(mat_mul(identity_spec(), m)[14] == m[14]);
    assert(mat_mul(identity_spec(), m)[15] == m[15]);
    assert(mat_mul(identity_spec(), m) =~= m);
}

proof fn lemma_identity_right(m: Seq<int>)
    requires
        is_matrix(m),
    ensures
        mat_mul(m, identity_spec()) == m,
{
    assert(mat_mul(m, identity_spec())[0] == m[0]);
    assert(mat_mul(m, identity_spec())[1] == m[1]);
    assert(mat_mul(m, identity_spec())[2] == m[2]);
    assert(mat_mul(m, identity_spec())[3] == m[3]);
    assert(mat_mul(m, identity_spec())[4] == m[4]);
    assert(mat_mul(m, identity_spec())[5] == m[5]);
    assert(mat_mul(m, identity_spec())[6] == m[6]);
    assert(mat_mul(m, identity_spec())[7] == m[7]);
    assert(mat_mul(m, identity_spec())[8] == m[8]);
    assert(mat_mul(m, identity_spec())[9] == m[9]);
    assert(mat_mul(m, identity_spec())[10] == m[10]);
    assert(mat_mul(m, identity_spec())[11] == m[11]);
    assert(mat_mul(m, identity_spec())[12] == m[12]);
    assert(mat_mul(m, identity_spec())[13] == m[13]);
    assert(mat_mul(m, identity_spec())[14] == m[14]);
    assert(mat_mul(m, identity_spec())[15] == m[15]);
    assert(mat_mul(m, identity_spec()) =~= m);
}

/// The identity matrix is a two-sided unit of composition and leaves every
/// vector unchanged.
pub proof fn law_identity(m: Seq<int>, v: Quad)
    requires
        is_matrix(m),
    ensures
        mat_mul(identity_spec(), m) == m,
        mat_mul(m, identity_spec()) == m,
        mat_vec(identity_spec(), v) == v,
{
    lemma_identity_left(m);
    lemma_identity_right(m);
}

/// Composition is associative in its action: `((a * b) * c) * v` equals
/// `(a * (b * c)) * v`, and both equal `a * (b * (c * v))`.
pub proof fn law_composition_associative(a: Seq<int>, b: Seq<int>, c: Seq<int>, v: Quad)
    requires
        is_matrix(a),
        is_matrix(b),
        is_matrix(c),
    ensures
        mat_vec(mat_mul(mat_mul(a, b), c), v) == mat_vec(mat_mul(a, mat_mul(b, c)), v),
        mat_vec(mat_mul(mat_mul(a, b), c), v) == mat_vec(a, mat_vec(b, mat_vec(c, v))),
{
    lemma_mat_vec_of_product(mat_mul(a, b), c, v);
    lemma_mat_vec_of_product(a, b, mat_vec(c, v));
    lemma_mat_vec_of_product(a, mat_mul(b, c), v);
    lemma_mat_vec_of_product(b, c, v);
}

/// Translating by `t` and then by `-t` returns every point to where it was.
pub proof fn law_translate_inverse(tx: int, ty: int, tz: int, p: Quad)
    requires
        p.3 == 1,
    ensures
        mat_vec(mat_mul(translate_spec(-tx, -ty, -tz), translate_spec(tx, ty, tz)), p) == p,
        mat_vec(translate_spec(-tx, -ty, -tz), mat_vec(translate_spec(tx, ty, tz), p)) == p,
{
    let q = mat_vec(translate_spec(tx, ty, tz), p);
    assert(q == (p.0 + tx, p.1 + ty, p.2 + tz, 1int));
    lemma_mat_vec_of_product(translate_spec(-tx, -ty, -tz), translate_spec(tx, ty, tz), p);
}

/// `det2d` is antisymmetric.
pub proof fn law_det2d_antisymmetric(a: Quad, b: Quad)
    ensures
        det2d_spec(a, b) == -det2d_spec(b, a),
{
    assert(a.0 * b.1 == b.1 * a.0 && a.1 * b.0 == b.0 * a.1) by (nonlinear_arith);
}

/// Two factors within `COORD_LIMIT` give a product within 2^60.
pub proof fn lemma_bounded_product(a: int, b: int)
    requires
        -0x4000_0000 <= a <= 0x4000_0000,
        -0x4000_0000 <= b <= 0x4000_0000,
    ensures
        -0x1000_0000_0000_0000 <= a * b <= 0x1000_0000_0000_0000,
{
    assert(-0x1000_0000_0000_0000 <= a * b <= 0x1000_0000_0000_0000) by (nonlinear_arith)
        requires
            -0x4000_0000 <= a <= 0x4000_0000,
            -0x4000_0000 <= b <= 0x4000_0000,
    ;
}

} // verus!
