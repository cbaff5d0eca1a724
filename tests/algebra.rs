use rasterizer::algebra::{FourD, Matrix, ThreeD};

fn sample() -> Matrix {
    Matrix {
        values: [3, -1, 4, 1, -5, 9, 2, -6, 5, 3, -5, 8, 9, -7, 9, 3],
    }
}

#[test]
fn identity_is_two_sided_unit() {
    let m = sample();
    let id = Matrix::identity();
    assert_eq!(id.mul(&m).values, m.values);
    assert_eq!(m.mul(&id).values, m.values);
    let v = FourD::new(7, -2, 5, 1);
    assert_eq!(id.apply(&v), v);
}

#[test]
fn composition_is_associative() {
    let a = Matrix::rotate_xy(3, 4, 5);
    let b = Matrix::translate(ThreeD::new(2, -3, 7));
    let c = Matrix::scale(ThreeD::new(2, 3, -1));
    let v = ThreeD::new(1, 2, 3).as_point();
    let left = a.mul(&b).mul(&c).apply(&v);
    let right = a.mul(&b.mul(&c)).apply(&v);
    assert_eq!(left, right);
    assert_eq!(left, a.apply(&b.apply(&c.apply(&v))));
}

#[test]
fn translate_then_inverse_returns_point() {
    let t = Matrix::translate(ThreeD::new(5, -8, 13));
    let back = Matrix::translate(ThreeD::new(-5, 8, -13));
    let p = ThreeD::new(-4, 11, 2).as_point();
    assert_eq!(back.mul(&t).apply(&p), p);
    assert_eq!(t.apply(&p), FourD::new(1, 3, 15, 1));
}

#[test]
fn det2d_is_antisymmetric() {
    let a = FourD::new(3, 7, 1, 0);
    let b = FourD::new(-2, 5, 9, 4);
    assert_eq!(a.det2d(&b), 29);
    assert_eq!(b.det2d(&a), -29);
    let big = FourD::new(i64::MIN, i64::MAX, 0, 0);
    let other = FourD::new(i64::MAX, i64::MIN, 0, 0);
    assert_eq!(big.det2d(&other), -other.det2d(&big));
}

#[test]
fn point_and_vector_forms() {
    let p = ThreeD::new(1, 2, 3);
    assert_eq!(p.as_point(), FourD::new(1, 2, 3, 1));
    assert_eq!(p.as_vector(), FourD::new(1, 2, 3, 0));
    let d = FourD::new(5, 5, 5, 5).sub(FourD::new(1, 2, 3, 4));
    assert_eq!((d.x(), d.y(), d.z(), d.w()), (4, 3, 2, 1));
    assert_eq!(FourD::new(1, 2, 3, 4).dot(&FourD::new(5, 6, 7, 8)), 70);
}

#[test]
fn constructors_place_entries() {
    assert_eq!(
        Matrix::scale_scalar(3).values,
        [3, 0, 0, 0, 0, 3, 0, 0, 0, 0, 3, 0, 0, 0, 0, 1]
    );
    assert_eq!(
        Matrix::rotate_yz(3, 4, 5).values,
        [5, 0, 0, 0, 0, 3, -4, 0, 0, 4, 3, 0, 0, 0, 0, 5]
    );
    assert_eq!(
        Matrix::rotate_zx(3, 4, 5).values,
        [3, 0, 4, 0, 0, 5, 0, 0, -4, 0, 3, 0, 0, 0, 0, 5]
    );
    // near 1, far 3, top 2, right 3: scaled by r * t * (f - n) = 12
    assert_eq!(
        Matrix::perspective(1, 3, 2, 3).values,
        [4, 0, 0, 0, 0, 6, 0, 0, 0, 0, -24, -36, 0, 0, -12, 0]
    );
}

#[test]
fn rotation_quarter_turn() {
    // cos 0, sin 1 in unit 1: x goes to y
    let r = Matrix::rotate_xy(0, 1, 1);
    assert_eq!(r.apply(&FourD::new(1, 0, 0, 1)), FourD::new(0, 1, 0, 1));
}

#[test]
fn bounded_entries_are_detected() {
    assert!(sample().is_bounded());
    let mut m = sample();
    m.values[7] = 0x4000_0001;
    assert!(!m.is_bounded());
}
