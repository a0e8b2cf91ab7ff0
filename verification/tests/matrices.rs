use raytracer::fixed::Fixed;
use raytracer::matrices::rotation_x;
use raytracer::matrices::rotation_y;
use raytracer::matrices::rotation_z;
use raytracer::matrices::scale;
use raytracer::matrices::shear;
use raytracer::matrices::translation;
use raytracer::matrices::Matrix;
use raytracer::tuple::Tuple;
use std::f64::consts::PI;
use std::f64::consts::SQRT_2;

fn fx(v: f64) -> Fixed {
    Fixed::from_raw((v * 1e9).round() as i64)
}

fn point(x: f64, y: f64, z: f64) -> Tuple {
    Tuple::point_new(fx(x), fx(y), fx(z))
}

fn vector(x: f64, y: f64, z: f64) -> Tuple {
    Tuple::vector_new(fx(x), fx(y), fx(z))
}

fn m2(a: [[f64; 2]; 2]) -> Matrix<2> {
    Matrix::from_array(&a.map(|row| row.map(fx)))
}

fn m3(a: [[f64; 3]; 3]) -> Matrix<3> {
    Matrix::from_array(&a.map(|row| row.map(fx)))
}

fn m4(a: [[f64; 4]; 4]) -> Matrix<4> {
    Matrix::from_array(&a.map(|row| row.map(fx)))
}

#[test]
fn construct_and_inspect_4x4() {
    let m = m4([
        [1.0, 2.0, 3.0, 4.0],
        [5.5, 6.5, 7.5, 8.5],
        [9.0, 10.0, 11.0, 12.0],
        [13.5, 14.5, 15.5, 16.5],
    ]);
    assert_eq!(m[0][0], fx(1.0));
    assert_eq!(m[1][0], fx(5.5));
    assert_eq!(m[3][0], fx(13.5));
    assert_eq!(m[3][2], fx(15.5));
}

#[test]
fn construct_and_inspect_3x3() {
    let m = m3([[1.0, 2.0, 3.0], [5.5, 6.5, 7.5], [9.0, 10.0, 11.0]]);
    assert_eq!(m[0][0], fx(1.0));
    assert_eq!(m[1][1], fx(6.5));
    assert_eq!(m[2][1], fx(10.0));
}

#[test]
fn construct_and_inspect_2x2() {
    let m = m2([[1.0, 2.0], [5.5, 6.5]]);
    assert_eq!(m[0][0], fx(1.0));
    assert_eq!(m[1][0], fx(5.5));
    assert_eq!(m[1][1], fx(6.5));
}

#[test]
fn matrix_equality() {
    let a = m3([[1.0, 2.0, 3.0], [5.5, 6.5, 7.5], [9.0, 10.0, 11.0]]);
    let b = m3([[1.0, 2.0, 3.0], [5.5, 6.5, 7.5], [9.0, 10.0, 11.0]]);
    assert_eq!(a, b);
}

#[test]
fn matrix_inequality() {
    let a = m3([[1.0, 2.0, 3.4], [5.5, 6.5, 7.5], [9.0, 10.0, 11.0]]);
    let b = m3([[1.0, 2.0, 3.0], [5.5, 6.5, 7.5], [9.0, 10.0, 11.0]]);
    assert_ne!(a, b);
}

#[test]
fn matrix_multiplication() {
    let a = m4([
        [1.0, 2.0, 3.0, 4.0],
        [5.0, 6.0, 7.0, 8.0],
        [9.0, 8.0, 7.0, 6.0],
        [5.0, 4.0, 3.0, 2.0],
    ]);
    let b = m4([
        [-2.0, 1.0, 2.0, 3.0],
        [3.0, 2.0, 1.0, -1.0],
        [4.0, 3.0, 6.0, 5.0],
        [1.0, 2.0, 7.0, 8.0],
    ]);
    let c = m4([
        [20.0, 22.0, 50.0, 48.0],
        [44.0, 54.0, 114.0, 108.0],
        [40.0, 58.0, 110.0, 102.0],
        [16.0, 26.0, 46.0, 42.0],
    ]);
    assert_eq!(a * b, c);
    assert_eq!(a * &b, c);
}

#[test]
fn multiply_matrix_by_tuple() {
    let m = m4([
        [1.0, 2.0, 3.0, 4.0],
        [2.0, 4.0, 4.0, 2.0],
        [8.0, 6.0, 4.0, 1.0],
        [0.0, 0.0, 0.0, 1.0],
    ]);
    let t = Tuple::new(fx(1.0), fx(2.0), fx(3.0), fx(1.0));
    assert_eq!(m * &t, Tuple::new(fx(18.0), fx(24.0), fx(33.0), fx(1.0)));
}

#[test]
fn transpose_matrix() {
    let m = m4([
        [1.0, 2.0, 3.0, 4.0],
        [2.0, 4.0, 4.0, 2.0],
        [8.0, 6.0, 4.0, 1.0],
        [0.0, 0.0, 0.0, 1.0],
    ]);
    let t = m4([
        [1.0, 2.0, 8.0, 0.0],
        [2.0, 4.0, 6.0, 0.0],
        [3.0, 4.0, 4.0, 0.0],
        [4.0, 2.0, 1.0, 1.0],
    ]);
    assert_eq!(m.transpose(), t);
}

#[test]
fn determinant_2x2() {
    let m = m2([[1.0, 2.0], [3.0, 4.0]]);
    assert_eq!(m.determinant(), fx(-2.0));
}

#[test]
fn submatrix_3x3() {
    let m = m3([[1.0, 5.0, 0.0], [-3.0, 2.0, 7.0], [0.0, 6.0, -3.0]]);
    let sub = m2([[-3.0, 2.0], [0.0, 6.0]]);
    assert_eq!(m.submatrix(0, 2), sub);
}

#[test]
fn submatrix_4x4() {
    let m = m4([
        [6.0, 1.0, 1.0, 6.0],
        [8.0, 5.0, 8.0, 6.0],
        [1.0, 0.0, 8.0, 2.0],
        [7.0, 1.0, 1.0, 1.0],
    ]);
    let sub = m3([[6.0, 1.0, 6.0], [8.0, 8.0, 6.0], [7.0, 1.0, 1.0]]);
    assert_eq!(m.submatrix(2, 1), sub);
}

#[test]
fn minor_3x3() {
    let m = m3([[3.0, 5.0, 0.0], [2.0, -1.0, -7.0], [6.0, -1.0, 5.0]]);
    assert_eq!(m.minor(1, 0), fx(25.0));
}

#[test]
fn cofactor_3x3() {
    let m = m3([[3.0, 5.0, 0.0], [2.0, -1.0, -7.0], [6.0, -1.0, 5.0]]);
    assert_eq!(m.cofactor(0, 0), fx(-12.0));
    assert_eq!(m.cofactor(1, 0), fx(-25.0));
}

#[test]
fn determinant_3x3() {
    let m = m3([[1.0, 2.0, 6.0], [-5.0, 8.0, -4.0], [2.0, 6.0, 4.0]]);
    assert_eq!(m.determinant(), fx(-196.0));
}

#[test]
fn determinant_4x4() {
    let m = m4([
        [-2.0, -8.0, 3.0, 5.0],
        [-3.0, 1.0, 7.0, 3.0],
        [1.0, 2.0, -9.0, 6.0],
        [-6.0, 7.0, 7.0, -9.0],
    ]);
    assert_eq!(m.determinant(), fx(-4071.0));
}

#[test]
fn invertibility_check() {
    let a = m4([
        [-2.0, -8.0, 3.0, 5.0],
        [-3.0, 1.0, 7.0, 3.0],
        [1.0, 2.0, -9.0, 6.0],
        [-6.0, 7.0, 7.0, -9.0],
    ]);
    let b = m4([
        [-4.0, 2.0, -2.0, -3.0],
        [9.0, 6.0, 2.0, 6.0],
        [0.0, -5.0, 1.0, -5.0],
        [0.0, 0.0, 0.0, 0.0],
    ]);
    assert!(a.is_invertible());
    assert!(!b.is_invertible())
}

#[test]
fn invert_4x4_matrix() {
    let m = m4([
        [-5.0, 2.0, 6.0, -8.0],
        [1.0, -5.0, 1.0, 8.0],
        [7.0, 7.0, -6.0, -7.0],
        [1.0, -3.0, 7.0, 4.0],
    ]);
    let inv = m4([
        [0.21805, 0.45113, 0.24060, -0.04511],
        [-0.80827, -1.45677, -0.44361, 0.52068],
        [-0.07895, -0.22368, -0.05263, 0.19737],
        [-0.52256, -0.81391, -0.30075, 0.30639],
    ]);
    assert!(m.is_invertible());
    assert_eq!(m.inverse(), inv);
}

#[test]
fn translate_point() {
    let m = translation(fx(5.0), fx(-3.0), fx(2.0));
    let p = point(-3.0, 4.0, 5.0);
    assert_eq!(m * &p, point(2.0, 1.0, 7.0));
}

#[test]
fn inverse_translate_point() {
    let m = translation(fx(5.0), fx(-3.0), fx(2.0));
    let p = point(-3.0, 4.0, 5.0);
    assert_eq!(m.inverse() * &p, point(-8.0, 7.0, 3.0));
}

#[test]
fn translation_doesnt_change_vector() {
    let m = translation(fx(5.0), fx(-3.0), fx(2.0));
    let v = vector(-3.0, 4.0, 5.0);
    assert_eq!(m * &v, v);
}

#[test]
fn scale_point() {
    let m = scale(fx(2.0), fx(3.0), fx(4.0));
    let p = point(-4.0, 6.0, 8.0);
    assert_eq!(m * &p, point(-8.0, 18.0, 32.0));
}

#[test]
fn scale_vector() {
    let m = scale(fx(2.0), fx(3.0), fx(4.0));
    let v = vector(-4.0, 6.0, 8.0);
    assert_eq!(m * &v, vector(-8.0, 18.0, 32.0));
}

#[test]
fn inverse_scale_vector() {
    let m = scale(fx(2.0), fx(3.0), fx(4.0));
    let v = vector(-4.0, 6.0, 8.0);
    assert_eq!(m.inverse() * &v, vector(-2.0, 2.0, 2.0));
}

#[test]
fn rotate_point_about_x_axis() {
    let p = point(0.0, 1.0, 0.0);
    let eigth_turn = rotation_x(fx(PI / 4.0));
    let quarter_turn = rotation_x(fx(PI / 2.0));
    assert_eq!(eigth_turn * &p, point(0.0, SQRT_2 / 2.0, SQRT_2 / 2.0));
    assert_eq!(quarter_turn * &p, point(0.0, 0.0, 1.0));
}

#[test]
fn rotate_point_about_y_axis() {
    let p = point(0.0, 0.0, 1.0);
    let eigth_turn = rotation_y(fx(PI / 4.0));
    let quarter_turn = rotation_y(fx(PI / 2.0));
    assert_eq!(eigth_turn * &p, point(SQRT_2 / 2.0, 0.0, SQRT_2 / 2.0));
    assert_eq!(quarter_turn * &p, point(1.0, 0.0, 0.0));
}

#[test]
fn rotate_point_about_z_axis() {
    let p = point(0.0, 1.0, 0.0);
    let eigth_turn = rotation_z(fx(PI / 4.0));
    let quarter_turn = rotation_z(fx(PI / 2.0));
    assert_eq!(eigth_turn * &p, point(-SQRT_2 / 2.0, SQRT_2 / 2.0, 0.0));
    assert_eq!(quarter_turn * &p, point(-1.0, 0.0, 0.0));
}

#[test]
fn shearing() {
    let p = point(2.0, 3.0, 4.0);
    let o = fx(0.0);
    let i = fx(1.0);
    let s1 = shear(o, i, o, o, o, o);
    let s2 = shear(o, o, i, o, o, o);
    let s3 = shear(o, o, o, i, o, o);
    let s4 = shear(o, o, o, o, i, o);
    let s5 = shear(o, o, o, o, o, i);
    assert_eq!(s1 * &p, point(6.0, 3.0, 4.0));
    assert_eq!(s2 * &p, point(2.0, 5.0, 4.0));
    assert_eq!(s3 * &p, point(2.0, 7.0, 4.0));
    assert_eq!(s4 * &p, point(2.0, 3.0, 6.0));
    assert_eq!(s5 * &p, point(2.0, 3.0, 7.0));
}

#[test]
fn transformation_sequence() {
    let p = point(1.0, 0.0, 1.0);
    let rot = rotation_x(fx(PI / 2.0));
    let scaling = scale(fx(5.0), fx(5.0), fx(5.0));
    let tran = translation(fx(10.0), fx(5.0), fx(7.0));
    assert_eq!(tran * scaling * rot * &p, point(15.0, 0.0, 7.0));
    let transform = Matrix::<4>::identity()
        .rotate_x(fx(PI / 2.0))
        .scale(fx(5.0), fx(5.0), fx(5.0))
        .translate(fx(10.0), fx(5.0), fx(7.0));
    assert_eq!(transform * &p, point(15.0, 0.0, 7.0));
}

#[test]
fn new_matrix_is_zero() {
    let m = Matrix::<3>::new();
    for i in 0..3 {
        for j in 0..3 {
            assert_eq!(m[i][j], fx(0.0));
        }
    }
}

#[test]
fn identity_leaves_tuple_unchanged() {
    let t = Tuple::new(fx(1.5), fx(-2.25), fx(3.0), fx(1.0));
    let out = Matrix::<4>::identity().mul_tuple(&t);
    assert_eq!(out.x, t.x);
    assert_eq!(out.y, t.y);
    assert_eq!(out.z, t.z);
    assert_eq!(out.w, t.w);
}

#[test]
fn inverse_of_affine_is_affine() {
    let m = Matrix::<4>::identity()
        .rotate_y(fx(0.7))
        .scale(fx(0.3), fx(2.0), fx(1.5))
        .translate(fx(4.0), fx(-1.0), fx(9.5));
    assert!(m.is_usable());
    let inv = m.inverse();
    assert!(inv.is_affine());
    assert!(inv.is_proper());
}

#[test]
fn inverse_then_transform_gives_point_back() {
    let m = Matrix::<4>::identity()
        .rotate_x(fx(0.4))
        .scale(fx(2.0), fx(3.0), fx(4.0))
        .translate(fx(1.0), fx(2.0), fx(3.0));
    let p = point(0.5, -1.5, 2.5);
    assert_eq!(m.inverse() * &(m * &p), p);
}

#[test]
fn translation_leaves_vector_bit_for_bit() {
    let m = translation(fx(5.0), fx(-3.0), fx(2.0));
    let v = vector(-3.000000001, 4.123456789, 5.0);
    let out = m.mul_tuple(&v);
    assert_eq!(out.x, v.x);
    assert_eq!(out.y, v.y);
    assert_eq!(out.z, v.z);
    assert_eq!(out.w, v.w);
}

#[test]
fn singular_and_non_affine_matrices_are_not_usable() {
    let singular = scale(fx(1.0), fx(0.0), fx(1.0));
    assert!(!singular.is_invertible());
    assert!(!singular.is_usable());
    let skewed = m4([
        [1.0, 0.0, 0.0, 0.0],
        [0.0, 1.0, 0.0, 0.0],
        [0.0, 0.0, 1.0, 0.0],
        [0.0, 0.5, 0.0, 1.0],
    ]);
    assert!(skewed.is_invertible());
    assert!(!skewed.is_affine());
    let mut odd = Matrix::<4>::identity();
    odd.data[0][1] = Fixed::from_raw(i64::MIN);
    assert!(!odd.is_proper());
}

#[test]
fn inverse_of_a_nearly_singular_matrix_is_coarse() {
    let m = scale(fx(0.0011), fx(0.0011), fx(0.0011));
    assert_eq!(m.determinant().raw, 1);
    assert!(m.is_usable());
    let p = point(1.0, 1.0, 1.0);
    let back = m.inverse() * &(m * &p);
    assert_eq!(back, point(1.331, 1.331, 1.331));
    assert!(back.is_point());
    let tiny = scale(fx(0.0001), fx(0.0001), fx(0.0001));
    assert!(!tiny.is_invertible());
}

#[test]
fn translation_and_back_is_exact() {
    let m = translation(fx(5.25), fx(-3.000000001), fx(2.0));
    let p = point(-3.5, 4.123456789, 5.0);
    let back = m.inverse().mul_tuple(&m.mul_tuple(&p));
    assert_eq!((back.x, back.y, back.z, back.w), (p.x, p.y, p.z, p.w));
    let inv = m.inverse();
    let expected = translation(fx(-5.25), fx(3.000000001), fx(-2.0));
    for i in 0..4 {
        for j in 0..4 {
            assert_eq!(inv[i][j], expected[i][j]);
        }
    }
}

#[test]
fn removing_a_row_that_is_not_there_keeps_the_first_rows() {
    let m = m3([[1.0, 2.0, 3.0], [4.0, 5.0, 6.0], [7.0, 8.0, 9.0]]);
    assert_eq!(m.submatrix(3, 0), m2([[2.0, 3.0], [5.0, 6.0]]));
    assert_eq!(m.submatrix(7, 9), m2([[1.0, 2.0], [4.0, 5.0]]));
    assert_eq!(m.minor(2, 2), fx(-3.0));
    assert_eq!(m.cofactor(2, 1), fx(6.0));
    assert_eq!(m.cofactor(usize::MAX, usize::MAX), m.minor(usize::MAX, usize::MAX));
}
