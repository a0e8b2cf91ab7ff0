//! Square matrices and the affine transforms built from them.
//!
//! A transform is a 4x4 matrix. Chained builders multiply on the left, so
//! that `identity().rotate_x(a).scale(..).translate(..)` applied to a
//! point rotates first, then scales, then translates.
use crate::fixed::lemma_over_one;
use crate::fixed::lemma_over_self;
use crate::fixed::lemma_plus_negated;
use crate::fixed::lemma_plus_zero;
use crate::fixed::lemma_results_proper;
use crate::fixed::lemma_times_negated;
use crate::fixed::lemma_times_one;
use crate::fixed::lemma_times_zero;
use crate::fixed::lemma_zero_over;
use crate::fixed::Fixed;
use crate::tuple::Tuple;
use vstd::prelude::*;
use vstd::std_specs::cmp::PartialEqSpecImpl;
use vstd::std_specs::ops::MulSpecImpl;

verus! {

/// Tolerance, in raw units, below which two entries count as equal.
pub const MATRIX_EPSILON: i64 = 10_000;

#[derive(Clone, Copy, Debug)]
pub struct Matrix<const N: usize> {
    pub data: [[Fixed; N]; N],
}

/// The index `i` of a row or column moved past the removed one at `gap`.
pub open spec fn skip(i: int, gap: int) -> int {
    if i < gap {
        i
    } else {
        i + 1
    }
}

fn skip_index(i: usize, gap: usize) -> (r: usize)
    requires
        i < 8,
    ensures
        r == skip(i as int, gap as int),
{
    if i < gap {
        i
    } else {
        i + 1
    }
}

/// The sign pattern of cofactors: `value` where `row + col` is even, its
/// negation where it is odd.
pub open spec fn checkerboard(row: int, col: int, value: Fixed) -> Fixed {
    if (row + col) % 2 == 0 {
        value
    } else {
        value.negated()
    }
}

fn apply_checkerboard(row: usize, col: usize, value: Fixed) -> (r: Fixed)
    ensures
        r == checkerboard(row as int, col as int, value),
{
    if (row % 2 + col % 2) % 2 == 0 {
        value
    } else {
        value.negate()
    }
}

impl<const N: usize> Matrix<N> {
    /// The entry in row `i`, column `j`.
    pub open spec fn at(self, i: int, j: int) -> Fixed {
        self.data[i][j]
    }

    /// Every entry is zero.
    pub open spec fn is_zero(self) -> bool {
        forall|i: int, j: int| 0 <= i < N && 0 <= j < N ==> self.at(i, j) == Fixed::zero_spec()
    }

    /// Every entry of `self` is within the tolerance of that of `o`.
    pub open spec fn approx(self, o: Self) -> bool {
        forall|i: int, j: int|
            0 <= i < N && 0 <= j < N ==> (#[trigger] self.at(i, j)).within(
                o.at(i, j),
                Fixed { raw: MATRIX_EPSILON },
            )
    }

    pub fn from_array(values: &[[Fixed; N]; N]) -> (r: Self)
        ensures
            r.data == *values,
    {
        Matrix { data: *values }
    }

    pub fn new() -> (r: Self)
        ensures
            r.is_zero(),
    {
        Matrix { data: [[Fixed { raw: 0 }; N]; N] }
    }
}

impl<const N: usize> PartialEq for Matrix<N> {
    fn eq(&self, other: &Self) -> (r: bool) {
        let eps = Fixed::from_raw(MATRIX_EPSILON);
        let mut i: usize = 0;
        while i < N
            invariant
                i <= N,
                eps.raw == MATRIX_EPSILON,
                forall|a: int, b: int|
                    0 <= a < i && 0 <= b < N ==> (#[trigger] self.at(a, b)).within(
                        other.at(a, b),
                        eps,
                    ),
            decreases N - i,
        {
            let mut j: usize = 0;
            while j < N
                invariant
                    i < N,
                    j <= N,
                    eps.raw == MATRIX_EPSILON,
                    forall|a: int, b: int|
                        0 <= a < i && 0 <= b < N ==> (#[trigger] self.at(a, b)).within(
                            other.at(a, b),
                            eps,
                        ),
                    forall|b: int|
                        0 <= b < j ==> (#[trigger] self.at(i as int, b)).within(
                            other.at(i as int, b),
                            eps,
                        ),
                decreases N - j,
            {
                if !self.data[i][j].is_within(other.data[i][j], eps) {
                    assert(!self.at(i as int, j as int).within(other.at(i as int, j as int), eps));
                    return false;
                }
                j = j + 1;
            }
            i = i + 1;
        }
        true
    }
}

impl<const N: usize> core::ops::Index<usize> for Matrix<N> {
    type Output = [Fixed; N];

    fn index(&self, i: usize) -> (r: &[Fixed; N])
        ensures
            *r == self.data[i as int],
    {
        &self.data[i]
    }
}

impl<const N: usize> vstd::std_specs::core::IndexSpecImpl<usize> for Matrix<N> {
    open spec fn index_req(&self, i: &usize) -> bool {
        *i < N
    }
}

impl<const N: usize> PartialEqSpecImpl for Matrix<N> {
    open spec fn obeys_eq_spec() -> bool {
        true
    }

    open spec fn eq_spec(&self, other: &Matrix<N>) -> bool {
        self.approx(*other)
    }
}

impl Matrix<2> {
    pub open spec fn determinant_spec(self) -> Fixed {
        self.at(0, 0).times(self.at(1, 1)).minus(self.at(0, 1).times(self.at(1, 0)))
    }

    pub fn determinant(&self) -> (r: Fixed)
        ensures
            r == self.determinant_spec(),
    {
        self.data[0][0] * self.data[1][1] - self.data[0][1] * self.data[1][0]
    }
}

impl Matrix<3> {
    /// The matrix without row `row` and column `col`.
    pub open spec fn submatrix_spec(self, row: int, col: int) -> Matrix<2> {
        Matrix {
            data: [
                [
                    self.at(skip(0, row), skip(0, col)),
                    self.at(skip(0, row), skip(1, col)),
                ],
                [
                    self.at(skip(1, row), skip(0, col)),
                    self.at(skip(1, row), skip(1, col)),
                ],
            ],
        }
    }

    /// Determinant of the matrix without row `row` and column `col`.
    pub open spec fn minor_spec(self, row: int, col: int) -> Fixed {
        self.submatrix_spec(row, col).determinant_spec()
    }

    /// The minor, negated where `row + col` is odd.
    pub open spec fn cofactor_spec(self, row: int, col: int) -> Fixed {
        checkerboard(row, col, self.minor_spec(row, col))
    }

    /// Cofactor expansion along the first row.
    pub open spec fn determinant_spec(self) -> Fixed {
        self.at(0, 0).times(self.cofactor_spec(0, 0)).plus(
            self.at(0, 1).times(self.cofactor_spec(0, 1)),
        ).plus(self.at(0, 2).times(self.cofactor_spec(0, 2)))
    }

    pub fn submatrix(&self, row: usize, column: usize) -> (r: Matrix<2>)
        ensures
            r == self.submatrix_spec(row as int, column as int),
    {
        let r0 = skip_index(0, row);
        let r1 = skip_index(1, row);
        let c0 = skip_index(0, column);
        let c1 = skip_index(1, column);
        Matrix {
            data: [
                [self.data[r0][c0], self.data[r0][c1]],
                [self.data[r1][c0], self.data[r1][c1]],
            ],
        }
    }

    pub fn minor(&self, row: usize, column: usize) -> (r: Fixed)
        ensures
            r == self.minor_spec(row as int, column as int),
    {
        self.submatrix(row, column).determinant()
    }

    pub fn cofactor(&self, row: usize, column: usize) -> (r: Fixed)
        ensures
            r == self.cofactor_spec(row as int, column as int),
    {
        apply_checkerboard(row, column, self.minor(row, column))
    }

    pub fn determinant(&self) -> (r: Fixed)
        ensures
            r == self.determinant_spec(),
    {
        self.data[0][0] * self.cofactor(0, 0) + self.data[0][1] * self.cofactor(0, 1)
            + self.data[0][2] * self.cofactor(0, 2)
    }
}

impl Matrix<4> {
    /// Ones on the diagonal, zeros elsewhere.
    pub open spec fn identity_spec() -> Matrix<4> {
        let o = Fixed::one_spec();
        let z = Fixed::zero_spec();
        Matrix { data: [[o, z, z, z], [z, o, z, z], [z, z, o, z], [z, z, z, o]] }
    }

    /// Rows and columns exchanged.
    pub open spec fn transposed(self) -> Matrix<4> {
        Matrix {
            data: [
                [self.at(0, 0), self.at(1, 0), self.at(2, 0), self.at(3, 0)],
                [self.at(0, 1), self.at(1, 1), self.at(2, 1), self.at(3, 1)],
                [self.at(0, 2), self.at(1, 2), self.at(2, 2), self.at(3, 2)],
                [self.at(0, 3), self.at(1, 3), self.at(2, 3), self.at(3, 3)],
            ],
        }
    }

    /// Row `i` of `self` against column `j` of `rhs`, summed left to right.
    pub open spec fn cell(self, rhs: Matrix<4>, i: int, j: int) -> Fixed {
        self.at(i, 0).times(rhs.at(0, j)).plus(self.at(i, 1).times(rhs.at(1, j))).plus(
            self.at(i, 2).times(rhs.at(2, j)),
        ).plus(self.at(i, 3).times(rhs.at(3, j)))
    }

    /// The matrix product `self * rhs`.
    pub open spec fn product(self, rhs: Matrix<4>) -> Matrix<4> {
        product_of(self, rhs)
    }

    /// Row `i` of `self` against the four components of `t`.
    pub open spec fn row_dot(self, t: Tuple, i: int) -> Fixed {
        self.at(i, 0).times(t.x).plus(self.at(i, 1).times(t.y)).plus(self.at(i, 2).times(t.z)).plus(
            self.at(i, 3).times(t.w),
        )
    }

    /// The tuple `self * t`.
    pub open spec fn apply(self, t: Tuple) -> Tuple {
        Tuple {
            x: self.row_dot(t, 0),
            y: self.row_dot(t, 1),
            z: self.row_dot(t, 2),
            w: self.row_dot(t, 3),
        }
    }

    /// The matrix without row `row` and column `col`.
    pub open spec fn submatrix_spec(self, row: int, col: int) -> Matrix<3> {
        Matrix {
            data: [
                [
                    self.at(skip(0, row), skip(0, col)),
                    self.at(skip(0, row), skip(1, col)),
                    self.at(skip(0, row), skip(2, col)),
                ],
                [
                    self.at(skip(1, row), skip(0, col)),
                    self.at(skip(1, row), skip(1, col)),
                    self.at(skip(1, row), skip(2, col)),
                ],
                [
                    self.at(skip(2, row), skip(0, col)),
                    self.at(skip(2, row), skip(1, col)),
                    self.at(skip(2, row), skip(2, col)),
                ],
            ],
        }
    }

    /// Determinant of the matrix without row `row` and column `col`.
    pub open spec fn minor_spec(self, row: int, col: int) -> Fixed {
        self.submatrix_spec(row, col).determinant_spec()
    }

    /// The minor, negated where `row + col` is odd.
    pub open spec fn cofactor_spec(self, row: int, col: int) -> Fixed {
        cofactor_of(self, row, col)
    }

    /// Cofactor expansion along the first row.
    pub open spec fn determinant_spec(self) -> Fixed {
        determinant_of(self)
    }

    /// The determinant is not zero.
    pub open spec fn invertible(self) -> bool {
        self.determinant_spec().raw != 0
    }

    /// Entry `(i, j)` of the inverse: the cofactor at `(j, i)` over the
    /// determinant.
    pub open spec fn inverse_entry(self, i: int, j: int) -> Fixed {
        self.cofactor_spec(j, i).over(self.determinant_spec())
    }

    /// The inverse by the adjugate.
    pub open spec fn inverted(self) -> Matrix<4> {
        inverse_of(self)
    }

    /// The last row is `(0, 0, 0, 1)`: the matrix maps points to points
    /// and vectors to vectors.
    pub open spec fn affine(self) -> bool {
        &&& self.at(3, 0) == Fixed::zero_spec()
        &&& self.at(3, 1) == Fixed::zero_spec()
        &&& self.at(3, 2) == Fixed::zero_spec()
        &&& self.at(3, 3) == Fixed::one_spec()
    }

    /// Every entry lies in the symmetric range.
    pub open spec fn proper(self) -> bool {
        forall|i: int, j: int| 0 <= i < 4 && 0 <= j < 4 ==> (#[trigger] self.at(i, j)).proper()
    }

    /// What a transform has to be for a shape, a pattern or a camera to
    /// use it: affine, invertible, and with every entry in the symmetric
    /// range.
    pub open spec fn usable(self) -> bool {
        self.affine() && self.invertible() && self.proper()
    }

    pub fn is_affine(&self) -> (r: bool)
        ensures
            r == self.affine(),
    {
        self.data[3][0].raw == 0 && self.data[3][1].raw == 0 && self.data[3][2].raw == 0
            && self.data[3][3].raw == crate::fixed::SCALE
    }

    pub fn is_proper(&self) -> (r: bool)
        ensures
            r == self.proper(),
    {
        let mut i: usize = 0;
        while i < 4
            invariant
                i <= 4,
                forall|a: int, b: int| 0 <= a < i && 0 <= b < 4 ==> (#[trigger] self.at(a, b)).proper(),
            decreases 4 - i,
        {
            let mut j: usize = 0;
            while j < 4
                invariant
                    i < 4,
                    j <= 4,
                    forall|a: int, b: int|
                        0 <= a < i && 0 <= b < 4 ==> (#[trigger] self.at(a, b)).proper(),
                    forall|b: int| 0 <= b < j ==> (#[trigger] self.at(i as int, b)).proper(),
                decreases 4 - j,
            {
                if self.data[i][j].raw == i64::MIN {
                    assert(!self.at(i as int, j as int).proper());
                    return false;
                }
                j = j + 1;
            }
            i = i + 1;
        }
        true
    }

    pub fn is_usable(&self) -> (r: bool)
        ensures
            r == self.usable(),
    {
        self.is_affine() && self.is_invertible() && self.is_proper()
    }

    pub fn identity() -> (r: Self)
        ensures
            r == Matrix::<4>::identity_spec(),
            r.affine(),
    {
        let o = Fixed::one();
        let z = Fixed::zero();
        Matrix { data: [[o, z, z, z], [z, o, z, z], [z, z, o, z], [z, z, z, o]] }
    }

    /// The matrix with rows and columns exchanged.
    pub fn transpose(&self) -> (r: Self)
        ensures
            r == self.transposed(),
    {
        Matrix {
            data: [
                [self.data[0][0], self.data[1][0], self.data[2][0], self.data[3][0]],
                [self.data[0][1], self.data[1][1], self.data[2][1], self.data[3][1]],
                [self.data[0][2], self.data[1][2], self.data[2][2], self.data[3][2]],
                [self.data[0][3], self.data[1][3], self.data[2][3], self.data[3][3]],
            ],
        }
    }

    fn cell_exec(&self, rhs: &Matrix<4>, i: usize, j: usize) -> (r: Fixed)
        requires
            i < 4,
            j < 4,
        ensures
            r == self.cell(*rhs, i as int, j as int),
    {
        self.data[i][0] * rhs.data[0][j] + self.data[i][1] * rhs.data[1][j] + self.data[i][2]
            * rhs.data[2][j] + self.data[i][3] * rhs.data[3][j]
    }

    /// The matrix product `self * rhs`.
    pub fn mul_matrix(&self, rhs: &Matrix<4>) -> (r: Matrix<4>)
        ensures
            r == self.product(*rhs),
            r.proper(),
            self.affine() && rhs.affine() ==> r.affine(),
    {
        proof {
            lemma_product_proper(*self, *rhs);
            if self.affine() && rhs.affine() {
                lemma_product_affine(*self, *rhs);
            }
        }
        reveal(product_of);
        Matrix {
            data: [
                [
                    self.cell_exec(rhs, 0, 0),
                    self.cell_exec(rhs, 0, 1),
                    self.cell_exec(rhs, 0, 2),
                    self.cell_exec(rhs, 0, 3),
                ],
                [
                    self.cell_exec(rhs, 1, 0),
                    self.cell_exec(rhs, 1, 1),
                    self.cell_exec(rhs, 1, 2),
                    self.cell_exec(rhs, 1, 3),
                ],
                [
                    self.cell_exec(rhs, 2, 0),
                    self.cell_exec(rhs, 2, 1),
                    self.cell_exec(rhs, 2, 2),
                    self.cell_exec(rhs, 2, 3),
                ],
                [
                    self.cell_exec(rhs, 3, 0),
                    self.cell_exec(rhs, 3, 1),
                    self.cell_exec(rhs, 3, 2),
                    self.cell_exec(rhs, 3, 3),
                ],
            ],
        }
    }

    fn row_dot_exec(&self, t: &Tuple, i: usize) -> (r: Fixed)
        requires
            i < 4,
        ensures
            r == self.row_dot(*t, i as int),
    {
        self.data[i][0] * t.x + self.data[i][1] * t.y + self.data[i][2] * t.z + self.data[i][3]
            * t.w
    }

    /// The tuple `self * t`.
    pub fn mul_tuple(&self, t: &Tuple) -> (r: Tuple)
        ensures
            r == self.apply(*t),
    {
        Tuple::new(
            self.row_dot_exec(t, 0),
            self.row_dot_exec(t, 1),
            self.row_dot_exec(t, 2),
            self.row_dot_exec(t, 3),
        )
    }

    pub fn submatrix(&self, row: usize, column: usize) -> (r: Matrix<3>)
        ensures
            r == self.submatrix_spec(row as int, column as int),
    {
        let r0 = skip_index(0, row);
        let r1 = skip_index(1, row);
        let r2 = skip_index(2, row);
        let c0 = skip_index(0, column);
        let c1 = skip_index(1, column);
        let c2 = skip_index(2, column);
        Matrix {
            data: [
                [self.data[r0][c0], self.data[r0][c1], self.data[r0][c2]],
                [self.data[r1][c0], self.data[r1][c1], self.data[r1][c2]],
                [self.data[r2][c0], self.data[r2][c1], self.data[r2][c2]],
            ],
        }
    }

    pub fn minor(&self, row: usize, column: usize) -> (r: Fixed)
        ensures
            r == self.minor_spec(row as int, column as int),
    {
        self.submatrix(row, column).determinant()
    }

    pub fn cofactor(&self, row: usize, column: usize) -> (r: Fixed)
        ensures
            r == self.cofactor_spec(row as int, column as int),
    {
        reveal(cofactor_of);
        apply_checkerboard(row, column, self.minor(row, column))
    }

    pub fn determinant(&self) -> (r: Fixed)
        ensures
            r == self.determinant_spec(),
    {
        reveal(determinant_of);
        self.data[0][0] * self.cofactor(0, 0) + self.data[0][1] * self.cofactor(0, 1)
            + self.data[0][2] * self.cofactor(0, 2) + self.data[0][3] * self.cofactor(0, 3)
    }

    /// Whether the determinant is not zero.
    pub fn is_invertible(&self) -> (r: bool)
        ensures
            r == self.invertible(),
    {
        !self.determinant().is_zero()
    }

    /// The inverse, by the adjugate.
    pub fn inverse(&self) -> (r: Self)
        requires
            self.invertible(),
        ensures
            r == self.inverted(),
            r.proper(),
            self.affine() && self.proper() ==> r.affine(),
    {
        proof {
            lemma_inverse_proper(*self);
            if self.affine() && self.proper() {
                lemma_inverse_affine(*self);
            }
        }
        reveal(inverse_of);
        let det = self.determinant();
        Matrix {
            data: [
                [
                    self.cofactor(0, 0) / det,
                    self.cofactor(1, 0) / det,
                    self.cofactor(2, 0) / det,
                    self.cofactor(3, 0) / det,
                ],
                [
                    self.cofactor(0, 1) / det,
                    self.cofactor(1, 1) / det,
                    self.cofactor(2, 1) / det,
                    self.cofactor(3, 1) / det,
                ],
                [
                    self.cofactor(0, 2) / det,
                    self.cofactor(1, 2) / det,
                    self.cofactor(2, 2) / det,
                    self.cofactor(3, 2) / det,
                ],
                [
                    self.cofactor(0, 3) / det,
                    self.cofactor(1, 3) / det,
                    self.cofactor(2, 3) / det,
                    self.cofactor(3, 3) / det,
                ],
            ],
        }
    }

    /// The transform followed by a translation.
    pub fn translate(&self, x: Fixed, y: Fixed, z: Fixed) -> (r: Self)
        ensures
            r == translation_spec(x, y, z).product(*self),
            r.proper(),
            self.affine() ==> r.affine(),
    {
        translation(x, y, z).mul_matrix(self)
    }

    pub fn scale(&self, x: Fixed, y: Fixed, z: Fixed) -> (r: Self)
        ensures
            r == scale_spec(x, y, z).product(*self),
            r.proper(),
            self.affine() ==> r.affine(),
    {
        scale(x, y, z).mul_matrix(self)
    }

    /// The transform followed by a rotation about the x axis.
    pub fn rotate_x(&self, radians: Fixed) -> (r: Self)
        ensures
            r == rotation_x_spec(radians).product(*self),
            r.proper(),
            self.affine() ==> r.affine(),
    {
        rotation_x(radians).mul_matrix(self)
    }

    /// The transform followed by a rotation about the y axis.
    pub fn rotate_y(&self, radians: Fixed) -> (r: Self)
        ensures
            r == rotation_y_spec(radians).product(*self),
            r.proper(),
            self.affine() ==> r.affine(),
    {
        rotation_y(radians).mul_matrix(self)
    }

    /// The transform followed by a rotation about the z axis.
    pub fn rotate_z(&self, radians: Fixed) -> (r: Self)
        ensures
            r == rotation_z_spec(radians).product(*self),
            r.proper(),
            self.affine() ==> r.affine(),
    {
        rotation_z(radians).mul_matrix(self)
    }

    pub fn shear(
        &self,
        x_y: Fixed,
        x_z: Fixed,
        y_x: Fixed,
        y_z: Fixed,
        z_x: Fixed,
        z_y: Fixed,
    ) -> (r: Self)
        ensures
            r == shear_spec(x_y, x_z, y_x, y_z, z_x, z_y).product(*self),
            r.proper(),
            self.affine() ==> r.affine(),
    {
        shear(x_y, x_z, y_x, y_z, z_x, z_y).mul_matrix(self)
    }
}

/// The cofactor of a 4x4 matrix at `(row, col)`: the minor, negated where
/// `row + col` is odd.
#[verifier::opaque]
pub open spec fn cofactor_of(m: Matrix<4>, row: int, col: int) -> Fixed {
    checkerboard(row, col, m.minor_spec(row, col))
}

/// The determinant of a 4x4 matrix by cofactor expansion along the first
/// row.
#[verifier::opaque]
pub open spec fn determinant_of(m: Matrix<4>) -> Fixed {
    m.at(0, 0).times(m.cofactor_spec(0, 0)).plus(m.at(0, 1).times(m.cofactor_spec(0, 1))).plus(
        m.at(0, 2).times(m.cofactor_spec(0, 2)),
    ).plus(m.at(0, 3).times(m.cofactor_spec(0, 3)))
}

/// The matrix product `a * b`: each entry a row of `a` against a column
/// of `b`.
#[verifier::opaque]
pub open spec fn product_of(a: Matrix<4>, b: Matrix<4>) -> Matrix<4> {
    Matrix {
        data: [
            [
                a.cell(b, 0, 0),
                a.cell(b, 0, 1),
                a.cell(b, 0, 2),
                a.cell(b, 0, 3),
            ],
            [
                a.cell(b, 1, 0),
                a.cell(b, 1, 1),
                a.cell(b, 1, 2),
                a.cell(b, 1, 3),
            ],
            [
                a.cell(b, 2, 0),
                a.cell(b, 2, 1),
                a.cell(b, 2, 2),
                a.cell(b, 2, 3),
            ],
            [
                a.cell(b, 3, 0),
                a.cell(b, 3, 1),
                a.cell(b, 3, 2),
                a.cell(b, 3, 3),
            ],
        ],
    }
}

/// The inverse by the adjugate: the transposed matrix of cofactors, each
/// over the determinant.
#[verifier::opaque]
pub open spec fn inverse_of(m: Matrix<4>) -> Matrix<4> {
    Matrix {
        data: [
            [
                m.inverse_entry(0, 0),
                m.inverse_entry(0, 1),
                m.inverse_entry(0, 2),
                m.inverse_entry(0, 3),
            ],
            [
                m.inverse_entry(1, 0),
                m.inverse_entry(1, 1),
                m.inverse_entry(1, 2),
                m.inverse_entry(1, 3),
            ],
            [
                m.inverse_entry(2, 0),
                m.inverse_entry(2, 1),
                m.inverse_entry(2, 2),
                m.inverse_entry(2, 3),
            ],
            [
                m.inverse_entry(3, 0),
                m.inverse_entry(3, 1),
                m.inverse_entry(3, 2),
                m.inverse_entry(3, 3),
            ],
        ],
    }
}

/// The identity with `(x, y, z)` in the last column.
pub open spec fn translation_spec(x: Fixed, y: Fixed, z: Fixed) -> Matrix<4> {
    let o = Fixed::one_spec();
    let n = Fixed::zero_spec();
    Matrix { data: [[o, n, n, x], [n, o, n, y], [n, n, o, z], [n, n, n, o]] }
}

/// The identity with `(x, y, z)` on the diagonal.
pub open spec fn scale_spec(x: Fixed, y: Fixed, z: Fixed) -> Matrix<4> {
    let o = Fixed::one_spec();
    let n = Fixed::zero_spec();
    Matrix { data: [[x, n, n, n], [n, y, n, n], [n, n, z, n], [n, n, n, o]] }
}

/// Rotation about the x axis.
pub open spec fn rotation_x_spec(radians: Fixed) -> Matrix<4> {
    let o = Fixed::one_spec();
    let n = Fixed::zero_spec();
    let c = radians.cosine();
    let s = radians.sine();
    Matrix { data: [[o, n, n, n], [n, c, s.negated(), n], [n, s, c, n], [n, n, n, o]] }
}

/// Rotation about the y axis.
pub open spec fn rotation_y_spec(radians: Fixed) -> Matrix<4> {
    let o = Fixed::one_spec();
    let n = Fixed::zero_spec();
    let c = radians.cosine();
    let s = radians.sine();
    Matrix { data: [[c, n, s, n], [n, o, n, n], [s.negated(), n, c, n], [n, n, n, o]] }
}

/// Rotation about the z axis.
pub open spec fn rotation_z_spec(radians: Fixed) -> Matrix<4> {
    let o = Fixed::one_spec();
    let n = Fixed::zero_spec();
    let c = radians.cosine();
    let s = radians.sine();
    Matrix { data: [[c, s.negated(), n, n], [s, c, n, n], [n, n, o, n], [n, n, n, o]] }
}

/// Shear: each coordinate moved in proportion to the two others.
pub open spec fn shear_spec(
    x_y: Fixed,
    x_z: Fixed,
    y_x: Fixed,
    y_z: Fixed,
    z_x: Fixed,
    z_y: Fixed,
) -> Matrix<4> {
    let o = Fixed::one_spec();
    let n = Fixed::zero_spec();
    Matrix { data: [[o, x_y, x_z, n], [y_x, o, y_z, n], [z_x, z_y, o, n], [n, n, n, o]] }
}

pub fn translation(x: Fixed, y: Fixed, z: Fixed) -> (r: Matrix<4>)
    ensures
        r == translation_spec(x, y, z),
        r.affine(),
{
    let o = Fixed::one();
    let n = Fixed::zero();
    Matrix { data: [[o, n, n, x], [n, o, n, y], [n, n, o, z], [n, n, n, o]] }
}

pub fn scale(x: Fixed, y: Fixed, z: Fixed) -> (r: Matrix<4>)
    ensures
        r == scale_spec(x, y, z),
        r.affine(),
{
    let o = Fixed::one();
    let n = Fixed::zero();
    Matrix { data: [[x, n, n, n], [n, y, n, n], [n, n, z, n], [n, n, n, o]] }
}

pub fn rotation_x(radians: Fixed) -> (r: Matrix<4>)
    ensures
        r == rotation_x_spec(radians),
        r.affine(),
{
    let o = Fixed::one();
    let n = Fixed::zero();
    let c = radians.cos();
    let s = radians.sin();
    Matrix { data: [[o, n, n, n], [n, c, s.negate(), n], [n, s, c, n], [n, n, n, o]] }
}

pub fn rotation_y(radians: Fixed) -> (r: Matrix<4>)
    ensures
        r == rotation_y_spec(radians),
        r.affine(),
{
    let o = Fixed::one();
    let n = Fixed::zero();
    let c = radians.cos();
    let s = radians.sin();
    Matrix { data: [[c, n, s, n], [n, o, n, n], [s.negate(), n, c, n], [n, n, n, o]] }
}

pub fn rotation_z(radians: Fixed) -> (r: Matrix<4>)
    ensures
        r == rotation_z_spec(radians),
        r.affine(),
{
    let o = Fixed::one();
    let n = Fixed::zero();
    let c = radians.cos();
    let s = radians.sin();
    Matrix { data: [[c, s.negate(), n, n], [s, c, n, n], [n, n, o, n], [n, n, n, o]] }
}

pub fn shear(x_y: Fixed, x_z: Fixed, y_x: Fixed, y_z: Fixed, z_x: Fixed, z_y: Fixed) -> (r: Matrix<
    4,
>)
    ensures
        r == shear_spec(x_y, x_z, y_x, y_z, z_x, z_y),
        r.affine(),
{
    let o = Fixed::one();
    let n = Fixed::zero();
    Matrix { data: [[o, x_y, x_z, n], [y_x, o, y_z, n], [z_x, z_y, o, n], [n, n, n, o]] }
}

impl core::ops::Mul<&Matrix<4>> for Matrix<4> {
    type Output = Matrix<4>;

    fn mul(self, rhs: &Matrix<4>) -> (r: Matrix<4>) {
        self.mul_matrix(rhs)
    }
}

impl MulSpecImpl<&Matrix<4>> for Matrix<4> {
    open spec fn obeys_mul_spec() -> bool {
        true
    }

    open spec fn mul_req(self, rhs: &Matrix<4>) -> bool {
        true
    }

    open spec fn mul_spec(self, rhs: &Matrix<4>) -> Matrix<4> {
        self.product(*rhs)
    }
}

impl core::ops::Mul<Matrix<4>> for Matrix<4> {
    type Output = Matrix<4>;

    fn mul(self, rhs: Matrix<4>) -> (r: Matrix<4>) {
        self.mul_matrix(&rhs)
    }
}

impl MulSpecImpl<Matrix<4>> for Matrix<4> {
    open spec fn obeys_mul_spec() -> bool {
        true
    }

    open spec fn mul_req(self, rhs: Matrix<4>) -> bool {
        true
    }

    open spec fn mul_spec(self, rhs: Matrix<4>) -> Matrix<4> {
        self.product(rhs)
    }
}

impl core::ops::Mul<&Tuple> for Matrix<4> {
    type Output = Tuple;

    fn mul(self, rhs: &Tuple) -> (r: Tuple) {
        self.mul_tuple(rhs)
    }
}

impl MulSpecImpl<&Tuple> for Matrix<4> {
    open spec fn obeys_mul_spec() -> bool {
        true
    }

    open spec fn mul_req(self, rhs: &Tuple) -> bool {
        true
    }

    open spec fn mul_spec(self, rhs: &Tuple) -> Tuple {
        self.apply(*rhs)
    }
}

/// A 2x2 matrix whose second row is zero has determinant zero.
proof fn lemma_det2_zero_row(m: Matrix<2>)
    requires
        m.at(1, 0) == Fixed::zero_spec(),
        m.at(1, 1) == Fixed::zero_spec(),
    ensures
        m.determinant_spec() == Fixed::zero_spec(),
{
    lemma_times_zero(m.at(0, 0));
    lemma_times_zero(m.at(0, 1));
}

/// A 2x2 matrix whose second row is `(0, 1)` has its first entry as
/// determinant.
proof fn lemma_det2_unit_row(m: Matrix<2>)
    requires
        m.at(1, 0) == Fixed::zero_spec(),
        m.at(1, 1) == Fixed::one_spec(),
        m.at(0, 0).proper(),
    ensures
        m.determinant_spec() == m.at(0, 0),
{
    lemma_times_one(m.at(0, 0));
    lemma_times_zero(m.at(0, 1));
    lemma_plus_zero(m.at(0, 0));
}

/// A 3x3 matrix whose last row is zero has determinant zero.
proof fn lemma_det3_zero_row(s: Matrix<3>)
    requires
        s.at(2, 0) == Fixed::zero_spec(),
        s.at(2, 1) == Fixed::zero_spec(),
        s.at(2, 2) == Fixed::zero_spec(),
    ensures
        s.determinant_spec() == Fixed::zero_spec(),
{
    lemma_det2_zero_row(s.submatrix_spec(0, 0));
    lemma_det2_zero_row(s.submatrix_spec(0, 1));
    lemma_det2_zero_row(s.submatrix_spec(0, 2));
    assert(s.cofactor_spec(0, 0) == Fixed::zero_spec());
    assert(s.cofactor_spec(0, 1) == Fixed::zero_spec());
    assert(s.cofactor_spec(0, 2) == Fixed::zero_spec());
    lemma_times_zero(s.at(0, 0));
    lemma_times_zero(s.at(0, 1));
    lemma_times_zero(s.at(0, 2));
}

/// A 3x3 matrix whose last row is `(0, 0, 1)` has the determinant of its
/// upper left 2x2 part.
proof fn lemma_det3_unit_row(s: Matrix<3>)
    requires
        s.at(2, 0) == Fixed::zero_spec(),
        s.at(2, 1) == Fixed::zero_spec(),
        s.at(2, 2) == Fixed::one_spec(),
        s.at(1, 0).proper(),
        s.at(1, 1).proper(),
    ensures
        s.determinant_spec() == s.at(0, 0).times(s.at(1, 1)).minus(s.at(0, 1).times(s.at(1, 0))),
{
    lemma_det2_unit_row(s.submatrix_spec(0, 0));
    lemma_det2_unit_row(s.submatrix_spec(0, 1));
    lemma_det2_zero_row(s.submatrix_spec(0, 2));
    assert(s.cofactor_spec(0, 0) == s.at(1, 1));
    assert(s.cofactor_spec(0, 1) == s.at(1, 0).negated());
    assert(s.cofactor_spec(0, 2) == Fixed::zero_spec());
    lemma_times_zero(s.at(0, 2));
    lemma_times_negated(s.at(0, 1), s.at(1, 0));
    let p = s.at(0, 0).times(s.at(1, 1));
    let q = s.at(0, 1).times(s.at(1, 0));
    lemma_results_proper(s.at(0, 0), s.at(1, 1));
    lemma_results_proper(s.at(0, 1), s.at(1, 0));
    lemma_plus_negated(p, q);
    lemma_results_proper(p, q);
    lemma_plus_zero(p.minus(q));
}

/// The determinant of an affine matrix is that of its upper left 3x3
/// part.
proof fn lemma_det4_affine(m: Matrix<4>)
    requires
        m.affine(),
        m.proper(),
    ensures
        m.determinant_spec() == m.minor_spec(3, 3),
{
    reveal(determinant_of);
    reveal(cofactor_of);
    let u = m.submatrix_spec(3, 3);
    assert(m.at(2, 0).proper() && m.at(2, 1).proper() && m.at(2, 2).proper());
    lemma_det3_unit_row(m.submatrix_spec(0, 0));
    lemma_det3_unit_row(m.submatrix_spec(0, 1));
    lemma_det3_unit_row(m.submatrix_spec(0, 2));
    lemma_det3_zero_row(m.submatrix_spec(0, 3));
    assert(m.minor_spec(0, 0) == u.minor_spec(0, 0));
    assert(m.minor_spec(0, 1) == u.minor_spec(0, 1));
    assert(m.minor_spec(0, 2) == u.minor_spec(0, 2));
    assert(m.cofactor_spec(0, 0) == u.cofactor_spec(0, 0));
    assert(m.cofactor_spec(0, 1) == u.cofactor_spec(0, 1));
    assert(m.cofactor_spec(0, 2) == u.cofactor_spec(0, 2));
    assert(m.cofactor_spec(0, 3) == Fixed::zero_spec());
    lemma_times_zero(m.at(0, 3));
    let a = m.at(0, 0).times(m.cofactor_spec(0, 0));
    let b = m.at(0, 1).times(m.cofactor_spec(0, 1));
    let c = m.at(0, 2).times(m.cofactor_spec(0, 2));
    lemma_results_proper(a.plus(b), c);
    lemma_plus_zero(a.plus(b).plus(c));
    assert(u.at(0, 0) == m.at(0, 0) && u.at(0, 1) == m.at(0, 1) && u.at(0, 2) == m.at(0, 2));
}

/// An affine matrix keeps the fourth component of points and of vectors.
pub proof fn lemma_affine_keeps_w(m: Matrix<4>, t: Tuple)
    requires
        m.affine(),
        t.w == Fixed::one_spec() || t.w == Fixed::zero_spec(),
    ensures
        m.apply(t).w == t.w,
{
    lemma_times_zero(t.x);
    lemma_times_zero(t.y);
    lemma_times_zero(t.z);
    lemma_times_one(t.w);
    lemma_plus_zero(t.w);
}

/// The inverse of an affine matrix is affine.
pub proof fn lemma_inverse_affine(m: Matrix<4>)
    requires
        m.usable(),
    ensures
        m.inverted().affine(),
{
    reveal(inverse_of);
    reveal(cofactor_of);
    lemma_det4_affine(m);
    lemma_det3_zero_row(m.submatrix_spec(0, 3));
    lemma_det3_zero_row(m.submatrix_spec(1, 3));
    lemma_det3_zero_row(m.submatrix_spec(2, 3));
    let det = m.determinant_spec();
    assert(m.cofactor_spec(0, 3) == Fixed::zero_spec());
    assert(m.cofactor_spec(1, 3) == Fixed::zero_spec());
    assert(m.cofactor_spec(2, 3) == Fixed::zero_spec());
    assert(m.cofactor_spec(3, 3) == det);
    lemma_zero_over(det);
    lemma_over_self(det);
    assert(m.inverted().at(3, 0) == m.inverse_entry(3, 0));
    assert(m.inverted().at(3, 1) == m.inverse_entry(3, 1));
    assert(m.inverted().at(3, 2) == m.inverse_entry(3, 2));
    assert(m.inverted().at(3, 3) == m.inverse_entry(3, 3));
}

/// Translating a vector leaves it unchanged.
pub proof fn lemma_translation_keeps_vectors(x: Fixed, y: Fixed, z: Fixed, v: Tuple)
    requires
        v.w == Fixed::zero_spec(),
        v.x.proper(),
        v.y.proper(),
        v.z.proper(),
    ensures
        translation_spec(x, y, z).apply(v) == v,
{
    lemma_times_zero(v.x);
    lemma_times_zero(v.y);
    lemma_times_zero(v.z);
    lemma_times_zero(x);
    lemma_times_zero(y);
    lemma_times_zero(z);
    lemma_times_one(v.x);
    lemma_times_one(v.y);
    lemma_times_one(v.z);
    lemma_times_one(v.w);
    lemma_plus_zero(v.x);
    lemma_plus_zero(v.y);
    lemma_plus_zero(v.z);
    lemma_plus_zero(v.w);
}

/// Translating a point moves each coordinate by the translation's, and
/// keeps it a point.
pub proof fn lemma_translation_moves_points(x: Fixed, y: Fixed, z: Fixed, p: Tuple)
    requires
        p.w == Fixed::one_spec(),
        p.x.proper(),
        p.y.proper(),
        p.z.proper(),
        x.proper(),
        y.proper(),
        z.proper(),
    ensures
        translation_spec(x, y, z).apply(p) == Tuple::point_spec(
            p.x.plus(x),
            p.y.plus(y),
            p.z.plus(z),
        ),
{
    lemma_times_zero(p.x);
    lemma_times_zero(p.y);
    lemma_times_zero(p.z);
    lemma_times_one(p.x);
    lemma_times_one(p.y);
    lemma_times_one(p.z);
    lemma_times_one(p.w);
    lemma_times_one(x);
    lemma_times_one(y);
    lemma_times_one(z);
    lemma_plus_zero(p.x);
    lemma_plus_zero(p.y);
    lemma_plus_zero(p.z);
    lemma_plus_zero(p.w);
}

/// The product of two affine matrices is affine.
pub proof fn lemma_product_affine(a: Matrix<4>, b: Matrix<4>)
    requires
        a.affine(),
        b.affine(),
    ensures
        a.product(b).affine(),
{
    reveal(product_of);
    lemma_times_zero(b.at(0, 0));
    lemma_times_zero(b.at(1, 0));
    lemma_times_zero(b.at(2, 0));
    lemma_times_zero(b.at(0, 1));
    lemma_times_zero(b.at(1, 1));
    lemma_times_zero(b.at(2, 1));
    lemma_times_zero(b.at(0, 2));
    lemma_times_zero(b.at(1, 2));
    lemma_times_zero(b.at(2, 2));
    lemma_times_zero(b.at(0, 3));
    lemma_times_zero(b.at(1, 3));
    lemma_times_zero(b.at(2, 3));
    lemma_times_one(Fixed::zero_spec());
    lemma_times_one(Fixed::one_spec());
    lemma_plus_zero(Fixed::zero_spec());
    lemma_plus_zero(Fixed::one_spec());
    assert(a.product(b).at(3, 0) == a.cell(b, 3, 0));
    assert(a.product(b).at(3, 1) == a.cell(b, 3, 1));
    assert(a.product(b).at(3, 2) == a.cell(b, 3, 2));
    assert(a.product(b).at(3, 3) == a.cell(b, 3, 3));
}

/// A matrix whose sixteen entries lie in the symmetric range.
proof fn lemma_proper_by_entries(m: Matrix<4>)
    requires
        m.at(0, 0).proper() && m.at(0, 1).proper() && m.at(0, 2).proper() && m.at(0, 3).proper(),
        m.at(1, 0).proper() && m.at(1, 1).proper() && m.at(1, 2).proper() && m.at(1, 3).proper(),
        m.at(2, 0).proper() && m.at(2, 1).proper() && m.at(2, 2).proper() && m.at(2, 3).proper(),
        m.at(3, 0).proper() && m.at(3, 1).proper() && m.at(3, 2).proper() && m.at(3, 3).proper(),
    ensures
        m.proper(),
{
    assert forall|i: int, j: int| 0 <= i < 4 && 0 <= j < 4 implies (#[trigger] m.at(i, j)).proper() by {
        if i == 0 {
            assert(j == 0 || j == 1 || j == 2 || j == 3);
        } else if i == 1 {
            assert(j == 0 || j == 1 || j == 2 || j == 3);
        } else if i == 2 {
            assert(j == 0 || j == 1 || j == 2 || j == 3);
        } else {
            assert(i == 3);
            assert(j == 0 || j == 1 || j == 2 || j == 3);
        }
    }
}

/// Every entry of a product lies in the symmetric range.
pub proof fn lemma_product_proper(a: Matrix<4>, b: Matrix<4>)
    ensures
        a.product(b).proper(),
{
    reveal(product_of);
    let p = a.product(b);
    assert(p.at(0, 0) == a.cell(b, 0, 0));
    assert(p.at(0, 1) == a.cell(b, 0, 1));
    assert(p.at(0, 2) == a.cell(b, 0, 2));
    assert(p.at(0, 3) == a.cell(b, 0, 3));
    assert(p.at(1, 0) == a.cell(b, 1, 0));
    assert(p.at(1, 1) == a.cell(b, 1, 1));
    assert(p.at(1, 2) == a.cell(b, 1, 2));
    assert(p.at(1, 3) == a.cell(b, 1, 3));
    assert(p.at(2, 0) == a.cell(b, 2, 0));
    assert(p.at(2, 1) == a.cell(b, 2, 1));
    assert(p.at(2, 2) == a.cell(b, 2, 2));
    assert(p.at(2, 3) == a.cell(b, 2, 3));
    assert(p.at(3, 0) == a.cell(b, 3, 0));
    assert(p.at(3, 1) == a.cell(b, 3, 1));
    assert(p.at(3, 2) == a.cell(b, 3, 2));
    assert(p.at(3, 3) == a.cell(b, 3, 3));
    lemma_proper_by_entries(p);
}

/// Every entry of an inverse lies in the symmetric range.
pub proof fn lemma_inverse_proper(a: Matrix<4>)
    ensures
        a.inverted().proper(),
{
    reveal(inverse_of);
    let v = a.inverted();
    assert(v.at(0, 0) == a.inverse_entry(0, 0));
    assert(v.at(0, 1) == a.inverse_entry(0, 1));
    assert(v.at(0, 2) == a.inverse_entry(0, 2));
    assert(v.at(0, 3) == a.inverse_entry(0, 3));
    assert(v.at(1, 0) == a.inverse_entry(1, 0));
    assert(v.at(1, 1) == a.inverse_entry(1, 1));
    assert(v.at(1, 2) == a.inverse_entry(1, 2));
    assert(v.at(1, 3) == a.inverse_entry(1, 3));
    assert(v.at(2, 0) == a.inverse_entry(2, 0));
    assert(v.at(2, 1) == a.inverse_entry(2, 1));
    assert(v.at(2, 2) == a.inverse_entry(2, 2));
    assert(v.at(2, 3) == a.inverse_entry(2, 3));
    assert(v.at(3, 0) == a.inverse_entry(3, 0));
    assert(v.at(3, 1) == a.inverse_entry(3, 1));
    assert(v.at(3, 2) == a.inverse_entry(3, 2));
    assert(v.at(3, 3) == a.inverse_entry(3, 3));
    lemma_proper_by_entries(v);
}

/// The determinant of a translation is one.
proof fn lemma_translation_determinant(x: Fixed, y: Fixed, z: Fixed)
    ensures
        translation_spec(x, y, z).determinant_spec() == Fixed::one_spec(),
{
    let t = translation_spec(x, y, z);
    let o = Fixed::one_spec();
    let n = Fixed::zero_spec();
    reveal(determinant_of);
    reveal(cofactor_of);
    lemma_times_zero(o);
    lemma_times_zero(x);
    lemma_times_zero(y);
    lemma_times_zero(z);
    lemma_times_one(o);
    lemma_times_one(n);
    lemma_plus_zero(o);
    lemma_plus_zero(n);
    lemma_det3_unit_row(t.submatrix_spec(0, 0));
    lemma_det3_unit_row(t.submatrix_spec(0, 1));
    lemma_det3_unit_row(t.submatrix_spec(0, 2));
    lemma_det3_zero_row(t.submatrix_spec(0, 3));
    assert(t.minor_spec(0, 0) == o);
    assert(t.minor_spec(0, 1) == n);
    assert(t.minor_spec(0, 2) == n);
    assert(t.minor_spec(0, 3) == n);
}

/// The cofactors of a translation that make up the last column of its
/// inverse.
proof fn lemma_translation_cofactors(x: Fixed, y: Fixed, z: Fixed)
    requires
        x.proper(),
        y.proper(),
        z.proper(),
    ensures
        translation_spec(x, y, z).cofactor_spec(3, 0) == x.negated(),
        translation_spec(x, y, z).cofactor_spec(3, 1) == y.negated(),
        translation_spec(x, y, z).cofactor_spec(3, 2) == z.negated(),
{
    let t = translation_spec(x, y, z);
    let o = Fixed::one_spec();
    let n = Fixed::zero_spec();
    reveal(cofactor_of);
    lemma_times_zero(o);
    lemma_times_zero(n);
    lemma_times_zero(x);
    lemma_times_zero(y);
    lemma_times_zero(z);
    lemma_times_one(o);
    lemma_times_one(n);
    lemma_times_one(x);
    lemma_times_one(y);
    lemma_times_one(z);
    lemma_times_one(y.negated());
    lemma_plus_zero(o);
    lemma_plus_zero(n);
    lemma_plus_zero(x);
    lemma_plus_zero(y);
    lemma_plus_zero(z);
    lemma_plus_zero(y.negated());
    lemma_times_zero(y.negated());
    let s0 = t.submatrix_spec(3, 0);
    assert(s0.cofactor_spec(0, 2) == o);
    assert(s0.cofactor_spec(0, 0) == y.negated());
    assert(s0.determinant_spec() == x);
    let s1 = t.submatrix_spec(3, 1);
    assert(s1.cofactor_spec(0, 0) == n.minus(y));
    assert(s1.cofactor_spec(0, 2) == n);
    assert(s1.determinant_spec() == y.negated());
    let s2 = t.submatrix_spec(3, 2);
    assert(s2.cofactor_spec(0, 0) == z);
    assert(s2.determinant_spec() == z);
}

/// The cofactors of a translation in its upper left part.
proof fn lemma_translation_core(x: Fixed, y: Fixed, z: Fixed, i: int, j: int)
    requires
        0 <= i < 3,
        0 <= j < 3,
    ensures
        translation_spec(x, y, z).cofactor_spec(j, i) == (if i == j {
            Fixed::one_spec()
        } else {
            Fixed::zero_spec()
        }),
{
    let t = translation_spec(x, y, z);
    let o = Fixed::one_spec();
    let n = Fixed::zero_spec();
    reveal(cofactor_of);
    lemma_times_zero(o);
    lemma_times_zero(n);
    lemma_times_one(o);
    lemma_times_one(n);
    lemma_plus_zero(o);
    lemma_plus_zero(n);
    lemma_det3_unit_row(t.submatrix_spec(j, i));
}

/// The inverse of a translation is the translation back.
pub proof fn lemma_translation_inverse(x: Fixed, y: Fixed, z: Fixed)
    requires
        x.proper(),
        y.proper(),
        z.proper(),
    ensures
        translation_spec(x, y, z).invertible(),
        translation_spec(x, y, z).inverted() == translation_spec(
            x.negated(),
            y.negated(),
            z.negated(),
        ),
{
    let t = translation_spec(x, y, z);
    let back = translation_spec(x.negated(), y.negated(), z.negated());
    let o = Fixed::one_spec();
    let n = Fixed::zero_spec();
    lemma_translation_determinant(x, y, z);
    lemma_translation_cofactors(x, y, z);
    lemma_translation_core(x, y, z, 0, 0);
    lemma_translation_core(x, y, z, 0, 1);
    lemma_translation_core(x, y, z, 0, 2);
    lemma_translation_core(x, y, z, 1, 0);
    lemma_translation_core(x, y, z, 1, 1);
    lemma_translation_core(x, y, z, 1, 2);
    lemma_translation_core(x, y, z, 2, 0);
    lemma_translation_core(x, y, z, 2, 1);
    lemma_translation_core(x, y, z, 2, 2);
    assert(t.proper()) by {
        lemma_proper_by_entries(t);
    }
    lemma_inverse_affine(t);
    lemma_results_proper(x, x);
    lemma_results_proper(y, y);
    lemma_results_proper(z, z);
    lemma_over_one(o);
    lemma_over_one(n);
    lemma_over_one(x.negated());
    lemma_over_one(y.negated());
    lemma_over_one(z.negated());
    reveal(inverse_of);
    let v = t.inverted();
    assert(v.at(0, 0) == t.inverse_entry(0, 0));
    assert(v.at(0, 1) == t.inverse_entry(0, 1));
    assert(v.at(0, 2) == t.inverse_entry(0, 2));
    assert(v.at(0, 3) == t.inverse_entry(0, 3));
    assert(v.at(1, 0) == t.inverse_entry(1, 0));
    assert(v.at(1, 1) == t.inverse_entry(1, 1));
    assert(v.at(1, 2) == t.inverse_entry(1, 2));
    assert(v.at(1, 3) == t.inverse_entry(1, 3));
    assert(v.at(2, 0) == t.inverse_entry(2, 0));
    assert(v.at(2, 1) == t.inverse_entry(2, 1));
    assert(v.at(2, 2) == t.inverse_entry(2, 2));
    assert(v.at(2, 3) == t.inverse_entry(2, 3));
    assert(v.data[0] =~= back.data[0]);
    assert(v.data[1] =~= back.data[1]);
    assert(v.data[2] =~= back.data[2]);
    assert(v.data[3] =~= back.data[3]);
    assert(v.data =~= back.data);
}

/// Translating a point and then applying the inverse of the translation
/// gives the point back, where no coordinate leaves the range on the way.
pub proof fn lemma_translation_round_trip(x: Fixed, y: Fixed, z: Fixed, p: Tuple)
    requires
        x.proper(),
        y.proper(),
        z.proper(),
        p.w == Fixed::one_spec(),
        p.x.proper() && p.x.plus(x).raw == p.x.raw + x.raw,
        p.y.proper() && p.y.plus(y).raw == p.y.raw + y.raw,
        p.z.proper() && p.z.plus(z).raw == p.z.raw + z.raw,
    ensures
        translation_spec(x, y, z).inverted().apply(translation_spec(x, y, z).apply(p)) == p,
{
    lemma_translation_inverse(x, y, z);
    lemma_translation_moves_points(x, y, z, p);
    let q = translation_spec(x, y, z).apply(p);
    lemma_results_proper(p.x, x);
    lemma_results_proper(p.y, y);
    lemma_results_proper(p.z, z);
    lemma_results_proper(x, x);
    lemma_results_proper(y, y);
    lemma_results_proper(z, z);
    lemma_translation_moves_points(x.negated(), y.negated(), z.negated(), q);
}

/// A point taken through a usable transform and back through its inverse
/// is a point.
pub proof fn lemma_round_trip_is_point(m: Matrix<4>, p: Tuple)
    requires
        m.usable(),
        p.w == Fixed::one_spec(),
    ensures
        m.inverted().apply(m.apply(p)).w == Fixed::one_spec(),
{
    lemma_inverse_affine(m);
    lemma_affine_keeps_w(m, p);
    lemma_affine_keeps_w(m.inverted(), m.apply(p));
}

/// The determinant of a scaling is the product of its three factors.
pub proof fn lemma_scale_determinant(x: Fixed, y: Fixed, z: Fixed)
    requires
        x.proper(),
        y.proper(),
        z.proper(),
    ensures
        scale_spec(x, y, z).determinant_spec() == x.times(y.times(z)),
        scale_spec(x, y, z).affine(),
        scale_spec(x, y, z).proper(),
{
    let m = scale_spec(x, y, z);
    let o = Fixed::one_spec();
    let n = Fixed::zero_spec();
    lemma_proper_by_entries(m);
    lemma_det4_affine(m);
    let u = m.submatrix_spec(3, 3);
    lemma_times_zero(n);
    lemma_times_zero(x);
    lemma_times_zero(y);
    lemma_times_zero(z);
    lemma_results_proper(y, z);
    lemma_plus_zero(y.times(z));
    assert(u.cofactor_spec(0, 0) == y.times(z));
    lemma_results_proper(x, y.times(z));
    lemma_plus_zero(x.times(y.times(z)));
}

/// The identity can be used as a transform.
pub proof fn lemma_identity_usable()
    ensures
        Matrix::<4>::identity_spec().usable(),
{
    let o = Fixed::one_spec();
    lemma_scale_determinant(o, o, o);
    lemma_times_one(o);
    assert(Matrix::<4>::identity_spec().data[0] =~= scale_spec(o, o, o).data[0]);
    assert(Matrix::<4>::identity_spec().data[1] =~= scale_spec(o, o, o).data[1]);
    assert(Matrix::<4>::identity_spec().data[2] =~= scale_spec(o, o, o).data[2]);
    assert(Matrix::<4>::identity_spec().data[3] =~= scale_spec(o, o, o).data[3]);
    assert(Matrix::<4>::identity_spec().data =~= scale_spec(o, o, o).data);
}

} // verus!
