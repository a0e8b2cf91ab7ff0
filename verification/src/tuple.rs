//! Points and vectors in space.
//!
//! A `Tuple` with `w` equal to one is a point, one with `w` equal to zero
//! is a vector. Sums and differences act on all four components, so a
//! point minus a point is a vector and a point plus a vector is a point.
use crate::fixed::isqrt;
use crate::fixed::lemma_isqrt_exists;
use crate::fixed::lemma_plus_zero;
use crate::fixed::lemma_quotient_bounds;
use crate::fixed::lemma_square_le;
use crate::fixed::lemma_square_lt;
use crate::fixed::lemma_times_zero;
use crate::fixed::magnitude;
use crate::fixed::Fixed;
use crate::fixed::SCALE;
use vstd::prelude::*;
use vstd::std_specs::cmp::PartialEqSpecImpl;
use vstd::std_specs::ops::AddSpecImpl;
use vstd::std_specs::ops::MulSpecImpl;
use vstd::std_specs::ops::SubSpecImpl;

verus! {

/// Tolerance, in raw units, within which two components count as equal.
pub const TUPLE_EPSILON: i64 = 100_000;

#[derive(Clone, Copy, Debug)]
pub struct Tuple {
    pub x: Fixed,
    pub y: Fixed,
    pub z: Fixed,
    pub w: Fixed,
}

/// Whether two scalars are equal within the tuple tolerance.
pub open spec fn close(a: Fixed, b: Fixed) -> bool {
    a.near(b, Fixed { raw: TUPLE_EPSILON })
}

fn equal(a: Fixed, b: Fixed) -> (r: bool)
    ensures
        r == close(a, b),
{
    a.is_near(b, Fixed::from_raw(TUPLE_EPSILON))
}

impl Tuple {
    pub open spec fn point_spec(x: Fixed, y: Fixed, z: Fixed) -> Tuple {
        Tuple { x, y, z, w: Fixed::one_spec() }
    }

    pub open spec fn vector_spec(x: Fixed, y: Fixed, z: Fixed) -> Tuple {
        Tuple { x, y, z, w: Fixed::zero_spec() }
    }

    /// `w` is one, within tolerance.
    pub open spec fn is_point_spec(self) -> bool {
        close(self.w, Fixed::one_spec())
    }

    /// `w` is zero, within tolerance.
    pub open spec fn is_vector_spec(self) -> bool {
        close(self.w, Fixed::zero_spec())
    }

    /// Component-wise negation, `w` included.
    pub open spec fn negated(self) -> Tuple {
        Tuple {
            x: self.x.negated(),
            y: self.y.negated(),
            z: self.z.negated(),
            w: self.w.negated(),
        }
    }

    /// Component-wise sum, `w` included.
    pub open spec fn plus(self, o: Tuple) -> Tuple {
        Tuple {
            x: self.x.plus(o.x),
            y: self.y.plus(o.y),
            z: self.z.plus(o.z),
            w: self.w.plus(o.w),
        }
    }

    /// Component-wise difference, `w` included.
    pub open spec fn minus(self, o: Tuple) -> Tuple {
        Tuple {
            x: self.x.minus(o.x),
            y: self.y.minus(o.y),
            z: self.z.minus(o.z),
            w: self.w.minus(o.w),
        }
    }

    /// Every component multiplied by `k`.
    pub open spec fn scaled(self, k: Fixed) -> Tuple {
        Tuple { x: k.times(self.x), y: k.times(self.y), z: k.times(self.z), w: k.times(self.w) }
    }

    /// Euclidean norm of `(x, y, z)`, rounded down.
    pub open spec fn magnitude_spec(self) -> Fixed {
        Fixed::norm_spec(self.x, self.y, self.z)
    }

    /// The vector `(x, y, z)` divided by its norm.
    pub open spec fn normalised(self) -> Tuple {
        let mag = self.magnitude_spec();
        Tuple::vector_spec(self.x.over(mag), self.y.over(mag), self.z.over(mag))
    }

    /// Dot product over all four components.
    pub open spec fn dot_spec(self, o: Tuple) -> Fixed {
        self.x.times(o.x).plus(self.y.times(o.y)).plus(self.z.times(o.z)).plus(self.w.times(o.w))
    }

    /// Cross product of `(x, y, z)`, as a vector.
    pub open spec fn cross_spec(self, o: Tuple) -> Tuple {
        Tuple::vector_spec(
            self.y.times(o.z).minus(self.z.times(o.y)),
            self.z.times(o.x).minus(self.x.times(o.z)),
            self.x.times(o.y).minus(self.y.times(o.x)),
        )
    }

    /// `o` reflected about the normal `self`: `o - 2 * self * (o . self)`.
    pub open spec fn reflected(self, o: Tuple) -> Tuple {
        o.minus(self.scaled(Fixed::from_int_spec(2)).scaled(o.dot_spec(self)))
    }

    /// Equality within tolerance on every component.
    pub open spec fn approx(self, o: Tuple) -> bool {
        close(self.w, o.w) && close(self.x, o.x) && close(self.y, o.y) && close(self.z, o.z)
    }

    pub fn new(x: Fixed, y: Fixed, z: Fixed, w: Fixed) -> (r: Tuple)
        ensures
            r == (Tuple { x, y, z, w }),
    {
        Tuple { x, y, z, w }
    }

    pub fn point_new(x: Fixed, y: Fixed, z: Fixed) -> (r: Tuple)
        ensures
            r == Tuple::point_spec(x, y, z),
    {
        Tuple::new(x, y, z, Fixed::one())
    }

    pub fn vector_new(x: Fixed, y: Fixed, z: Fixed) -> (r: Tuple)
        ensures
            r == Tuple::vector_spec(x, y, z),
    {
        Tuple::new(x, y, z, Fixed::zero())
    }

    pub fn is_point(&self) -> (r: bool)
        ensures
            r == self.is_point_spec(),
    {
        equal(self.w, Fixed::one())
    }

    pub fn is_vector(&self) -> (r: bool)
        ensures
            r == self.is_vector_spec(),
    {
        equal(self.w, Fixed::zero())
    }

    pub fn negate(&self) -> (r: Tuple)
        ensures
            r == self.negated(),
    {
        Tuple::new(self.x.negate(), self.y.negate(), self.z.negate(), self.w.negate())
    }

    /// The length of `(x, y, z)`.
    pub fn magnitude(&self) -> (r: Fixed)
        ensures
            r == self.magnitude_spec(),
    {
        Fixed::norm(self.x, self.y, self.z)
    }

    /// The vector of length one in the direction of `(x, y, z)`.
    pub fn normalise(&self) -> (r: Tuple)
        ensures
            r == self.normalised(),
    {
        let mag = self.magnitude();
        Tuple::vector_new(self.x / mag, self.y / mag, self.z / mag)
    }

    /// The dot product of two vectors.
    pub fn dot(&self, other: &Tuple) -> (r: Fixed)
        requires
            self.is_vector_spec(),
            other.is_vector_spec(),
        ensures
            r == self.dot_spec(*other),
    {
        (self.x * other.x) + (self.y * other.y) + (self.z * other.z) + (self.w * other.w)
    }

    /// The cross product of two vectors.
    pub fn cross(&self, other: &Tuple) -> (r: Tuple)
        requires
            self.is_vector_spec(),
            other.is_vector_spec(),
        ensures
            r == self.cross_spec(*other),
    {
        Tuple::vector_new(
            self.y * other.z - self.z * other.y,
            self.z * other.x - self.x * other.z,
            self.x * other.y - self.y * other.x,
        )
    }

    pub fn vector_copy(&self) -> (r: Vec<Fixed>)
        ensures
            r@ == seq![self.x, self.y, self.z, self.w],
    {
        let mut out: Vec<Fixed> = Vec::new();
        out.push(self.x);
        out.push(self.y);
        out.push(self.z);
        out.push(self.w);
        assert(out@ =~= seq![self.x, self.y, self.z, self.w]);
        out
    }

    /// The vector `other` reflected about the normal `self`.
    pub fn reflect(&self, other: &Tuple) -> (r: Tuple)
        requires
            self.is_vector_spec(),
            other.is_vector_spec(),
        ensures
            r == self.reflected(*other),
    {
        *other - (*self * Fixed::from_int(2) * other.dot(self))
    }
}

impl PartialEq for Tuple {
    fn eq(&self, other: &Self) -> (r: bool) {
        equal(self.w, other.w) && equal(self.x, other.x) && equal(self.y, other.y) && equal(
            self.z,
            other.z,
        )
    }
}

impl PartialEqSpecImpl for Tuple {
    open spec fn obeys_eq_spec() -> bool {
        true
    }

    open spec fn eq_spec(&self, other: &Tuple) -> bool {
        self.approx(*other)
    }
}

impl core::ops::Add for Tuple {
    type Output = Tuple;

    fn add(self, other: Tuple) -> (r: Tuple) {
        Tuple {
            x: self.x + other.x,
            y: self.y + other.y,
            z: self.z + other.z,
            w: self.w + other.w,
        }
    }
}

impl AddSpecImpl for Tuple {
    open spec fn obeys_add_spec() -> bool {
        true
    }

    open spec fn add_req(self, other: Tuple) -> bool {
        true
    }

    open spec fn add_spec(self, other: Tuple) -> Tuple {
        self.plus(other)
    }
}

impl core::ops::Sub for Tuple {
    type Output = Tuple;

    fn sub(self, other: Tuple) -> (r: Tuple) {
        Tuple {
            x: self.x - other.x,
            y: self.y - other.y,
            z: self.z - other.z,
            w: self.w - other.w,
        }
    }
}

impl SubSpecImpl for Tuple {
    open spec fn obeys_sub_spec() -> bool {
        true
    }

    open spec fn sub_req(self, other: Tuple) -> bool {
        true
    }

    open spec fn sub_spec(self, other: Tuple) -> Tuple {
        self.minus(other)
    }
}

impl core::ops::Mul<Fixed> for Tuple {
    type Output = Tuple;

    fn mul(self, other: Fixed) -> (r: Tuple) {
        Tuple::new(other * self.x, other * self.y, other * self.z, other * self.w)
    }
}

impl MulSpecImpl<Fixed> for Tuple {
    open spec fn obeys_mul_spec() -> bool {
        true
    }

    open spec fn mul_req(self, other: Fixed) -> bool {
        true
    }

    open spec fn mul_spec(self, other: Fixed) -> Tuple {
        self.scaled(other)
    }
}

/// Reflecting a vector about a vector gives a vector.
pub proof fn lemma_reflected_is_vector(normal: Tuple, v: Tuple)
    requires
        normal.w == Fixed::zero_spec(),
        v.w == Fixed::zero_spec(),
    ensures
        normal.reflected(v).w == Fixed::zero_spec(),
{
    lemma_times_zero(Fixed::from_int_spec(2));
    lemma_times_zero(v.dot_spec(normal));
}

/// A point moved along a scaled vector stays a point.
pub proof fn lemma_offset_is_point(p: Tuple, v: Tuple, k: Fixed)
    requires
        p.w == Fixed::one_spec(),
        v.w == Fixed::zero_spec(),
    ensures
        p.plus(v.scaled(k)).w == Fixed::one_spec(),
        p.minus(v.scaled(k)).w == Fixed::one_spec(),
{
    lemma_times_zero(k);
    lemma_plus_zero(Fixed::one_spec());
}

/// A combination of two vectors is a vector.
pub proof fn lemma_combined_is_vector(a: Tuple, j: Fixed, b: Tuple, k: Fixed)
    requires
        a.w == Fixed::zero_spec(),
        b.w == Fixed::zero_spec(),
    ensures
        a.scaled(j).minus(b.scaled(k)).w == Fixed::zero_spec(),
{
    lemma_times_zero(j);
    lemma_times_zero(k);
}

/// One coordinate of a vector of magnitude `m` and its share `u` of the
/// normalised vector: `u` is `x` times the scale over `m`, rounded down.
proof fn lemma_unit_share(x: int, m: int, t: int) -> (u: int)
    requires
        0 <= x,
        1 <= m,
        x * x <= t,
        t < (m + 1) * (m + 1),
    ensures
        u == (x * 1_000_000_000) / m,
        0 <= u <= 1_000_000_000,
        (u * u) * (m * m) <= (x * x) * 1_000_000_000_000_000_000,
        (x * x) * 1_000_000_000_000_000_000 < (u * u + 2 * u + 1) * (m * m),
{
    let s = 1_000_000_000int;
    let u = (x * s) / m;
    assert(0 <= x * s) by (nonlinear_arith)
        requires
            0 <= x,
            s == 1_000_000_000,
    ;
    lemma_quotient_bounds(x * s, m);
    assert(x * s < (u + 1) * m) by (nonlinear_arith)
        requires
            x * s < u * m + m,
    ;
    assert(0 <= u * m) by (nonlinear_arith)
        requires
            0 <= u,
            0 <= m,
    ;
    lemma_square_le(u * m, x * s);
    assert((u * m) * (u * m) == (u * u) * (m * m)) by (nonlinear_arith);
    assert((x * s) * (x * s) == (x * x) * 1_000_000_000_000_000_000) by (nonlinear_arith)
        requires
            s == 1_000_000_000,
    ;
    lemma_square_lt(x * s, (u + 1) * m);
    assert(((u + 1) * m) * ((u + 1) * m) == (u * u + 2 * u + 1) * (m * m)) by (nonlinear_arith);
    // x is at most m, so u is at most the scale.
    if x >= m + 1 {
        lemma_square_le(m + 1, x);
    }
    assert(u * m <= s * m) by (nonlinear_arith)
        requires
            u * m <= x * s,
            x <= m,
            s == 1_000_000_000,
    ;
    assert(u <= s) by (nonlinear_arith)
        requires
            u * m <= s * m,
            0 < m,
    ;
    u
}

/// The magnitude `m2` of what the shares make up is above one by less
/// than the reciprocal of the magnitude `m`.
proof fn lemma_unit_upper(t: int, u: int, m: int, m2: int)
    requires
        1 <= m,
        0 <= u,
        u * (m * m) <= t * 1_000_000_000_000_000_000,
        t < (m + 1) * (m + 1),
        0 <= m2,
        m2 * m2 <= u,
    ensures
        (m2 - 1_000_000_000) * m < 1_000_000_000,
{
    let s = 1_000_000_000int;
    let a = m * m;
    let bound = (m + 1) * s;
    assert((m2 * m) * (m2 * m) == (m2 * m2) * a) by (nonlinear_arith)
        requires
            a == m * m,
    ;
    assert((m2 * m2) * a <= u * a) by (nonlinear_arith)
        requires
            m2 * m2 <= u,
            0 <= a,
            a == m * m,
    ;
    assert(bound * bound == ((m + 1) * (m + 1)) * 1_000_000_000_000_000_000) by (nonlinear_arith)
        requires
            bound == (m + 1) * s,
            s == 1_000_000_000,
    ;
    assert((m2 * m) * (m2 * m) < bound * bound);
    assert(0 <= m2 * m) by (nonlinear_arith)
        requires
            0 <= m2,
            0 <= m,
    ;
    if m2 * m >= bound {
        assert(0 <= bound) by (nonlinear_arith)
            requires
                bound == (m + 1) * s,
                1 <= m,
                s == 1_000_000_000,
        ;
        lemma_square_le(bound, m2 * m);
    }
    assert(m2 * m < (m + 1) * s);
    assert((m2 - s) * m < s) by (nonlinear_arith)
        requires
            m2 * m < (m + 1) * s,
    ;
}

/// The magnitude `m2` of what the shares make up is below one by three
/// raw units at most.
proof fn lemma_unit_lower(t: int, u: int, shares: int, m: int, m2: int)
    requires
        1 <= m,
        m * m <= t,
        t * 1_000_000_000_000_000_000 < (u + 2 * shares + 3) * (m * m),
        0 <= m2,
        shares <= 3 * m2,
        u < (m2 + 1) * (m2 + 1),
    ensures
        m2 >= 999_999_997,
{
    let s = 1_000_000_000int;
    let a = m * m;
    assert(0 < a) by (nonlinear_arith)
        requires
            a == m * m,
            1 <= m,
    ;
    assert(a * 1_000_000_000_000_000_000 <= t * 1_000_000_000_000_000_000);
    assert((u + 2 * shares + 3) * a <= (u + 6 * m2 + 3) * a) by (nonlinear_arith)
        requires
            shares <= 3 * m2,
            0 < a,
    ;
    assert(1_000_000_000_000_000_000 < u + 6 * m2 + 3) by (nonlinear_arith)
        requires
            a * 1_000_000_000_000_000_000 < (u + 6 * m2 + 3) * a,
            0 < a,
    ;
    assert((m2 + 1) * (m2 + 1) + 6 * m2 + 3 <= (m2 + 4) * (m2 + 4)) by (nonlinear_arith)
        requires
            0 <= m2,
    ;
    if m2 + 4 <= s {
        lemma_square_le(m2 + 4, s);
        assert(s * s == 1_000_000_000_000_000_000) by (nonlinear_arith)
            requires
                s == 1_000_000_000,
        ;
        assert(false);
    }
}

/// A share is no more than the magnitude of what the shares make up.
proof fn lemma_share_below_root(u: int, total: int, m2: int)
    requires
        0 <= u,
        u * u <= total,
        0 <= m2,
        total < (m2 + 1) * (m2 + 1),
    ensures
        u <= m2,
{
    if u >= m2 + 1 {
        lemma_square_le(m2 + 1, u);
    }
}

/// The magnitude of a normalised vector is one: no less than one less
/// three raw units, and above one by less than the reciprocal of the
/// vector's own magnitude, for every vector whose magnitude is not zero
/// and whose coordinates are at most five thousand million in size. So
/// for a vector of magnitude one or more it lies within three raw units
/// below one.
pub proof fn lemma_normalised_has_magnitude_one(v: Tuple)
    requires
        magnitude(v.x.raw as int) <= 5_000_000_000_000_000_000,
        magnitude(v.y.raw as int) <= 5_000_000_000_000_000_000,
        magnitude(v.z.raw as int) <= 5_000_000_000_000_000_000,
        v.magnitude_spec().raw >= 1,
    ensures
        SCALE - 3 <= v.normalised().magnitude_spec().raw,
        (v.normalised().magnitude_spec().raw - SCALE) * v.magnitude_spec().raw < SCALE,
        v.magnitude_spec().raw >= SCALE ==> v.normalised().magnitude_spec().raw <= SCALE,
{
    let s = 1_000_000_000int;
    let x = magnitude(v.x.raw as int);
    let y = magnitude(v.y.raw as int);
    let z = magnitude(v.z.raw as int);
    let t = x * x + y * y + z * z;
    assert(x * x == v.x.raw * v.x.raw) by (nonlinear_arith)
        requires
            x == v.x.raw || x == -v.x.raw,
    ;
    assert(y * y == v.y.raw * v.y.raw) by (nonlinear_arith)
        requires
            y == v.y.raw || y == -v.y.raw,
    ;
    assert(z * z == v.z.raw * v.z.raw) by (nonlinear_arith)
        requires
            z == v.z.raw || z == -v.z.raw,
    ;
    assert(0 <= x * x <= 25_000_000_000_000_000_000_000_000_000_000_000_000) by (nonlinear_arith)
        requires
            0 <= x <= 5_000_000_000_000_000_000,
    ;
    assert(0 <= y * y <= 25_000_000_000_000_000_000_000_000_000_000_000_000) by (nonlinear_arith)
        requires
            0 <= y <= 5_000_000_000_000_000_000,
    ;
    assert(0 <= z * z <= 25_000_000_000_000_000_000_000_000_000_000_000_000) by (nonlinear_arith)
        requires
            0 <= z <= 5_000_000_000_000_000_000,
    ;
    lemma_isqrt_exists(t);
    let m = isqrt(t);
    // The magnitude is in range, so it is the root itself.
    if m >= 9_000_000_000_000_000_000 {
        lemma_square_le(9_000_000_000_000_000_000, m);
        assert(9_000_000_000_000_000_000int * 9_000_000_000_000_000_000
            == 81_000_000_000_000_000_000_000_000_000_000_000_000) by (nonlinear_arith);
    }
    assert(v.magnitude_spec().raw == m);
    let ux = lemma_unit_share(x, m, t);
    let uy = lemma_unit_share(y, m, t);
    let uz = lemma_unit_share(z, m, t);
    let w = v.normalised();
    assert(magnitude(w.x.raw as int) == ux);
    assert(magnitude(w.y.raw as int) == uy);
    assert(magnitude(w.z.raw as int) == uz);
    let u = ux * ux + uy * uy + uz * uz;
    assert(ux * ux == w.x.raw * w.x.raw) by (nonlinear_arith)
        requires
            ux == w.x.raw || ux == -w.x.raw,
    ;
    assert(uy * uy == w.y.raw * w.y.raw) by (nonlinear_arith)
        requires
            uy == w.y.raw || uy == -w.y.raw,
    ;
    assert(uz * uz == w.z.raw * w.z.raw) by (nonlinear_arith)
        requires
            uz == w.z.raw || uz == -w.z.raw,
    ;
    assert(0 <= ux * ux <= 1_000_000_000_000_000_000) by (nonlinear_arith)
        requires
            0 <= ux <= 1_000_000_000,
    ;
    assert(0 <= uy * uy <= 1_000_000_000_000_000_000) by (nonlinear_arith)
        requires
            0 <= uy <= 1_000_000_000,
    ;
    assert(0 <= uz * uz <= 1_000_000_000_000_000_000) by (nonlinear_arith)
        requires
            0 <= uz <= 1_000_000_000,
    ;
    lemma_isqrt_exists(u);
    let m2 = isqrt(u);
    if m2 >= 2_000_000_000 {
        lemma_square_le(2_000_000_000, m2);
        assert(2_000_000_000int * 2_000_000_000 == 4_000_000_000_000_000_000) by (nonlinear_arith);
    }
    assert(w.magnitude_spec().raw == m2);
    let a = m * m;
    assert(u * a == (ux * ux) * a + (uy * uy) * a + (uz * uz) * a) by (nonlinear_arith)
        requires
            u == ux * ux + uy * uy + uz * uz,
    ;
    assert((u + 2 * (ux + uy + uz) + 3) * a == (ux * ux + 2 * ux + 1) * a + (uy * uy + 2 * uy + 1)
        * a + (uz * uz + 2 * uz + 1) * a) by (nonlinear_arith)
        requires
            u == ux * ux + uy * uy + uz * uz,
    ;
    lemma_share_below_root(ux, u, m2);
    lemma_share_below_root(uy, u, m2);
    lemma_share_below_root(uz, u, m2);
    lemma_unit_upper(t, u, m, m2);
    lemma_unit_lower(t, u, ux + uy + uz, m, m2);
    if m >= s {
        if m2 >= s + 1 {
            assert((m2 - s) * m >= s) by (nonlinear_arith)
                requires
                    m2 - s >= 1,
                    m >= s,
                    s >= 0,
            ;
        }
    }
}

} // verus!
