//! Real numbers as signed decimal fixed-point values.
//!
//! A `Fixed` holds a count of billionths in an `i64`. Every operation is
//! total: a result that would leave the representable range saturates at
//! the nearest bound, and products and quotients round toward zero. The
//! range is symmetric about zero, so that negation is exact on every
//! value an operation returns.
//!
//! The contracts state results over the raw values. A proof about given
//! numbers has to tell the verifier the product of the two magnitudes
//! that a multiplication or a division forms, as in
//! `assert(2_000_000_000int * 3_000_000_000 == 6_000_000_000_000_000_000)
//! by (nonlinear_arith);` for two times three.
use vstd::prelude::*;

verus! {

/// Number of raw units in the value one.
pub const SCALE: i64 = 1_000_000_000;

/// Largest raw value; the smallest that an operation returns is its negation.
pub const RAW_MAX: i64 = 0x7fff_ffff_ffff_ffff;

/// The nearest raw value to `v` within the symmetric range.
pub open spec fn clamp(v: int) -> int {
    if v > RAW_MAX {
        RAW_MAX as int
    } else if v < -RAW_MAX {
        -(RAW_MAX as int)
    } else {
        v
    }
}

/// Absolute value of an integer.
pub open spec fn magnitude(v: int) -> int {
    if v < 0 {
        -v
    } else {
        v
    }
}

/// `q` if `negative` is false, `-q` otherwise.
pub open spec fn signed(negative: bool, q: int) -> int {
    if negative {
        -q
    } else {
        q
    }
}

/// Raw product: the exact product of the two values, rounded toward zero
/// to a whole number of raw units, then saturated.
pub open spec fn times_raw(a: int, b: int) -> int {
    clamp(signed((a < 0) != (b < 0), (magnitude(a) * magnitude(b)) / (SCALE as int)))
}

/// Raw quotient: the exact quotient rounded toward zero and saturated.
/// Dividing by zero saturates in the direction of the dividend's sign
/// (and gives zero for zero over zero).
pub open spec fn over_raw(a: int, b: int) -> int {
    if b == 0 {
        if a > 0 {
            RAW_MAX as int
        } else if a < 0 {
            -(RAW_MAX as int)
        } else {
            0
        }
    } else {
        clamp(signed((a < 0) != (b < 0), (magnitude(a) * (SCALE as int)) / magnitude(b)))
    }
}

/// `r` is the integer square root of `n`.
pub open spec fn is_isqrt(n: int, r: int) -> bool {
    0 <= r && r * r <= n && n < (r + 1) * (r + 1)
}

/// The integer square root of a non-negative `n`: the largest `r` with
/// `r * r <= n`.
pub open spec fn isqrt(n: int) -> int {
    choose|r: int| is_isqrt(n, r)
}

/// Raw square root, rounded down; zero for a negative argument.
pub open spec fn root_raw(a: int) -> int {
    if a <= 0 {
        0
    } else {
        isqrt(a * (SCALE as int))
    }
}

/// Two integer square roots of the same number are the same.
pub proof fn lemma_isqrt_unique(n: int, a: int, b: int)
    requires
        is_isqrt(n, a),
        is_isqrt(n, b),
    ensures
        a == b,
{
    if a < b {
        assert((a + 1) * (a + 1) <= b * b) by (nonlinear_arith)
            requires
                0 <= a,
                a + 1 <= b,
        ;
    } else if b < a {
        assert((b + 1) * (b + 1) <= a * a) by (nonlinear_arith)
            requires
                0 <= b,
                b + 1 <= a,
        ;
    }
}

#[derive(Clone, Copy, Debug, PartialEq, Eq, Structural)]
pub struct Fixed {
    /// The value in billionths.
    pub raw: i64,
}

impl View for Fixed {
    type V = int;

    open spec fn view(&self) -> int {
        self.raw as int
    }
}

/// Magnitude of an `i64` as a `u128`.
fn abs_u128(v: i64) -> (r: u128)
    ensures
        r == magnitude(v as int),
        r <= 0x8000_0000_0000_0000,
{
    if v < 0 {
        (-(v as i128)) as u128
    } else {
        v as u128
    }
}

/// Applies a sign to a magnitude and saturates.
fn saturate(negative: bool, q: u128) -> (r: i64)
    ensures
        r == clamp(signed(negative, q as int)),
{
    if q > 0x7fff_ffff_ffff_ffff {
        if negative {
            -RAW_MAX
        } else {
            RAW_MAX
        }
    } else if negative {
        -(q as i64)
    } else {
        q as i64
    }
}

/// Saturates a wide signed value.
fn saturate_wide(v: i128) -> (r: i64)
    ensures
        r == clamp(v as int),
{
    if v > RAW_MAX as i128 {
        RAW_MAX
    } else if v < -(RAW_MAX as i128) {
        -RAW_MAX
    } else {
        v as i64
    }
}

/// Integer square root by bisection.
fn isqrt_u128(n: u128) -> (r: u128)
    ensures
        is_isqrt(n as int, r as int),
        r == isqrt(n as int),
        r <= 0xffff_ffff_ffff_ffff,
{
    let top: u128 = 0xffff_ffff_ffff_ffff;
    assert(0xffff_ffff_ffff_ffffu128 * 0xffff_ffff_ffff_ffffu128
        == 0xffff_ffff_ffff_fffe_0000_0000_0000_0001u128) by (nonlinear_arith);
    assert(0x1_0000_0000_0000_0000int * 0x1_0000_0000_0000_0000int
        == 0x1_0000_0000_0000_0000_0000_0000_0000_0000int) by (nonlinear_arith);
    if n >= top * top {
        proof {
            assert(is_isqrt(n as int, top as int));
            lemma_isqrt_unique(n as int, top as int, isqrt(n as int));
        }
        return top;
    }
    let mut lo: u128 = 0;
    let mut hi: u128 = top;
    while hi - lo > 1
        invariant
            lo < hi <= 0xffff_ffff_ffff_ffff,
            lo * lo <= n,
            n < hi * hi,
        decreases hi - lo,
    {
        let mid: u128 = lo + (hi - lo) / 2;
        assert(mid * mid <= 0xffff_ffff_ffff_ffff * 0xffff_ffff_ffff_ffff) by (nonlinear_arith)
            requires
                mid <= 0xffff_ffff_ffff_ffff,
        ;
        if mid * mid <= n {
            lo = mid;
        } else {
            hi = mid;
        }
    }
    proof {
        assert(hi == lo + 1);
        assert(is_isqrt(n as int, lo as int));
        lemma_isqrt_unique(n as int, lo as int, isqrt(n as int));
    }
    lo
}

impl Fixed {
    /// The value zero.
    pub open spec fn zero_spec() -> Fixed {
        Fixed { raw: 0 }
    }

    /// The value one.
    pub open spec fn one_spec() -> Fixed {
        Fixed { raw: SCALE }
    }

    /// The whole number `i`, saturated.
    pub open spec fn from_int_spec(i: int) -> Fixed {
        Fixed { raw: clamp(i * SCALE) as i64 }
    }

    /// Saturating sum.
    pub open spec fn plus(self, o: Fixed) -> Fixed {
        Fixed { raw: clamp(self.raw + o.raw) as i64 }
    }

    /// Saturating difference.
    pub open spec fn minus(self, o: Fixed) -> Fixed {
        Fixed { raw: clamp(self.raw - o.raw) as i64 }
    }

    /// Saturating negation.
    pub open spec fn negated(self) -> Fixed {
        Fixed { raw: clamp(-self.raw) as i64 }
    }

    /// Saturating product, rounded toward zero.
    pub open spec fn times(self, o: Fixed) -> Fixed {
        Fixed { raw: times_raw(self.raw as int, o.raw as int) as i64 }
    }

    /// Saturating quotient, rounded toward zero.
    pub open spec fn over(self, o: Fixed) -> Fixed {
        Fixed { raw: over_raw(self.raw as int, o.raw as int) as i64 }
    }

    /// Square root, rounded down; zero below zero.
    pub open spec fn root(self) -> Fixed {
        Fixed { raw: root_raw(self.raw as int) as i64 }
    }

    /// The length of the vector with the coordinates `x`, `y` and `z`:
    /// the square root of the sum of their squares, rounded down to a
    /// whole number of raw units, and saturated. The squares and their
    /// sum are exact.
    pub open spec fn norm_spec(x: Fixed, y: Fixed, z: Fixed) -> Fixed {
        Fixed { raw: clamp(isqrt(x.raw * x.raw + y.raw * y.raw + z.raw * z.raw)) as i64 }
    }

    /// Absolute value, saturated.
    pub open spec fn abs_spec(self) -> Fixed {
        Fixed { raw: clamp(magnitude(self.raw as int)) as i64 }
    }

    /// `self` multiplied by itself `n` times, starting from one and
    /// rounding after every product.
    pub open spec fn power(self, n: nat) -> Fixed
        decreases n,
    {
        if n == 0 {
            Fixed::one_spec()
        } else {
            self.power((n - 1) as nat).times(self)
        }
    }

    /// The largest whole number not above the value.
    pub open spec fn floor_spec(self) -> int {
        self.raw as int / SCALE as int
    }

    /// The whole part of the value, rounding toward zero.
    pub open spec fn trunc_spec(self) -> int {
        signed(self.raw < 0, magnitude(self.raw as int) / (SCALE as int))
    }

    /// Whether the value lies in the symmetric range, as every result of
    /// an operation does.
    pub open spec fn proper(self) -> bool {
        self.raw > i64::MIN
    }

    /// Whether the two values differ by at most `eps`.
    pub open spec fn near(self, o: Fixed, eps: Fixed) -> bool {
        magnitude(self.raw - o.raw) <= eps.raw
    }

    /// The value with the given sign and the given magnitude in raw
    /// units, saturated.
    pub fn from_magnitude(negative: bool, magnitude: u128) -> (r: Fixed)
        ensures
            r.raw == clamp(signed(negative, magnitude as int)),
    {
        Fixed { raw: saturate(negative, magnitude) }
    }

    pub fn from_raw(raw: i64) -> (r: Fixed)
        ensures
            r.raw == raw,
    {
        Fixed { raw }
    }

    pub fn zero() -> (r: Fixed)
        ensures
            r == Fixed::zero_spec(),
    {
        Fixed { raw: 0 }
    }

    pub fn one() -> (r: Fixed)
        ensures
            r == Fixed::one_spec(),
    {
        Fixed { raw: SCALE }
    }

    pub fn from_int(i: i64) -> (r: Fixed)
        ensures
            r == Fixed::from_int_spec(i as int),
    {
        let p: i128 = i as i128 * 1_000_000_000;
        Fixed { raw: saturate_wide(p) }
    }

    /// The whole number `n`, saturated.
    pub fn from_usize(n: usize) -> (r: Fixed)
        ensures
            r == Fixed::from_int_spec(n as int),
    {
        let wide: u128 = n as u128;
        if wide > 9_223_372_036 {
            Fixed { raw: RAW_MAX }
        } else {
            Fixed { raw: (wide as i64) * SCALE }
        }
    }

    pub fn norm(x: Fixed, y: Fixed, z: Fixed) -> (r: Fixed)
        ensures
            r == Fixed::norm_spec(x, y, z),
    {
        let a: u128 = abs_u128(x.raw);
        let b: u128 = abs_u128(y.raw);
        let c: u128 = abs_u128(z.raw);
        assert(a * a <= 0x8000_0000_0000_0000 * 0x8000_0000_0000_0000) by (nonlinear_arith)
            requires
                a <= 0x8000_0000_0000_0000,
        ;
        assert(b * b <= 0x8000_0000_0000_0000 * 0x8000_0000_0000_0000) by (nonlinear_arith)
            requires
                b <= 0x8000_0000_0000_0000,
        ;
        assert(c * c <= 0x8000_0000_0000_0000 * 0x8000_0000_0000_0000) by (nonlinear_arith)
            requires
                c <= 0x8000_0000_0000_0000,
        ;
        assert(a * a == x.raw * x.raw) by (nonlinear_arith)
            requires
                a == x.raw || a == -x.raw,
        ;
        assert(b * b == y.raw * y.raw) by (nonlinear_arith)
            requires
                b == y.raw || b == -y.raw,
        ;
        assert(c * c == z.raw * z.raw) by (nonlinear_arith)
            requires
                c == z.raw || c == -z.raw,
        ;
        let r = isqrt_u128(a * a + b * b + c * c);
        Fixed { raw: saturate(false, r) }
    }

    pub fn sqrt(self) -> (r: Fixed)
        ensures
            r == self.root(),
    {
        if self.raw <= 0 {
            Fixed { raw: 0 }
        } else {
            let n: u128 = (self.raw as u128) * (SCALE as u128);
            let r = isqrt_u128(n);
            Fixed { raw: r as i64 }
        }
    }

    pub fn negate(self) -> (r: Fixed)
        ensures
            r == self.negated(),
    {
        if self.raw == i64::MIN {
            Fixed { raw: RAW_MAX }
        } else {
            Fixed { raw: -self.raw }
        }
    }

    pub fn abs(self) -> (r: Fixed)
        ensures
            r == self.abs_spec(),
    {
        if self.raw == i64::MIN {
            Fixed { raw: RAW_MAX }
        } else if self.raw < 0 {
            Fixed { raw: -self.raw }
        } else {
            self
        }
    }

    pub fn powi(self, n: u32) -> (r: Fixed)
        ensures
            r == self.power(n as nat),
    {
        let mut acc = Fixed::one();
        let mut i: u32 = 0;
        while i < n
            invariant
                i <= n,
                acc == self.power(i as nat),
            decreases n - i,
        {
            acc = acc * self;
            i = i + 1;
        }
        acc
    }

    pub fn floor(self) -> (r: i64)
        ensures
            r == self.floor_spec(),
    {
        if self.raw >= 0 {
            self.raw / SCALE
        } else {
            let m: u128 = abs_u128(self.raw);
            let q: u128 = (m + (SCALE as u128 - 1)) / (SCALE as u128);
            assert(-(q as int) == (self.raw as int) / (SCALE as int)) by (nonlinear_arith)
                requires
                    m == -(self.raw as int),
                    m > 0,
                    q == (m + (SCALE as int - 1)) / (SCALE as int),
                    SCALE == 1_000_000_000,
            ;
            -(q as i64)
        }
    }

    pub fn trunc(self) -> (r: i64)
        ensures
            r == self.trunc_spec(),
    {
        let m: u128 = abs_u128(self.raw);
        let q: u128 = m / (SCALE as u128);
        assert(q <= m) by (nonlinear_arith)
            requires
                q == m / 1_000_000_000,
        ;
        if self.raw < 0 {
            -(q as i64)
        } else {
            q as i64
        }
    }

    /// Exact comparison with zero.
    pub fn is_zero(self) -> (r: bool)
        ensures
            r == (self.raw == 0),
    {
        self.raw == 0
    }

    pub fn is_near(self, o: Fixed, eps: Fixed) -> (r: bool)
        ensures
            r == self.near(o, eps),
    {
        let d: i128 = self.raw as i128 - o.raw as i128;
        if d < 0 {
            -d <= eps.raw as i128
        } else {
            d <= eps.raw as i128
        }
    }
}

impl core::ops::Add for Fixed {
    type Output = Fixed;

    fn add(self, rhs: Fixed) -> (r: Fixed) {
        let s: i128 = self.raw as i128 + rhs.raw as i128;
        Fixed { raw: saturate_wide(s) }
    }
}

impl vstd::std_specs::ops::AddSpecImpl for Fixed {
    open spec fn obeys_add_spec() -> bool {
        true
    }

    open spec fn add_req(self, rhs: Fixed) -> bool {
        true
    }

    open spec fn add_spec(self, rhs: Fixed) -> Fixed {
        self.plus(rhs)
    }
}

impl core::ops::Sub for Fixed {
    type Output = Fixed;

    fn sub(self, rhs: Fixed) -> (r: Fixed) {
        let s: i128 = self.raw as i128 - rhs.raw as i128;
        Fixed { raw: saturate_wide(s) }
    }
}

impl vstd::std_specs::ops::SubSpecImpl for Fixed {
    open spec fn obeys_sub_spec() -> bool {
        true
    }

    open spec fn sub_req(self, rhs: Fixed) -> bool {
        true
    }

    open spec fn sub_spec(self, rhs: Fixed) -> Fixed {
        self.minus(rhs)
    }
}

impl core::ops::Neg for Fixed {
    type Output = Fixed;

    fn neg(self) -> (r: Fixed) {
        self.negate()
    }
}

impl vstd::std_specs::ops::NegSpecImpl for Fixed {
    open spec fn obeys_neg_spec() -> bool {
        true
    }

    open spec fn neg_req(self) -> bool {
        true
    }

    open spec fn neg_spec(self) -> Fixed {
        self.negated()
    }
}

impl core::ops::Mul for Fixed {
    type Output = Fixed;

    fn mul(self, rhs: Fixed) -> (r: Fixed) {
        let a: u128 = abs_u128(self.raw);
        let b: u128 = abs_u128(rhs.raw);
        assert(a * b <= 0x8000_0000_0000_0000 * 0x8000_0000_0000_0000) by (nonlinear_arith)
            requires
                a <= 0x8000_0000_0000_0000,
                b <= 0x8000_0000_0000_0000,
        ;
        let q: u128 = (a * b) / (SCALE as u128);
        Fixed { raw: saturate((self.raw < 0) != (rhs.raw < 0), q) }
    }
}

impl vstd::std_specs::ops::MulSpecImpl for Fixed {
    open spec fn obeys_mul_spec() -> bool {
        true
    }

    open spec fn mul_req(self, rhs: Fixed) -> bool {
        true
    }

    open spec fn mul_spec(self, rhs: Fixed) -> Fixed {
        self.times(rhs)
    }
}

impl core::ops::Div for Fixed {
    type Output = Fixed;

    fn div(self, rhs: Fixed) -> (r: Fixed) {
        if rhs.raw == 0 {
            if self.raw > 0 {
                Fixed { raw: RAW_MAX }
            } else if self.raw < 0 {
                Fixed { raw: -RAW_MAX }
            } else {
                Fixed { raw: 0 }
            }
        } else {
            let a: u128 = abs_u128(self.raw);
            let b: u128 = abs_u128(rhs.raw);
            assert(a * 1_000_000_000 <= 0x8000_0000_0000_0000 * 1_000_000_000) by (nonlinear_arith)
                requires
                    a <= 0x8000_0000_0000_0000,
            ;
            let q: u128 = (a * (SCALE as u128)) / b;
            Fixed { raw: saturate((self.raw < 0) != (rhs.raw < 0), q) }
        }
    }
}

impl vstd::std_specs::ops::DivSpecImpl for Fixed {
    open spec fn obeys_div_spec() -> bool {
        true
    }

    open spec fn div_req(self, rhs: Fixed) -> bool {
        true
    }

    open spec fn div_spec(self, rhs: Fixed) -> Fixed {
        self.over(rhs)
    }
}

/// Raw value of pi.
pub const PI_RAW: i64 = 3_141_592_654;

/// Raw value of half of pi.
pub const HALF_PI_RAW: i64 = 1_570_796_327;

/// Raw value of twice pi.
pub const TWO_PI_RAW: i64 = 6_283_185_307;

/// One step of the nested form of the sine series:
/// `1 - x2 * t / d`, on raw values.
pub open spec fn series_step(x2: int, t: int, d: int) -> int {
    SCALE - ((x2 * t) / (SCALE as int)) / d
}

/// Raw sine of a raw angle `m` in the first quadrant, by the odd
/// polynomial of degree fifteen in nested form:
/// `m (1 - m^2/6 (1 - m^2/20 (1 - m^2/42 ( ... (1 - m^2/210)))))`,
/// and no more than one.
pub open spec fn sine_series(m: int) -> int {
    let x2 = (m * m) / (SCALE as int);
    let t7 = series_step(x2, SCALE as int, 210);
    let t6 = series_step(x2, t7, 156);
    let t5 = series_step(x2, t6, 110);
    let t4 = series_step(x2, t5, 72);
    let t3 = series_step(x2, t4, 42);
    let t2 = series_step(x2, t3, 20);
    let t1 = series_step(x2, t2, 6);
    let s = (m * t1) / (SCALE as int);
    if s > SCALE {
        SCALE as int
    } else {
        s
    }
}

/// Raw sine of any raw angle: the angle's magnitude is reduced modulo
/// twice pi, folded into the first quadrant, and the series applied.
pub open spec fn sine_raw(a: int) -> int {
    let m0 = magnitude(a) % (TWO_PI_RAW as int);
    let upper = m0 > PI_RAW;
    let m1 = if upper {
        m0 - PI_RAW
    } else {
        m0
    };
    let m2 = if m1 > HALF_PI_RAW {
        PI_RAW - m1
    } else {
        m1
    };
    signed((a < 0) != upper, sine_series(m2))
}

fn series_step_exec(x2: u128, t: u128, d: u128) -> (r: u128)
    requires
        x2 <= 2_500_000_000,
        t <= 1_000_000_000,
        6 <= d <= 210,
    ensures
        r == series_step(x2 as int, t as int, d as int),
        r <= 1_000_000_000,
{
    assert(x2 * t <= 2_500_000_000 * 1_000_000_000) by (nonlinear_arith)
        requires
            x2 <= 2_500_000_000,
            t <= 1_000_000_000,
    ;
    let p: u128 = (x2 * t) / 1_000_000_000;
    let q: u128 = p / d;
    assert(q <= p / 6) by (nonlinear_arith)
        requires
            q == p / d,
            6 <= d,
    ;
    1_000_000_000 - q
}

fn sine_series_exec(m: u128) -> (r: u128)
    requires
        m <= 1_570_796_327,
    ensures
        r == sine_series(m as int),
        r <= 1_000_000_000,
{
    assert(m * m <= 1_570_796_327 * 1_570_796_327) by (nonlinear_arith)
        requires
            m <= 1_570_796_327,
    ;
    let x2: u128 = (m * m) / 1_000_000_000;
    let t7 = series_step_exec(x2, 1_000_000_000, 210);
    let t6 = series_step_exec(x2, t7, 156);
    let t5 = series_step_exec(x2, t6, 110);
    let t4 = series_step_exec(x2, t5, 72);
    let t3 = series_step_exec(x2, t4, 42);
    let t2 = series_step_exec(x2, t3, 20);
    let t1 = series_step_exec(x2, t2, 6);
    assert(m * t1 <= m * 1_000_000_000) by (nonlinear_arith)
        requires
            t1 <= 1_000_000_000,
    ;
    let s: u128 = (m * t1) / 1_000_000_000;
    if s > 1_000_000_000 {
        1_000_000_000
    } else {
        s
    }
}

impl Fixed {
    /// Sine of the value read as radians.
    pub open spec fn sine(self) -> Fixed {
        Fixed { raw: sine_raw(self.raw as int) as i64 }
    }

    /// Cosine of the value read as radians: the sine a quarter turn on.
    pub open spec fn cosine(self) -> Fixed {
        self.plus(Fixed { raw: HALF_PI_RAW }).sine()
    }

    /// Tangent of the value read as radians: sine over cosine.
    pub open spec fn tangent(self) -> Fixed {
        self.sine().over(self.cosine())
    }

    pub fn sin(self) -> (r: Fixed)
        ensures
            r == self.sine(),
    {
        let m0: u128 = abs_u128(self.raw) % (TWO_PI_RAW as u128);
        let upper = m0 > PI_RAW as u128;
        let m1: u128 = if upper {
            m0 - PI_RAW as u128
        } else {
            m0
        };
        let m2: u128 = if m1 > HALF_PI_RAW as u128 {
            PI_RAW as u128 - m1
        } else {
            m1
        };
        let s: u128 = sine_series_exec(m2);
        if (self.raw < 0) != upper {
            Fixed { raw: -(s as i64) }
        } else {
            Fixed { raw: s as i64 }
        }
    }

    pub fn cos(self) -> (r: Fixed)
        ensures
            r == self.cosine(),
    {
        (self + Fixed { raw: HALF_PI_RAW }).sin()
    }

    pub fn tan(self) -> (r: Fixed)
        ensures
            r == self.tangent(),
    {
        self.sin() / self.cos()
    }

    /// Whether the two values differ by less than `eps`.
    pub open spec fn within(self, o: Fixed, eps: Fixed) -> bool {
        magnitude(self.raw - o.raw) < eps.raw
    }

    pub fn is_within(self, o: Fixed, eps: Fixed) -> (r: bool)
        ensures
            r == self.within(o, eps),
    {
        let d: i128 = self.raw as i128 - o.raw as i128;
        if d < 0 {
            -d < eps.raw as i128
        } else {
            d < eps.raw as i128
        }
    }
}

/// Multiplying by zero gives zero, whatever the other factor.
pub proof fn lemma_times_zero(a: Fixed)
    ensures
        a.times(Fixed::zero_spec()) == Fixed::zero_spec(),
        Fixed::zero_spec().times(a) == Fixed::zero_spec(),
{
    assert(magnitude(a.raw as int) * 0 == 0);
    assert(0 * magnitude(a.raw as int) == 0);
}

/// Multiplying a value of the symmetric range by one leaves it unchanged.
pub proof fn lemma_times_one(a: Fixed)
    requires
        a.proper(),
    ensures
        a.times(Fixed::one_spec()) == a,
        Fixed::one_spec().times(a) == a,
{
    let m = magnitude(a.raw as int);
    assert(m * 1_000_000_000 == 1_000_000_000 * m);
    assert((m * 1_000_000_000) / 1_000_000_000 == m);
}

/// Adding zero to, or taking zero from, a value of the symmetric range
/// leaves it unchanged.
pub proof fn lemma_plus_zero(a: Fixed)
    requires
        a.proper(),
    ensures
        a.plus(Fixed::zero_spec()) == a,
        Fixed::zero_spec().plus(a) == a,
        a.minus(Fixed::zero_spec()) == a,
{
}

/// A product with a negated factor is the negated product.
pub proof fn lemma_times_negated(a: Fixed, b: Fixed)
    requires
        b.proper(),
    ensures
        a.times(b.negated()) == a.times(b).negated(),
{
    let ma = magnitude(a.raw as int);
    let mb = magnitude(b.raw as int);
    assert(magnitude(b.negated().raw as int) == mb);
    let q = (ma * mb) / (SCALE as int);
    assert(0 <= ma * mb) by (nonlinear_arith)
        requires
            0 <= ma,
            0 <= mb,
    ;
    assert(0 <= q);
    if b.raw == 0 {
        assert(ma * mb == 0) by (nonlinear_arith)
            requires
                mb == 0,
        ;
    }
}

/// Adding a negated value is subtracting the value.
pub proof fn lemma_plus_negated(a: Fixed, p: Fixed)
    requires
        p.proper(),
    ensures
        a.plus(p.negated()) == a.minus(p),
{
}

/// A value other than zero, divided by itself, is one.
pub proof fn lemma_over_self(a: Fixed)
    requires
        a.raw != 0,
    ensures
        a.over(a) == Fixed::one_spec(),
{
    let m = magnitude(a.raw as int);
    assert((m * 1_000_000_000) / m == 1_000_000_000) by (nonlinear_arith)
        requires
            m > 0,
    ;
}

/// A value of the symmetric range, divided by one, is unchanged.
pub proof fn lemma_over_one(a: Fixed)
    requires
        a.proper(),
    ensures
        a.over(Fixed::one_spec()) == a,
{
    let m = magnitude(a.raw as int);
    assert((m * 1_000_000_000) / 1_000_000_000 == m);
}

/// Zero divided by anything is zero.
pub proof fn lemma_zero_over(b: Fixed)
    ensures
        Fixed::zero_spec().over(b) == Fixed::zero_spec(),
{
    if b.raw != 0 {
        let m = magnitude(b.raw as int);
        assert((0int * 1_000_000_000) / m == 0) by (nonlinear_arith)
            requires
                m > 0,
        ;
    }
}

/// Every result of an arithmetic operation lies in the symmetric range.
pub proof fn lemma_results_proper(a: Fixed, b: Fixed)
    ensures
        a.plus(b).proper(),
        a.minus(b).proper(),
        a.times(b).proper(),
        a.over(b).proper(),
        a.negated().proper(),
{
}

/// Every number that is not negative has an integer square root.
pub proof fn lemma_isqrt_exists(n: int)
    requires
        0 <= n,
    ensures
        is_isqrt(n, isqrt(n)),
    decreases n,
{
    if n == 0 {
        assert(is_isqrt(0, 0));
    } else {
        lemma_isqrt_exists(n - 1);
        let r = isqrt(n - 1);
        assert((r + 2) * (r + 2) > (r + 1) * (r + 1)) by (nonlinear_arith)
            requires
                0 <= r,
        ;
        if (r + 1) * (r + 1) <= n {
            assert(is_isqrt(n, r + 1));
        } else {
            assert(is_isqrt(n, r));
        }
    }
}

/// Squares keep the order of numbers that are not negative.
pub proof fn lemma_square_le(a: int, b: int)
    requires
        0 <= a <= b,
    ensures
        a * a <= b * b,
{
    assert(a * a <= b * b) by (nonlinear_arith)
        requires
            0 <= a <= b,
    ;
}

/// Squares keep the strict order of numbers that are not negative.
pub proof fn lemma_square_lt(a: int, b: int)
    requires
        0 <= a < b,
    ensures
        a * a < b * b,
{
    assert(a * a < b * b) by (nonlinear_arith)
        requires
            0 <= a < b,
    ;
}

/// A quotient times its divisor is the dividend less the remainder.
pub proof fn lemma_quotient_bounds(n: int, d: int)
    requires
        0 <= n,
        0 < d,
    ensures
        0 <= n / d,
        (n / d) * d <= n,
        n < (n / d) * d + d,
{
    vstd::arithmetic::div_mod::lemma_fundamental_div_mod(n, d);
    vstd::arithmetic::div_mod::lemma_mod_pos_bound(n, d);
    vstd::arithmetic::div_mod::lemma_div_pos_is_pos(n, d);
    assert((n / d) * d == d * (n / d)) by (nonlinear_arith);
}

} // verus!
