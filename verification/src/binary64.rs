//! Numbers in IEEE 754 binary64 encoding, with verified arithmetic.
//!
//! A number is held by its 64 bits: one sign bit above 63 magnitude bits. The
//! magnitudes of finite numbers count up in the order of the values that they
//! encode, so the whole encoding is described by one function on natural
//! numbers, [`magnitude_value`], in units of the smallest positive number
//! (2 to the power -1074).
use vstd::arithmetic::power2::*;
use vstd::prelude::*;

verus! {

/// 2 to the power 52: the number of magnitudes that share an exponent.
pub const BINADE: u64 = 0x0010_0000_0000_0000;

/// The sign bit.
pub const SIGN_BIT: u64 = 0x8000_0000_0000_0000;

/// The magnitude of infinity. Larger magnitudes encode NaN.
pub const INFINITE_MAGNITUDE: u64 = 0x7FF0_0000_0000_0000;

/// The bits of the NaN that the arithmetic returns.
pub const QUIET_NAN: u64 = 0x7FF8_0000_0000_0000;

/// The exponent of the unit in which finite values are counted.
pub const UNIT_EXPONENT: u64 = 1074;

/// The value that a magnitude encodes, in units of 2 to the power -1074. The
/// formula goes on above the largest finite magnitude, which is what rounding
/// towards infinity is measured against.
pub open spec fn magnitude_value(mag: nat) -> nat {
    let e: nat = mag / 0x10_0000_0000_0000;
    let f: nat = mag % 0x10_0000_0000_0000;
    if e == 0 {
        f
    } else {
        (0x10_0000_0000_0000 + f) * pow2((e - 1) as nat)
    }
}

/// `mag` is the magnitude nearest to `n / d` units; of two that are equally
/// near, the even one.
pub open spec fn nearest_even(mag: nat, n: nat, d: nat) -> bool {
    &&& mag <= INFINITE_MAGNITUDE
    &&& mag > 0 ==> {
        let below = (magnitude_value((mag - 1) as nat) + magnitude_value(mag)) * d;
        below < 2 * n || (below == 2 * n && mag % 2 == 0)
    }
    &&& mag < INFINITE_MAGNITUDE ==> {
        let above = (magnitude_value(mag) + magnitude_value(mag + 1)) * d;
        2 * n < above || (2 * n == above && mag % 2 == 0)
    }
}

/// The magnitude to which `n / d` units round.
pub open spec fn rounded(n: nat, d: nat) -> nat {
    choose|mag: nat| nearest_even(mag, n, d)
}

/// A mantissa and an exponent that encode as `e * BINADE + m`.
pub open spec fn canonical(m: nat, e: nat) -> bool {
    m < 0x20_0000_0000_0000 && (e == 0 || m >= 0x10_0000_0000_0000)
}

/// A canonical mantissa and exponent encode the value `m * 2^e`, and the next
/// magnitude the value `(m + 1) * 2^e`.
pub proof fn lemma_canonical_value(m: nat, e: nat)
    requires
        canonical(m, e),
    ensures
        magnitude_value(e * 0x10_0000_0000_0000 + m) == m * pow2(e),
        magnitude_value(e * 0x10_0000_0000_0000 + m + 1) == (m + 1) * pow2(e),
{
    broadcast use lemma_pow2_pos;
    lemma2_to64();
    let b: nat = 0x10_0000_0000_0000;
    let mag = e * b + m;
    if m >= b {
        let f = (m - b) as nat;
        assert(mag == (e + 1) * b + f);
        assert(mag / b == e + 1 && mag % b == f);
        if f + 1 == b {
            assert((mag + 1) / b == e + 2 && (mag + 1) % b == 0);
            lemma_pow2_unfold(e + 1);
            assert((m + 1) * pow2(e) == b * pow2(e + 1)) by (nonlinear_arith)
                requires
                    m + 1 == 2 * b,
                    pow2(e + 1) == 2 * pow2(e),
            ;
        } else {
            assert((mag + 1) / b == e + 1 && (mag + 1) % b == f + 1);
        }
    } else {
        assert(e == 0);
        assert(mag / b == 0 && mag % b == m);
        if m + 1 == b {
            assert((mag + 1) / b == 1 && (mag + 1) % b == 0);
        } else {
            assert((mag + 1) / b == 0 && (mag + 1) % b == m + 1);
        }
    }
}

/// Every magnitude has a canonical mantissa and exponent.
pub proof fn lemma_decode(mag: nat) -> (r: (nat, nat))
    ensures
        canonical(r.0, r.1),
        mag == r.1 * 0x10_0000_0000_0000 + r.0,
{
    let b: nat = 0x10_0000_0000_0000;
    let e = mag / b;
    let f = mag % b;
    assert(mag == e * b + f);
    if e == 0 {
        (f, 0)
    } else {
        assert(mag == (e - 1) * b + (f + b));
        ((f + b) as nat, (e - 1) as nat)
    }
}

/// The next magnitude encodes a larger value.
pub proof fn lemma_next_is_larger(mag: nat)
    ensures
        magnitude_value(mag) < magnitude_value(mag + 1),
{
    let (m, e) = lemma_decode(mag);
    lemma_canonical_value(m, e);
    lemma_pow2_pos(e);
    assert(m * pow2(e) < (m + 1) * pow2(e)) by (nonlinear_arith)
        requires
            pow2(e) > 0,
    ;
}

/// Magnitudes are ordered as the values that they encode.
pub proof fn magnitudes_order_as_values(a: nat, b: nat)
    ensures
        a < b <==> magnitude_value(a) < magnitude_value(b),
        a == b <==> magnitude_value(a) == magnitude_value(b),
{
    if a < b {
        lemma_larger_magnitude(a, b);
    } else if b < a {
        lemma_larger_magnitude(b, a);
    }
}

proof fn lemma_larger_magnitude(a: nat, b: nat)
    requires
        a < b,
    ensures
        magnitude_value(a) < magnitude_value(b),
    decreases b,
{
    if a + 1 < b {
        lemma_larger_magnitude(a, (b - 1) as nat);
    }
    lemma_next_is_larger((b - 1) as nat);
}

/// A quotient of units rounds to one magnitude only.
pub proof fn lemma_rounding_is_unique(r: nat, s: nat, n: nat, d: nat)
    requires
        nearest_even(r, n, d),
        nearest_even(s, n, d),
        d > 0,
    ensures
        r == s,
{
    lemma_rounding_is_not_below(r, s, n, d);
    lemma_rounding_is_not_below(s, r, n, d);
}

proof fn lemma_rounding_is_not_below(r: nat, s: nat, n: nat, d: nat)
    requires
        nearest_even(r, n, d),
        nearest_even(s, n, d),
        d > 0,
    ensures
        r >= s,
{
    if r < s {
        let above = magnitude_value(r) + magnitude_value(r + 1);
        let below = magnitude_value((s - 1) as nat) + magnitude_value(s);
        if r + 1 < s {
            lemma_larger_magnitude(r, (s - 1) as nat);
            lemma_larger_magnitude(r + 1, s);
            assert(above * d < below * d) by (nonlinear_arith)
                requires
                    above < below,
                    d > 0,
            ;
        }
    }
}

/// Rounding a canonical mantissa and exponent, of which `guard` is the first
/// bit below the mantissa and `sticky` tells whether anything is left below it.
#[verifier::spinoff_prover]
#[verifier::rlimit(40)]
proof fn lemma_round_canonical(m: nat, e: nat, guard: bool, sticky: bool, n: nat, d: nat)
    requires
        canonical(m, e),
        d > 0,
        ({
            let w = pow2(e) * d;
            let g: nat = if guard { 1 } else { 0 };
            &&& (2 * m + g) * w <= 2 * n < (2 * m + g + 1) * w
            &&& sticky <==> 2 * n != (2 * m + g) * w
        }),
    ensures
        ({
            let up: nat = if guard && (sticky || m % 2 == 1) { 1 } else { 0 };
            let mag = e * 0x10_0000_0000_0000 + m + up;
            let r = if mag <= INFINITE_MAGNITUDE { mag } else { INFINITE_MAGNITUDE as nat };
            rounded(n, d) == r && nearest_even(r, n, d)
        }),
{
    let w = pow2(e) * d;
    let g: nat = if guard { 1 } else { 0 };
    let up: nat = if guard && (sticky || m % 2 == 1) { 1 } else { 0 };
    let r0: nat = e * 0x10_0000_0000_0000 + m;
    lemma_pow2_pos(e);
    lemma_canonical_value(m, e);
    assert(w > 0) by (nonlinear_arith)
        requires
            w == pow2(e) * d,
            pow2(e) > 0,
            d > 0,
    ;
    let v0 = magnitude_value(r0);
    let v1 = magnitude_value(r0 + 1);
    assert(v0 * d == m * w) by (nonlinear_arith)
        requires
            v0 == m * pow2(e),
            w == pow2(e) * d,
    ;
    assert(v1 * d == (m + 1) * w) by (nonlinear_arith)
        requires
            v1 == (m + 1) * pow2(e),
            w == pow2(e) * d,
    ;
    assert((2 * m + 1) * w == m * w + (m + 1) * w) by (nonlinear_arith);
    assert((2 * m + 2) * w == 2 * ((m + 1) * w)) by (nonlinear_arith);
    assert((2 * m + 0) * w == 2 * (m * w)) by (nonlinear_arith);
    assert((v0 + v1) * d == v0 * d + v1 * d) by (nonlinear_arith);
    assert(r0 % 2 == m % 2);
    let mag = r0 + up;
    if mag > INFINITE_MAGNITUDE || r0 >= INFINITE_MAGNITUDE {
        // The value is at least that of the infinite magnitude.
        let inf = INFINITE_MAGNITUDE as nat;
        assert(r0 >= inf);
        magnitudes_order_as_values(inf, r0);
        lemma_next_is_larger((inf - 1) as nat);
        let vi = magnitude_value(inf);
        let vp = magnitude_value((inf - 1) as nat);
        assert((vp + vi) * d < 2 * (v0 * d)) by (nonlinear_arith)
            requires
                vp < vi,
                vi <= v0,
                d > 0,
        ;
        assert(2 * n >= 2 * (m * w));
        assert(nearest_even(inf, n, d));
        lemma_rounding_is_unique(inf, rounded(n, d), n, d);
    } else {
        if up == 0 {
            if r0 > 0 {
                lemma_next_is_larger((r0 - 1) as nat);
                let vp = magnitude_value((r0 - 1) as nat);
                assert((vp + v0) * d < 2 * (v0 * d)) by (nonlinear_arith)
                    requires
                        vp < v0,
                        d > 0,
                ;
            }
            assert(nearest_even(r0, n, d));
        } else {
            lemma_next_is_larger(r0 + 1);
            let v2 = magnitude_value(r0 + 2);
            assert((v1 + v2) * d > 2 * (v1 * d)) by (nonlinear_arith)
                requires
                    v2 > v1,
                    d > 0,
            ;
            assert(magnitude_value(r0 + 1 + 1) == v2);
            assert(nearest_even(r0 + 1, n, d));
        }
        assert(nearest_even(mag, n, d));
        lemma_rounding_is_unique(mag, rounded(n, d), n, d);
    }
}

/// `w` is `2^e` units, counted in parts of which `d` make one unit.
pub open spec fn weighs(w: nat, e: int, d: nat) -> bool {
    if e >= 0 {
        w == pow2(e as nat) * d
    } else {
        w * pow2((-e) as nat) == d
    }
}

proof fn lemma_double_weight(w: nat, e: int, d: nat)
    requires
        weighs(w, e, d),
    ensures
        weighs(2 * w, e + 1, d),
{
    lemma2_to64();
    if e >= 0 {
        lemma_pow2_unfold((e + 1) as nat);
        assert(2 * (pow2(e as nat) * d) == (2 * pow2(e as nat)) * d) by (nonlinear_arith);
    } else {
        lemma_pow2_unfold((-e) as nat);
        let p = pow2((-e - 1) as nat);
        assert((2 * w) * p == w * (2 * p)) by (nonlinear_arith);
        if e == -1 {
            assert(2 * w == pow2(0) * d) by (nonlinear_arith)
                requires
                    (2 * w) * p == d,
                    p == 1,
                    pow2(0) == 1,
            ;
        }
    }
}

/// Rounds the value `n / d` to the nearest magnitude. The value is known as
/// `q * 2^e` units, of which `sticky` tells whether a part of the last unit of
/// `q` was cut off.
#[verifier::spinoff_prover]
#[verifier::rlimit(40)]
pub(crate) fn round_units(
    q: u128,
    e: i64,
    sticky: bool,
    Ghost(n): Ghost<nat>,
    Ghost(d): Ghost<nat>,
    Ghost(w): Ghost<nat>,
) -> (mag: u64)
    requires
        d > 0,
        q > 0,
        -4000 <= e <= 4000,
        q as nat * w <= n < (q as nat + 1) * w,
        sticky <==> n != q as nat * w,
        weighs(w, e as int, d),
        sticky ==> q >= 0x40_0000_0000_0000,
    ensures
        mag == rounded(n, d),
        nearest_even(mag as nat, n, d),
        mag <= INFINITE_MAGNITUDE,
{
    let mut m: u128 = q;
    let mut e: i64 = e;
    let mut guard: bool = false;
    let mut sticky: bool = sticky;
    let ghost mut w: nat = w;
    let ghost mut bits: nat = 128;
    proof {
        lemma2_to64();
        lemma2_to64_rest();
        lemma_pow2_adds(64, 64);
        assert(w > 0) by (nonlinear_arith)
            requires
                q as nat * w < (q as nat + 1) * w,
        ;
        assert((2 * q as nat) * w == 2 * (q as nat * w)) by (nonlinear_arith);
        assert((2 * q as nat + 1) * w == 2 * (q as nat * w) + w) by (nonlinear_arith);
    }
    if sticky {
        proof {
            lemma_double_weight(w, e as int, d);
            lemma_pow2_unfold(128);
            assert(q as nat * (2 * w) == 2 * (q as nat * w)) by (nonlinear_arith);
            assert((q as nat + 1) * (2 * w) == 2 * ((q as nat + 1) * w)) by (nonlinear_arith);
            w = 2 * w;
            bits = 127;
        }
        guard = m % 2 == 1;
        m = m / 2;
        e = e + 1;
    }
    while e < 0 || m >= 0x20_0000_0000_0000
        invariant
            d > 0,
            w > 0,
            bits <= 128,
            -4000 <= e,
            e >= 0 ==> e <= 4000 + 128 - bits,
            m < pow2(bits),
            weighs(w, e as int, d),
            (2 * m as nat + (if guard { 1nat } else { 0 })) * w <= 2 * n,
            2 * n < (2 * m as nat + (if guard { 1nat } else { 0 }) + 1) * w,
            sticky <==> 2 * n != (2 * m as nat + (if guard { 1nat } else { 0 })) * w,
            guard || sticky ==> e <= 0 || m >= 0x10_0000_0000_0000,
            !guard && !sticky ==> m > 0,
        decreases (if e < 0 { -e } else { 0 }) + m,
    {
        let ghost m0 = m as nat;
        let ghost g0: nat = if guard { 1 } else { 0 };
        let ghost w0 = w;
        proof {
            lemma2_to64();
            lemma2_to64_rest();
            lemma_double_weight(w, e as int, d);
            if bits <= 53 {
                if bits < 53 {
                    lemma_pow2_strictly_increases(bits, 53);
                }
            } else {
                lemma_pow2_unfold(bits);
                bits = (bits - 1) as nat;
            }
            assert(m0 * (2 * w0) == (2 * m0) * w0) by (nonlinear_arith);
            assert((m0 + 1) * (2 * w0) == (2 * m0 + 2) * w0) by (nonlinear_arith);
            assert((2 * m0) * w0 <= (2 * m0 + g0) * w0) by (nonlinear_arith);
            assert((2 * m0 + g0 + 1) * w0 <= (2 * m0 + 2) * w0) by (nonlinear_arith)
                requires
                    g0 <= 1,
            ;
            assert((2 * m0 + 1) * w0 == (2 * m0) * w0 + w0) by (nonlinear_arith);
            w = 2 * w;
        }
        sticky = sticky || guard;
        guard = m % 2 == 1;
        m = m / 2;
        e = e + 1;
        proof {
            assert(2 * m as nat + (if guard { 1nat } else { 0 }) == m0);
        }
    }
    while e > 0 && m < 0x10_0000_0000_0000
        invariant
            d > 0,
            w > 0,
            0 <= e <= 8000,
            m < 0x20_0000_0000_0000,
            weighs(w, e as int, d),
            (2 * m as nat + (if guard { 1nat } else { 0 })) * w <= 2 * n,
            2 * n < (2 * m as nat + (if guard { 1nat } else { 0 }) + 1) * w,
            sticky <==> 2 * n != (2 * m as nat + (if guard { 1nat } else { 0 })) * w,
            guard || sticky ==> e <= 0 || m >= 0x10_0000_0000_0000,
        decreases e,
    {
        let ghost m0 = m as nat;
        let ghost w0 = w;
        proof {
            lemma_pow2_unfold(e as nat);
            let half = pow2((e - 1) as nat) * d;
            assert(w0 == 2 * half) by (nonlinear_arith)
                requires
                    w0 == pow2(e as nat) * d,
                    pow2(e as nat) == 2 * pow2((e - 1) as nat),
                    half == pow2((e - 1) as nat) * d,
            ;
            assert((2 * (2 * m0)) * half == (2 * m0) * w0) by (nonlinear_arith)
                requires
                    w0 == 2 * half,
            ;
            assert((2 * (2 * m0) + 1) * half == (2 * (2 * m0)) * half + half) by (nonlinear_arith);
            w = half;
        }
        m = m * 2;
        e = e - 1;
    }
    proof {
        lemma_round_canonical(m as nat, e as nat, guard, sticky, n, d);
    }
    if e >= 2047 {
        return INFINITE_MAGNITUDE;
    }
    let up: u64 = if guard && (sticky || m % 2 == 1) { 1 } else { 0 };
    let mag: u64 = e as u64 * BINADE + m as u64 + up;
    if mag <= INFINITE_MAGNITUDE {
        mag
    } else {
        INFINITE_MAGNITUDE
    }
}

/// A number in IEEE 754 binary64 encoding.
#[derive(Clone, Copy, Debug, PartialEq, Eq, Structural)]
pub struct Binary64 {
    pub bits: u64,
}

impl Binary64 {
    /// Whether the sign bit is set.
    pub open spec fn negative(self) -> bool {
        self.bits >= SIGN_BIT
    }

    /// The bits below the sign bit.
    pub open spec fn magnitude(self) -> nat {
        if self.negative() {
            (self.bits - SIGN_BIT) as nat
        } else {
            self.bits as nat
        }
    }

    pub open spec fn nan(self) -> bool {
        self.magnitude() > INFINITE_MAGNITUDE
    }

    pub open spec fn infinite(self) -> bool {
        self.magnitude() == INFINITE_MAGNITUDE
    }

    pub open spec fn finite(self) -> bool {
        self.magnitude() < INFINITE_MAGNITUDE
    }

    pub open spec fn zero(self) -> bool {
        self.magnitude() == 0
    }

    /// The value of a finite number, in units of 2 to the power -1074.
    pub open spec fn exact(self) -> int {
        if self.negative() {
            -magnitude_value(self.magnitude())
        } else {
            magnitude_value(self.magnitude()) as int
        }
    }

    /// The place of a number that is not NaN in the order of the numbers; both
    /// zeros have the same place.
    pub open spec fn rank(self) -> int {
        if self.negative() {
            -self.magnitude()
        } else {
            self.magnitude() as int
        }
    }

    /// The number with the given sign and magnitude.
    pub open spec fn signed(negative: bool, mag: nat) -> Binary64 {
        Binary64 { bits: if negative { (SIGN_BIT + mag) as u64 } else { mag as u64 } }
    }

    pub open spec fn quiet_nan() -> Binary64 {
        Binary64 { bits: QUIET_NAN }
    }

    /// The number nearest to `x` units; `zero_negative` is the sign of zero.
    pub open spec fn nearest(x: int, zero_negative: bool) -> Binary64 {
        if x == 0 {
            Binary64::signed(zero_negative, 0)
        } else if x < 0 {
            Binary64::signed(true, rounded((-x) as nat, 1))
        } else {
            Binary64::signed(false, rounded(x as nat, 1))
        }
    }

    /// `self + other`, rounded to the nearest number.
    pub open spec fn sum(self, other: Binary64) -> Binary64 {
        if self.nan() || other.nan() {
            Binary64::quiet_nan()
        } else if self.infinite() {
            if other.infinite() && self.negative() != other.negative() {
                Binary64::quiet_nan()
            } else {
                self
            }
        } else if other.infinite() {
            other
        } else {
            Binary64::nearest(self.exact() + other.exact(), self.negative() && other.negative())
        }
    }

    /// The number with the other sign.
    pub open spec fn negated(self) -> Binary64 {
        Binary64::signed(!self.negative(), self.magnitude())
    }

    /// `self - other`, rounded to the nearest number.
    pub open spec fn difference(self, other: Binary64) -> Binary64 {
        self.sum(other.negated())
    }

    /// `self * other`, rounded to the nearest number.
    pub open spec fn product(self, other: Binary64) -> Binary64 {
        let negative = self.negative() != other.negative();
        if self.nan() || other.nan() {
            Binary64::quiet_nan()
        } else if self.infinite() || other.infinite() {
            if self.zero() || other.zero() {
                Binary64::quiet_nan()
            } else {
                Binary64::signed(negative, INFINITE_MAGNITUDE as nat)
            }
        } else if self.zero() || other.zero() {
            Binary64::signed(negative, 0)
        } else {
            let n = magnitude_value(self.magnitude()) * magnitude_value(other.magnitude());
            Binary64::signed(negative, rounded(n, pow2(UNIT_EXPONENT as nat)))
        }
    }

    /// `self / other`, rounded to the nearest number.
    pub open spec fn quotient(self, other: Binary64) -> Binary64 {
        let negative = self.negative() != other.negative();
        if self.nan() || other.nan() {
            Binary64::quiet_nan()
        } else if self.infinite() {
            if other.infinite() {
                Binary64::quiet_nan()
            } else {
                Binary64::signed(negative, INFINITE_MAGNITUDE as nat)
            }
        } else if other.infinite() {
            Binary64::signed(negative, 0)
        } else if other.zero() {
            if self.zero() {
                Binary64::quiet_nan()
            } else {
                Binary64::signed(negative, INFINITE_MAGNITUDE as nat)
            }
        } else if self.zero() {
            Binary64::signed(negative, 0)
        } else {
            let n = magnitude_value(self.magnitude()) * pow2(UNIT_EXPONENT as nat);
            Binary64::signed(negative, rounded(n, magnitude_value(other.magnitude())))
        }
    }

    /// The number that the 64 bits encode.
    pub fn from_bits(bits: u64) -> (r: Self)
        ensures
            r.bits == bits,
    {
        Binary64 { bits }
    }

    /// The 64 bits that encode the number.
    pub fn to_bits(self) -> (bits: u64)
        ensures
            bits == self.bits,
    {
        self.bits
    }

    #[verifier::allow_in_spec]
    pub fn is_negative(self) -> (r: bool)
        ensures
            r == self.negative(),
        returns
            self.negative(),
    {
        self.bits >= SIGN_BIT
    }

    pub(crate) fn mag(self) -> (r: u64)
        ensures
            r == self.magnitude(),
    {
        if self.bits >= SIGN_BIT {
            self.bits - SIGN_BIT
        } else {
            self.bits
        }
    }

    #[verifier::allow_in_spec]
    pub fn is_nan(self) -> (r: bool)
        ensures
            r == self.nan(),
        returns
            self.nan(),
    {
        self.mag() > INFINITE_MAGNITUDE
    }

    #[verifier::allow_in_spec]
    pub fn is_finite(self) -> (r: bool)
        ensures
            r == self.finite(),
        returns
            self.finite(),
    {
        self.mag() < INFINITE_MAGNITUDE
    }

    pub(crate) fn compose(negative: bool, mag: u64) -> (r: Binary64)
        requires
            mag < SIGN_BIT,
        ensures
            r == Binary64::signed(negative, mag as nat),
            r.negative() == negative,
            r.magnitude() == mag,
    {
        if negative {
            Binary64 { bits: SIGN_BIT + mag }
        } else {
            Binary64 { bits: mag }
        }
    }

    /// The mantissa and exponent of a finite number.
    pub(crate) fn parts(self) -> (r: (u64, u64))
        requires
            self.finite(),
        ensures
            canonical(r.0 as nat, r.1 as nat),
            self.magnitude() == r.1 * 0x10_0000_0000_0000 + r.0,
            magnitude_value(self.magnitude()) == r.0 * pow2(r.1 as nat),
            r.1 <= 2045,
            self.magnitude() == 0 <==> r.0 == 0,
    {
        let mag: u64 = self.mag();
        let e: u64 = mag / BINADE;
        let f: u64 = mag % BINADE;
        let r: (u64, u64) = if e == 0 {
            (f, 0)
        } else {
            (f + BINADE, e - 1)
        };
        proof {
            lemma_canonical_value(r.0 as nat, r.1 as nat);
        }
        r
    }

    /// The number with the other sign.
    #[verifier::allow_in_spec]
    pub fn neg(self) -> (r: Binary64)
        ensures
            r == self.negated(),
            r.magnitude() == self.magnitude(),
            r.negative() == !self.negative(),
        returns
            self.negated(),
    {
        Binary64::compose(!self.is_negative(), self.mag())
    }
}

/// `x * 2^k`.
pub(crate) fn scaled_up(x: u128, k: u64) -> (r: u128)
    requires
        x < 0x20_0000_0000_0000,
        k <= 70,
    ensures
        r == x * pow2(k as nat),
        r < 0x800_0000_0000_0000_0000_0000_0000_0000,
{
    let mut r: u128 = x;
    let mut i: u64 = 0;
    proof {
        lemma2_to64();
        lemma2_to64_rest();
    }
    while i < k
        invariant
            i <= k <= 70,
            x < 0x20_0000_0000_0000,
            r == x * pow2(i as nat),
        decreases k - i,
    {
        proof {
            lemma_pow2_unfold((i + 1) as nat);
            lemma2_to64();
            lemma2_to64_rest();
            lemma_pow2_adds(64, 5);
            lemma_pow2_strictly_increases(i as nat, 70);
            lemma_pow2_unfold(70);
            if i < 69 {
                lemma_pow2_strictly_increases(i as nat, 69);
            }
            let p = pow2(i as nat);
            assert(x * p <= 0x20_0000_0000_0000 * pow2(69)) by (nonlinear_arith)
                requires
                    0 <= x < 0x20_0000_0000_0000,
                    p <= pow2(69),
            ;
            assert(x * (2 * p) == 2 * (x * p)) by (nonlinear_arith);
        }
        r = r * 2;
        i = i + 1;
    }
    proof {
        lemma2_to64();
        lemma2_to64_rest();
        lemma_pow2_adds(64, 6);
        if k < 70 {
            lemma_pow2_strictly_increases(k as nat, 70);
        }
        let p = pow2(k as nat);
        assert(x * p < 0x20_0000_0000_0000 * pow2(70)) by (nonlinear_arith)
            requires
                0 <= x < 0x20_0000_0000_0000,
                p <= pow2(70),
                pow2(70) > 0,
        ;
    }
    r
}

/// A positive mantissa and exponent as the same value with a full mantissa, in
/// units of 2 to the power -2148.
#[verifier::spinoff_prover]
#[verifier::rlimit(40)]
pub(crate) fn widened(m: u64, e: u64) -> (r: (u64, u64))
    requires
        0 < m < 0x20_0000_0000_0000,
        e <= 2045,
    ensures
        0x10_0000_0000_0000 <= r.0 < 0x20_0000_0000_0000,
        r.0 * pow2(r.1 as nat) == m * pow2((e + 1074) as nat),
        1000 <= r.1 <= 3119,
{
    let mut m: u64 = m;
    let mut a: u64 = e + 1074;
    let ghost n = m * pow2(a as nat);
    let ghost mut k: nat = 0;
    proof {
        lemma2_to64();
    }
    while m < BINADE
        invariant
            0 < m < 0x20_0000_0000_0000,
            n == m * pow2(a as nat),
            e <= 2045,
            a + k == e + 1074,
            pow2(k) <= m,
        decreases 0x20_0000_0000_0000 - m,
    {
        proof {
            lemma2_to64_rest();
            if k >= 53 {
                if k > 53 {
                    lemma_pow2_strictly_increases(53, k);
                }
            }
            lemma_pow2_unfold(a as nat);
            lemma_pow2_unfold(k + 1);
            let half = pow2((a - 1) as nat);
            assert(m * (2 * half) == (2 * m) * half) by (nonlinear_arith);
            k = k + 1;
        }
        m = m * 2;
        a = a - 1;
    }
    proof {
        lemma2_to64_rest();
        if k > 53 {
            lemma_pow2_strictly_increases(53, k);
        }
    }
    (m, a)
}

/// Adds or subtracts two values `ma * 2^ea` and `mb * 2^eb` of which the first
/// has the larger exponent. `opposite` tells whether the second is subtracted.
/// The result is the rounded magnitude, whether the second was larger, and
/// whether the exact result is zero.
#[verifier::spinoff_prover]
#[verifier::rlimit(40)]
fn combine(ma: u64, ea: u64, mb: u64, eb: u64, opposite: bool) -> (r: (u64, bool, bool))
    requires
        canonical(ma as nat, ea as nat),
        canonical(mb as nat, eb as nat),
        eb <= ea <= 2045,
    ensures
        ({
            let x = ma * pow2(ea as nat);
            let y = mb * pow2(eb as nat);
            let total = if opposite { x - y } else { x + y };
            &&& r.1 <==> total < 0
            &&& r.2 <==> total == 0
            &&& total == 0 ==> r.0 == 0
            &&& total > 0 ==> r.0 == rounded(total as nat, 1)
            &&& total < 0 ==> r.0 == rounded((-total) as nat, 1)
            &&& r.0 <= INFINITE_MAGNITUDE
        }),
{
    let ghost x = ma * pow2(ea as nat);
    let ghost y = mb * pow2(eb as nat);
    let gap: u64 = ea - eb;
    if gap <= 70 {
        let qa: u128 = scaled_up(ma as u128, gap);
        let ghost w = pow2(eb as nat);
        proof {
            lemma_pow2_adds(gap as nat, eb as nat);
            lemma_pow2_pos(eb as nat);
            assert(x == qa as nat * w) by (nonlinear_arith)
                requires
                    x == ma * pow2(ea as nat),
                    qa == ma * pow2(gap as nat),
                    pow2(ea as nat) == pow2(gap as nat) * w,
            ;
            assert(forall|q: nat| #[trigger] (q * w) < (q + 1) * w) by (nonlinear_arith)
                requires
                    w > 0,
            ;
        }
        if opposite {
            if qa == mb as u128 {
                return (0, false, true);
            }
            let larger: bool = (mb as u128) > qa;
            let q: u128 = if larger { mb as u128 - qa } else { qa - mb as u128 };
            let ghost n: nat = q as nat * w;
            proof {
                assert(q as nat * w == if larger { y - x } else { x - y }) by (nonlinear_arith)
                    requires
                        x == qa as nat * w,
                        y == mb * w,
                        q == if larger { mb - qa } else { qa - mb },
                ;
                assert(n > 0) by (nonlinear_arith)
                    requires
                        n == q as nat * w,
                        q > 0,
                        w > 0,
                ;
            }
            let mag: u64 = round_units(q, eb as i64, false, Ghost(n), Ghost(1), Ghost(w));
            (mag, larger, false)
        } else {
            let q: u128 = qa + mb as u128;
            let ghost n: nat = q as nat * w;
            proof {
                assert(q as nat * w == x + y) by (nonlinear_arith)
                    requires
                        x == qa as nat * w,
                        y == mb * w,
                        q == qa + mb,
                ;
            }
            if q == 0 {
                return (0, false, true);
            }
            proof {
                assert(n > 0) by (nonlinear_arith)
                    requires
                        n == q as nat * w,
                        q > 0,
                        w > 0,
                ;
            }
            let mag: u64 = round_units(q, eb as i64, false, Ghost(n), Ghost(1), Ghost(w));
            (mag, false, false)
        }
    } else {
        combine_far(ma, ea, mb, eb, opposite)
    }
}

/// The case of [`combine`] in which the exponents are far apart.
#[verifier::spinoff_prover]
#[verifier::rlimit(40)]
fn combine_far(ma: u64, ea: u64, mb: u64, eb: u64, opposite: bool) -> (r: (u64, bool, bool))
    requires
        canonical(ma as nat, ea as nat),
        canonical(mb as nat, eb as nat),
        eb + 70 < ea <= 2045,
    ensures
        ({
            let x = ma * pow2(ea as nat);
            let y = mb * pow2(eb as nat);
            let total = if opposite { x - y } else { x + y };
            &&& !r.1 && !r.2
            &&& total > 0
            &&& r.0 == rounded(total as nat, 1)
            &&& r.0 <= INFINITE_MAGNITUDE
        }),
{
    let ghost x = ma * pow2(ea as nat);
    let ghost y = mb * pow2(eb as nat);
    let gap: u64 = ea - eb;
    // Only the part of the second value above `2^(ea - 70)` is kept; the
    // rest decides whether the kept part is exact.
    let drop: u64 = gap - 70;
    let kept: u64 = if drop >= 64 { 0 } else { mb >> drop };
    let e: u64 = ea - 70;
    let ghost w = pow2(e as nat);
    let ghost p = pow2(drop as nat);
    let ghost b = pow2(eb as nat);
    proof {
        lemma_pow2_pos(drop as nat);
        lemma_pow2_pos(eb as nat);
        lemma_pow2_adds(70, e as nat);
        lemma_pow2_adds(drop as nat, eb as nat);
        lemma2_to64();
        lemma2_to64_rest();
        if drop >= 64 {
            if drop > 64 {
                lemma_pow2_strictly_increases(64, drop as nat);
            }
            assert(mb as nat / p == 0) by (nonlinear_arith)
                requires
                    0 <= mb < p,
            ;
        } else {
            vstd::bits::lemma_u64_shr_is_div(mb, drop);
        }
        assert(kept == mb as nat / p);
        assert(kept * p <= mb < (kept + 1) * p && kept <= mb) by (nonlinear_arith)
            requires
                kept == mb as nat / p,
                p > 0,
                mb >= 0,
        ;
        assert(w == p * b);
        assert(kept * w <= y < (kept + 1) * w) by (nonlinear_arith)
            requires
                kept * p <= mb < (kept + 1) * p,
                w == p * b,
                y == mb * b,
                b > 0,
        ;
    }
    let lost: bool = if drop >= 64 { mb != 0 } else { kept << drop != mb };
    let qa: u128 = scaled_up(ma as u128, 70);
    proof {
        if drop < 64 {
            vstd::bits::lemma_u64_shl_is_mul(kept, drop);
        } else {
            assert(kept * p == 0);
        }
        assert(lost <==> mb != kept * p);
        assert(lost <==> y != kept * w) by (nonlinear_arith)
            requires
                lost <==> mb != kept * p,
                w == p * b,
                y == mb * b,
                b > 0,
        ;
        assert(x == qa as nat * w) by (nonlinear_arith)
            requires
                x == ma * pow2(ea as nat),
                qa == ma * pow2(70),
                pow2(ea as nat) == pow2(70) * w,
        ;
        assert(pow2(70) >= 0x40_0000_0000_0000) by {
            lemma_pow2_strictly_increases(64, 70);
        }
        assert(qa >= 0x40_0000_0000_0000 * 0x10_0000_0000_0000) by (nonlinear_arith)
            requires
                qa == ma * pow2(70),
                ma >= 0x10_0000_0000_0000,
                pow2(70) >= 0x40_0000_0000_0000,
        ;
    }
    if opposite {
        let q: u128 = qa - kept as u128 - (if lost { 1 } else { 0 });
        let ghost n: nat = (x - y) as nat;
        proof {
            assert(q as nat * w <= x - y < (q as nat + 1) * w && (lost <==> x - y != q as nat
                * w)) by (nonlinear_arith)
                requires
                    x == qa as nat * w,
                    q == qa - kept - (if lost { 1int } else { 0 }),
                    kept * w <= y < (kept + 1) * w,
                    lost <==> y != kept * w,
            ;
            assert(q as nat * w > 0) by (nonlinear_arith)
                requires
                    q > 0,
                    w == p * b,
                    p > 0,
                    b > 0,
            ;
        }
        let mag: u64 = round_units(q, e as i64, lost, Ghost(n), Ghost(1), Ghost(w));
        (mag, false, false)
    } else {
        let q: u128 = qa + kept as u128;
        let ghost n: nat = (x + y) as nat;
        proof {
            assert(q as nat * w <= x + y < (q as nat + 1) * w && (lost <==> x + y != q as nat
                * w)) by (nonlinear_arith)
                requires
                    x == qa as nat * w,
                    q == qa + kept,
                    kept * w <= y < (kept + 1) * w,
                    lost <==> y != kept * w,
            ;
            assert(q as nat * w > 0) by (nonlinear_arith)
                requires
                    q > 0,
                    w == p * b,
                    p > 0,
                    b > 0,
            ;
        }
        let mag: u64 = round_units(q, e as i64, lost, Ghost(n), Ghost(1), Ghost(w));
        (mag, false, false)
    }
}

impl Binary64 {
    /// `self + other`.
    #[verifier::allow_in_spec]
    #[verifier::spinoff_prover]
    #[verifier::rlimit(40)]
    pub fn plus(self, other: Binary64) -> (r: Binary64)
        ensures
            r == self.sum(other),
        returns
            self.sum(other),
    {
        if self.is_nan() || other.is_nan() {
            return Binary64 { bits: QUIET_NAN };
        }
        if !self.is_finite() {
            if !other.is_finite() && self.is_negative() != other.is_negative() {
                return Binary64 { bits: QUIET_NAN };
            }
            return self;
        }
        if !other.is_finite() {
            return other;
        }
        let (ma, ea) = self.parts();
        let (mb, eb) = other.parts();
        let opposite: bool = self.is_negative() != other.is_negative();
        if ea >= eb {
            let (mag, second, zero) = combine(ma, ea, mb, eb, opposite);
            let negative: bool = if zero {
                self.is_negative() && other.is_negative()
            } else {
                self.is_negative() != second
            };
            Binary64::compose(negative, mag)
        } else {
            let (mag, second, zero) = combine(mb, eb, ma, ea, opposite);
            let negative: bool = if zero {
                self.is_negative() && other.is_negative()
            } else {
                other.is_negative() != second
            };
            Binary64::compose(negative, mag)
        }
    }

    /// `self - other`.
    #[verifier::allow_in_spec]
    pub fn minus(self, other: Binary64) -> (r: Binary64)
        ensures
            r == self.difference(other),
        returns
            self.difference(other),
    {
        self.plus(other.neg())
    }

    /// `self * other`.
    #[verifier::allow_in_spec]
    #[verifier::spinoff_prover]
    #[verifier::rlimit(40)]
    pub fn times(self, other: Binary64) -> (r: Binary64)
        ensures
            r == self.product(other),
        returns
            self.product(other),
    {
        let negative: bool = self.is_negative() != other.is_negative();
        if self.is_nan() || other.is_nan() {
            return Binary64 { bits: QUIET_NAN };
        }
        if !self.is_finite() || !other.is_finite() {
            if self.mag() == 0 || other.mag() == 0 {
                return Binary64 { bits: QUIET_NAN };
            }
            return Binary64::compose(negative, INFINITE_MAGNITUDE);
        }
        if self.mag() == 0 || other.mag() == 0 {
            return Binary64::compose(negative, 0);
        }
        let (ma, ea) = self.parts();
        let (mb, eb) = other.parts();
        proof {
            assert(0 < ma * mb < 0x400_0000_0000_0000_0000_0000_0000) by (nonlinear_arith)
                requires
                    0 < ma < 0x20_0000_0000_0000,
                    0 < mb < 0x20_0000_0000_0000,
            ;
        }
        let q: u128 = ma as u128 * mb as u128;
        let e: i64 = ea as i64 + eb as i64 - 1074;
        let ghost n = magnitude_value(self.magnitude()) * magnitude_value(other.magnitude());
        let ghost d = pow2(UNIT_EXPONENT as nat);
        let ghost w = pow2((ea + eb) as nat);
        proof {
            lemma_pow2_adds(ea as nat, eb as nat);
            lemma_pow2_pos((ea + eb) as nat);
            lemma_pow2_pos(UNIT_EXPONENT as nat);
            if e >= 0 {
                lemma_pow2_adds(e as nat, 1074);
            } else {
                lemma_pow2_adds((ea + eb) as nat, (-e) as nat);
            }
            let pa = pow2(ea as nat);
            let pb = pow2(eb as nat);
            assert(n == q as nat * w) by (nonlinear_arith)
                requires
                    n == (ma * pa) * (mb * pb),
                    q == ma * mb,
                    w == pa * pb,
            ;
            assert(q as nat * w < (q as nat + 1) * w) by (nonlinear_arith)
                requires
                    w > 0,
            ;
        }
        let mag: u64 = round_units(q, e, false, Ghost(n), Ghost(d), Ghost(w));
        Binary64::compose(negative, mag)
    }

    /// `self / other`.
    #[verifier::allow_in_spec]
    #[verifier::spinoff_prover]
    #[verifier::rlimit(40)]
    pub fn over(self, other: Binary64) -> (r: Binary64)
        ensures
            r == self.quotient(other),
        returns
            self.quotient(other),
    {
        let negative: bool = self.is_negative() != other.is_negative();
        if self.is_nan() || other.is_nan() {
            return Binary64 { bits: QUIET_NAN };
        }
        if !self.is_finite() {
            if !other.is_finite() {
                return Binary64 { bits: QUIET_NAN };
            }
            return Binary64::compose(negative, INFINITE_MAGNITUDE);
        }
        if !other.is_finite() {
            return Binary64::compose(negative, 0);
        }
        if other.mag() == 0 {
            if self.mag() == 0 {
                return Binary64 { bits: QUIET_NAN };
            }
            return Binary64::compose(negative, INFINITE_MAGNITUDE);
        }
        if self.mag() == 0 {
            return Binary64::compose(negative, 0);
        }
        let (ma, ea) = self.parts();
        let (mb, eb) = other.parts();
        let ghost n = magnitude_value(self.magnitude()) * pow2(UNIT_EXPONENT as nat);
        let ghost d = magnitude_value(other.magnitude());
        let (m, a) = widened(ma, ea);
        proof {
            lemma_pow2_adds(ea as nat, 1074);
            let pa = pow2(ea as nat);
            let pu = pow2(1074);
            assert(n == m * pow2(a as nat)) by (nonlinear_arith)
                requires
                    n == (ma * pa) * pu,
                    m * pow2(a as nat) == ma * pow2((ea + 1074) as nat),
                    pow2((ea + 1074) as nat) == pa * pu,
            ;
        }
        let num: u128 = scaled_up(m as u128, 70);
        let q: u128 = num / mb as u128;
        let sticky: bool = num % mb as u128 != 0;
        let e: i64 = a as i64 - 70 - eb as i64;
        let ghost pb = pow2(eb as nat);
        let ghost ps = pow2((a - 70) as nat);
        let ghost w = mb as nat * ps;
        proof {
            lemma2_to64();
            lemma2_to64_rest();
            lemma_pow2_adds(70, (a - 70) as nat);
            lemma_pow2_adds(64, 6);
            lemma_pow2_pos((a - 70) as nat);
            lemma_pow2_pos(eb as nat);
            assert(n == num as nat * ps) by (nonlinear_arith)
                requires
                    n == m * pow2(a as nat),
                    pow2(a as nat) == pow2(70) * ps,
                    num == m * pow2(70),
            ;
            let r = num % mb as u128;
            assert(num == q * mb + r && r < mb) by (nonlinear_arith)
                requires
                    q == num as nat / mb as nat,
                    r == num as nat % mb as nat,
                    mb > 0,
            ;
            assert(q as nat * w <= n < (q as nat + 1) * w && (sticky <==> n != q as nat * w))
                by (nonlinear_arith)
                requires
                    n == num as nat * ps,
                    w == mb as nat * ps,
                    num == q * mb + r,
                    r < mb,
                    ps > 0,
                    sticky <==> r != 0,
            ;
            assert(q >= 0x40_0000_0000_0000) by (nonlinear_arith)
                requires
                    num == q * mb + r,
                    r < mb,
                    mb < 0x20_0000_0000_0000,
                    num == m * pow2(70),
                    m >= 0x10_0000_0000_0000,
                    pow2(70) == 0x40_0000_0000_0000_0000,
            ;
            assert(weighs(w, e as int, d)) by {
                if e >= 0 {
                    lemma_pow2_adds(e as nat, eb as nat);
                    let pe = pow2(e as nat);
                    assert(mb as nat * ps == pe * (mb * pb)) by (nonlinear_arith)
                        requires
                            ps == pe * pb,
                    ;
                } else {
                    lemma_pow2_adds((a - 70) as nat, (-e) as nat);
                    let pe = pow2((-e) as nat);
                    assert((mb as nat * ps) * pe == mb * pb) by (nonlinear_arith)
                        requires
                            pb == ps * pe,
                    ;
                }
            }
            assert(d > 0) by (nonlinear_arith)
                requires
                    d == mb * pb,
                    mb > 0,
                    pb > 0,
            ;
        }
        let mag: u64 = round_units(q, e, sticky, Ghost(n), Ghost(d), Ghost(w));
        Binary64::compose(negative, mag)
    }
}

impl Binary64 {
    /// `self < other`: false where one of them is NaN.
    pub open spec fn below(self, other: Binary64) -> bool {
        !self.nan() && !other.nan() && self.rank() < other.rank()
    }

    /// `self <= other`: false where one of them is NaN.
    pub open spec fn not_above(self, other: Binary64) -> bool {
        !self.nan() && !other.nan() && self.rank() <= other.rank()
    }

    /// `self == other`: false where one of them is NaN, true of the two zeros.
    pub open spec fn same(self, other: Binary64) -> bool {
        !self.nan() && !other.nan() && self.rank() == other.rank()
    }

    /// The larger of two numbers, or the one that is not NaN.
    pub open spec fn larger(self, other: Binary64) -> Binary64 {
        if self.nan() || self.below(other) {
            other
        } else {
            self
        }
    }

    /// The smaller of two numbers, or the one that is not NaN.
    pub open spec fn smaller(self, other: Binary64) -> Binary64 {
        if self.nan() || other.below(self) {
            other
        } else {
            self
        }
    }

    /// The nearest number within the limits. NaN stays NaN.
    pub open spec fn clamped(self, lo: Binary64, hi: Binary64) -> Binary64 {
        if self.below(lo) {
            lo
        } else if hi.below(self) {
            hi
        } else {
            self
        }
    }

    /// The number without its sign.
    pub open spec fn absolute(self) -> Binary64 {
        Binary64::signed(false, self.magnitude())
    }

    /// The number nearest to the integer `k`.
    pub open spec fn integer(k: nat) -> Binary64 {
        if k == 0 {
            Binary64 { bits: 0 }
        } else {
            Binary64::signed(false, rounded(k * pow2(UNIT_EXPONENT as nat), 1))
        }
    }

    fn order_key(self) -> (r: i64)
        requires
            !self.nan(),
        ensures
            r == self.rank(),
    {
        let mag: u64 = self.mag();
        if self.is_negative() {
            -(mag as i64)
        } else {
            mag as i64
        }
    }

    /// `self < other`.
    #[verifier::allow_in_spec]
    pub fn lt(self, other: Binary64) -> (r: bool)
        ensures
            r == self.below(other),
        returns
            self.below(other),
    {
        !self.is_nan() && !other.is_nan() && self.order_key() < other.order_key()
    }

    /// `self <= other`.
    #[verifier::allow_in_spec]
    pub fn le(self, other: Binary64) -> (r: bool)
        ensures
            r == self.not_above(other),
        returns
            self.not_above(other),
    {
        !self.is_nan() && !other.is_nan() && self.order_key() <= other.order_key()
    }

    /// `self > other`.
    #[verifier::allow_in_spec]
    pub fn gt(self, other: Binary64) -> (r: bool)
        ensures
            r == other.below(self),
        returns
            other.below(self),
    {
        other.lt(self)
    }

    /// `self >= other`.
    #[verifier::allow_in_spec]
    pub fn ge(self, other: Binary64) -> (r: bool)
        ensures
            r == other.not_above(self),
        returns
            other.not_above(self),
    {
        other.le(self)
    }

    /// `self == other` as numbers.
    #[verifier::allow_in_spec]
    pub fn is(self, other: Binary64) -> (r: bool)
        ensures
            r == self.same(other),
        returns
            self.same(other),
    {
        !self.is_nan() && !other.is_nan() && self.order_key() == other.order_key()
    }

    /// The larger of two numbers, or the one that is not NaN.
    #[verifier::allow_in_spec]
    pub fn max(self, other: Binary64) -> (r: Binary64)
        ensures
            r == self.larger(other),
        returns
            self.larger(other),
    {
        if self.is_nan() || self.lt(other) {
            other
        } else {
            self
        }
    }

    /// The smaller of two numbers, or the one that is not NaN.
    #[verifier::allow_in_spec]
    pub fn min(self, other: Binary64) -> (r: Binary64)
        ensures
            r == self.smaller(other),
        returns
            self.smaller(other),
    {
        if self.is_nan() || other.lt(self) {
            other
        } else {
            self
        }
    }

    /// The nearest number within the limits.
    pub fn clamp(self, lo: Binary64, hi: Binary64) -> (r: Binary64)
        requires
            lo.not_above(hi),
        ensures
            r == self.clamped(lo, hi),
            !self.nan() ==> lo.not_above(r) && r.not_above(hi),
    {
        if self.lt(lo) {
            lo
        } else if hi.lt(self) {
            hi
        } else {
            self
        }
    }

    /// The number without its sign.
    #[verifier::allow_in_spec]
    pub fn abs(self) -> (r: Binary64)
        ensures
            r == self.absolute(),
            r.magnitude() == self.magnitude(),
            !r.negative(),
        returns
            self.absolute(),
    {
        Binary64::compose(false, self.mag())
    }

    /// The number nearest to an integer.
    #[verifier::allow_in_spec]
    pub fn from_u64(k: u64) -> (r: Binary64)
        ensures
            r == Binary64::integer(k as nat),
            !r.negative(),
            k > 0 ==> r.magnitude() == rounded(k as nat * pow2(UNIT_EXPONENT as nat), 1),
        returns
            Binary64::integer(k as nat),
    {
        if k == 0 {
            return Binary64 { bits: 0 };
        }
        let ghost w = pow2(UNIT_EXPONENT as nat);
        let ghost n = k as nat * w;
        proof {
            lemma_pow2_pos(UNIT_EXPONENT as nat);
            assert(k as nat * w < (k as nat + 1) * w) by (nonlinear_arith)
                requires
                    w > 0,
            ;
        }
        let mag: u64 = round_units(k as u128, 1074, false, Ghost(n), Ghost(1), Ghost(w));
        Binary64::compose(false, mag)
    }
}

/// A value that a magnitude encodes rounds to that magnitude.
pub proof fn exact_values_are_kept(mag: nat)
    requires
        mag <= INFINITE_MAGNITUDE,
    ensures
        rounded(magnitude_value(mag), 1) == mag,
{
    if mag > 0 {
        lemma_next_is_larger((mag - 1) as nat);
    }
    lemma_next_is_larger(mag);
    assert(nearest_even(mag, magnitude_value(mag), 1));
    lemma_rounding_is_unique(mag, rounded(magnitude_value(mag), 1), magnitude_value(mag), 1);
}

/// A finite number is the number nearest to its own value.
pub proof fn numbers_are_kept(x: Binary64)
    requires
        x.finite(),
    ensures
        Binary64::nearest(x.exact(), x.negative()) == x,
{
    exact_values_are_kept(x.magnitude());
    magnitudes_order_as_values(x.magnitude(), 0);
    assert(magnitude_value(0) == 0);
}

impl Binary64 {
    /// The largest integer that is not above a finite number.
    pub open spec fn whole(self) -> int {
        self.exact() / (pow2(UNIT_EXPONENT as nat) as int)
    }

    /// The largest number that is a whole number and not above `self`.
    pub open spec fn floored(self) -> Binary64 {
        if !self.finite() {
            self
        } else {
            Binary64::nearest(self.whole() * pow2(UNIT_EXPONENT as nat), self.negative())
        }
    }

    /// The largest whole number that is not above `self`.
    #[verifier::allow_in_spec]
    #[verifier::spinoff_prover]
    #[verifier::rlimit(40)]
    pub fn floor(self) -> (r: Binary64)
        ensures
            r == self.floored(),
        returns
            self.floored(),
    {
        if !self.is_finite() {
            return self;
        }
        let (m, e) = self.parts();
        let ghost u = pow2(UNIT_EXPONENT as nat);
        let ghost v = magnitude_value(self.magnitude());
        proof {
            lemma_pow2_pos(UNIT_EXPONENT as nat);
        }
        if e >= 1074 {
            proof {
                let t = pow2((e - 1074) as nat);
                lemma_pow2_adds((e - 1074) as nat, 1074);
                assert(m * pow2(e as nat) == (m * t) * u) by (nonlinear_arith)
                    requires
                        pow2(e as nat) == t * u,
                ;
                lemma_whole_multiple((m * t) as int, u as int);
                lemma_whole_multiple(-((m * t) as int), u as int);
                assert((-((m * t) as int)) * (u as int) == -((m * t) * u)) by (nonlinear_arith);
                numbers_are_kept(self);
            }
            return self;
        }
        let shift: u64 = 1074 - e;
        let low: u64 = if shift >= 64 { 0 } else { m >> shift };
        let fraction: bool = if shift >= 64 { m != 0 } else { low << shift != m };
        let ghost p = pow2(shift as nat);
        let ghost b = pow2(e as nat);
        proof {
            lemma2_to64();
            lemma2_to64_rest();
            lemma_pow2_pos(shift as nat);
            lemma_pow2_pos(e as nat);
            lemma_pow2_adds(shift as nat, e as nat);
            if shift >= 64 {
                if shift > 64 {
                    lemma_pow2_strictly_increases(64, shift as nat);
                }
                assert(m as nat / p == 0) by (nonlinear_arith)
                    requires
                        0 <= m < p,
                ;
            } else {
                vstd::bits::lemma_u64_shr_is_div(m, shift);
            }
            assert(low == m as nat / p);
            assert(low * p <= m < (low + 1) * p && low <= m) by (nonlinear_arith)
                requires
                    low == m as nat / p,
                    p > 0,
                    m >= 0,
            ;
            if shift < 64 {
                vstd::bits::lemma_u64_shl_is_mul(low, shift);
            } else {
                assert(low * p == 0);
            }
            assert(fraction <==> m != low * p);
            assert(low * u <= v < (low + 1) * u && (fraction <==> v != low * u)) by (nonlinear_arith)
                requires
                    low * p <= m < (low + 1) * p,
                    fraction <==> m != low * p,
                    u == p * b,
                    v == m * b,
                    b > 0,
            ;
        }
        let up: u64 = if self.is_negative() && fraction { 1 } else { 0 };
        let k: u64 = low + up;
        proof {
            if self.negative() {
                assert(-(k as int) * (u as int) <= -(v as int) < (-(k as int) + 1) * (u as int))
                    by (nonlinear_arith)
                    requires
                        low * u <= v < (low + 1) * u,
                        fraction <==> v != low * u,
                        k == if fraction { low + 1 } else { low as int },
                ;
                lemma_whole_between(-(v as int), -(k as int), u as int);
                assert(-(k as int) * (u as int) == -(k * u)) by (nonlinear_arith);
            } else {
                lemma_whole_between(v as int, k as int, u as int);
            }
            assert(k > 0 ==> k * u > 0) by (nonlinear_arith)
                requires
                    u > 0,
            ;
        }
        if k == 0 {
            Binary64::compose(self.is_negative(), 0)
        } else {
            let whole: Binary64 = Binary64::from_u64(k);
            if self.is_negative() {
                whole.neg()
            } else {
                whole
            }
        }
    }
}

proof fn lemma_whole_between(v: int, k: int, u: int)
    requires
        u > 0,
        k * u <= v < (k + 1) * u,
    ensures
        v / u == k,
{
    assert((k + 1) * u == k * u + u) by (nonlinear_arith);
    vstd::arithmetic::div_mod::lemma_fundamental_div_mod_converse(v, u, k, v - k * u);
}

proof fn lemma_whole_multiple(k: int, u: int)
    requires
        u > 0,
    ensures
        (k * u) / u == k,
{
    assert((k + 1) * u == k * u + u) by (nonlinear_arith);
    lemma_whole_between(k * u, k, u);
}

} // verus!
