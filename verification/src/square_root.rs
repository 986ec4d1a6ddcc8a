//! Square roots of binary64 numbers, rounded to the nearest number.
use crate::binary64::{Binary64, INFINITE_MAGNITUDE, QUIET_NAN, UNIT_EXPONENT};
use vstd::arithmetic::power2::*;
use vstd::prelude::*;

verus! {

/// `mag` is the magnitude nearest to the square root of `s`, in units; of two
/// that are equally near, the even one.
pub open spec fn nearest_root(mag: nat, s: nat) -> bool {
    &&& mag <= INFINITE_MAGNITUDE
    &&& mag > 0 ==> {
        let below = crate::binary64::magnitude_value((mag - 1) as nat)
            + crate::binary64::magnitude_value(mag);
        below * below < 4 * s || (below * below == 4 * s && mag % 2 == 0)
    }
    &&& mag < INFINITE_MAGNITUDE ==> {
        let above = crate::binary64::magnitude_value(mag)
            + crate::binary64::magnitude_value(mag + 1);
        4 * s < above * above || (4 * s == above * above && mag % 2 == 0)
    }
}

/// The magnitude to which the square root of `s` rounds.
pub open spec fn rounded_root(s: nat) -> nat {
    choose|mag: nat| nearest_root(mag, s)
}

proof fn lemma_root_is_not_below(r: nat, t: nat, s: nat)
    requires
        nearest_root(r, s),
        nearest_root(t, s),
    ensures
        r >= t,
{
    if r < t {
        let above = crate::binary64::magnitude_value(r) + crate::binary64::magnitude_value(r + 1);
        let below = crate::binary64::magnitude_value((t - 1) as nat)
            + crate::binary64::magnitude_value(t);
        if r + 1 < t {
            crate::binary64::magnitudes_order_as_values(r, (t - 1) as nat);
            crate::binary64::magnitudes_order_as_values(r + 1, t);
            assert(above * above < below * below) by (nonlinear_arith)
                requires
                    above < below,
            ;
        }
    }
}

/// The integer square root of a number below 2 to the power 120.
fn integer_root(n: u128) -> (r: u128)
    requires
        n < 0x100_0000_0000_0000_0000_0000_0000_0000,
    ensures
        r * r <= n < (r + 1) * (r + 1),
        r < 0x1000_0000_0000_0000,
{
    let mut r: u128 = 0;
    let mut bit: u128 = 0x1000_0000_0000_0000;
    let ghost mut k: nat = 60;
    proof {
        lemma2_to64_rest();
    }
    while bit > 1
        invariant
            1 <= bit <= 0x1000_0000_0000_0000,
            n < 0x100_0000_0000_0000_0000_0000_0000_0000,
            r + bit <= 0x1000_0000_0000_0000,
            r * r <= n < (r + bit) * (r + bit),
            bit == pow2(k),
        decreases bit,
    {
        let half: u128 = bit / 2;
        proof {
            lemma2_to64();
            lemma_pow2_unfold(k);
            k = (k - 1) as nat;
        }
        let t: u128 = r + half;
        proof {
            assert(t * t <= 0x1000_0000_0000_0000 * 0x1000_0000_0000_0000) by (nonlinear_arith)
                requires
                    0 <= t <= 0x1000_0000_0000_0000,
            ;
        }
        if t * t <= n {
            r = t;
        }
        bit = half;
    }
    r
}

/// No even multiple of `w` lies between two neighbouring multiples of it.
proof fn lemma_side(c: nat, q: nat, w: nat)
    ensures
        (2 * c) * w < (2 * q + 1) * w ==> (2 * c) * w <= (2 * q) * w,
        (2 * q + 1) * w < (2 * c) * w ==> (2 * q + 2) * w <= (2 * c) * w,
        w > 0 ==> (2 * c) * w != (2 * q + 1) * w,
{
    if (2 * c) * w < (2 * q + 1) * w {
        assert(2 * c < 2 * q + 1) by (nonlinear_arith)
            requires
                (2 * c) * w < (2 * q + 1) * w,
        ;
        assert((2 * c) * w <= (2 * q) * w) by (nonlinear_arith)
            requires
                c <= q,
        ;
    }
    if (2 * q + 1) * w < (2 * c) * w {
        assert(2 * q + 1 < 2 * c) by (nonlinear_arith)
            requires
                (2 * q + 1) * w < (2 * c) * w,
        ;
        assert((2 * q + 2) * w <= (2 * c) * w) by (nonlinear_arith)
            requires
                q + 1 <= c,
        ;
    }
    if w > 0 && (2 * c) * w == (2 * q + 1) * w {
        assert(2 * c == 2 * q + 1) by (nonlinear_arith)
            requires
                w > 0,
                (2 * c) * w == (2 * q + 1) * w,
        ;
    }
}

/// A magnitude whose successor encodes more than `2^54 * 2^e` encodes a
/// multiple of `2^(e + 1)`, and so does the successor.
proof fn lemma_multiple(r: nat, e: nat) -> (c: (nat, nat))
    requires
        crate::binary64::magnitude_value(r + 1) > 0x40_0000_0000_0000 * pow2(e),
    ensures
        crate::binary64::magnitude_value(r) == (2 * c.0) * pow2(e),
        crate::binary64::magnitude_value(r + 1) == (2 * c.1) * pow2(e),
{
    let (m, x) = crate::binary64::lemma_decode(r);
    crate::binary64::lemma_canonical_value(m, x);
    lemma_pow2_pos(e);
    if x <= e {
        if x < e {
            lemma_pow2_strictly_increases(x, e);
        }
        assert((m + 1) * pow2(x) <= 0x20_0000_0000_0000 * pow2(e)) by (nonlinear_arith)
            requires
                m + 1 <= 0x20_0000_0000_0000,
                pow2(x) <= pow2(e),
        ;
        assert(0x20_0000_0000_0000 * pow2(e) <= 0x40_0000_0000_0000 * pow2(e)) by (nonlinear_arith);
    }
    let t = pow2((x - e - 1) as nat);
    lemma_pow2_adds((x - e - 1) as nat, e + 1);
    lemma_pow2_unfold(e + 1);
    assert(m * pow2(x) == (2 * (m * t)) * pow2(e) && (m + 1) * pow2(x) == (2 * ((m + 1) * t))
        * pow2(e)) by (nonlinear_arith)
        requires
            pow2(x) == t * pow2(e + 1),
            pow2(e + 1) == 2 * pow2(e),
    ;
    (m * t, (m + 1) * t)
}

/// The rounding of `q * 2^e`, with half a unit of `q` in place of what was cut
/// off, is the rounding of the square root of `s`.
proof fn lemma_root_from_bracket(mag: nat, q: nat, e: nat, sticky: bool, s: nat)
    requires
        e <= 1600,
        q >= 0x400_0000_0000_0000,
        crate::binary64::nearest_even(mag, (2 * q + (if sticky { 1nat } else { 0 })) * pow2(e), 2),
        (q * pow2(e)) * (q * pow2(e)) <= s,
        s < ((q + 1) * pow2(e)) * ((q + 1) * pow2(e)),
        sticky <==> s != (q * pow2(e)) * (q * pow2(e)),
    ensures
        nearest_root(mag, s),
        rounded_root(s) == mag,
{
    let w = pow2(e);
    lemma_pow2_pos(e);
    let n = (2 * q + (if sticky { 1nat } else { 0 })) * w;
    let below = crate::binary64::magnitude_value((mag - 1) as nat)
        + crate::binary64::magnitude_value(mag);
    let above = crate::binary64::magnitude_value(mag) + crate::binary64::magnitude_value(mag + 1);
    assert((2 * q) * w == 2 * (q * w)) by (nonlinear_arith);
    assert((2 * q + 2) * w == 2 * ((q + 1) * w)) by (nonlinear_arith);
    if !sticky {
        let h = q * w;
        assert(below < n ==> below * below < 4 * (h * h)) by (nonlinear_arith)
            requires
                n == 2 * h,
        ;
        assert(below == n ==> below * below == 4 * (h * h)) by (nonlinear_arith)
            requires
                n == 2 * h,
        ;
        assert(n < above ==> 4 * (h * h) < above * above) by (nonlinear_arith)
            requires
                n == 2 * h,
        ;
        assert(n == above ==> 4 * (h * h) == above * above) by (nonlinear_arith)
            requires
                n == 2 * h,
        ;
    } else {
        lemma_value_is_large(mag, q, e);
        let (c0, c1) = lemma_multiple((mag - 1) as nat, e);
        crate::binary64::lemma_next_is_larger(mag);
        let (c2, c3) = lemma_multiple(mag, e);
        assert(below == (2 * (c0 + c1)) * w) by (nonlinear_arith)
            requires
                below == (2 * c0) * w + (2 * c1) * w,
        ;
        assert(above == (2 * (c2 + c3)) * w) by (nonlinear_arith)
            requires
                above == (2 * c2) * w + (2 * c3) * w,
        ;
        lemma_side(c0 + c1, q, w);
        lemma_side(c2 + c3, q, w);
        let h = q * w;
        let g = (q + 1) * w;
        assert(below <= 2 * h ==> below * below <= 4 * (h * h)) by (nonlinear_arith);
        assert(2 * g <= above ==> 4 * (g * g) <= above * above) by (nonlinear_arith);
    }
    assert(nearest_root(mag, s));
    lemma_root_is_not_below(mag, rounded_root(s), s);
    lemma_root_is_not_below(rounded_root(s), mag, s);
}

proof fn lemma_value_is_large(mag: nat, q: nat, e: nat)
    requires
        e <= 1600,
        q >= 0x400_0000_0000_0000,
        crate::binary64::nearest_even(mag, (2 * q + 1) * pow2(e), 2),
    ensures
        crate::binary64::magnitude_value(mag) > 0x40_0000_0000_0000 * pow2(e),
        mag > 0,
{
    let w = pow2(e);
    lemma_pow2_pos(e);
    let v = crate::binary64::magnitude_value(mag);
    let (m, x) = crate::binary64::lemma_decode(mag);
    crate::binary64::lemma_canonical_value(m, x);
    lemma_pow2_pos(x);
    lemma2_to64();
    lemma2_to64_rest();
    if v <= 0x40_0000_0000_0000 * w {
        if mag == INFINITE_MAGNITUDE {
            assert(x == 2046 && m == 0x10_0000_0000_0000);
            lemma_pow2_adds(e, (2046 - e) as nat);
            lemma_pow2_strictly_increases(54, (2046 - e) as nat);
            let p = pow2((2046 - e) as nat);
            assert(m * pow2(x) > 0x40_0000_0000_0000 * w) by (nonlinear_arith)
                requires
                    m == 0x10_0000_0000_0000,
                    pow2(x) == w * p,
                    p > 0x40_0000_0000_0000,
                    w > 0,
            ;
        } else {
            let u = crate::binary64::magnitude_value(mag + 1);
            if m > 0 {
                assert((m + 1) * pow2(x) <= 2 * (m * pow2(x))) by (nonlinear_arith)
                    requires
                        m >= 1,
                ;
            } else {
                assert(x == 0);
                assert(u == 1);
            }
            assert(u <= 2 * (0x40_0000_0000_0000 * w));
            let n = (2 * q + 1) * w;
            assert(n >= 0x800_0000_0000_0000 * w) by (nonlinear_arith)
                requires
                    q >= 0x400_0000_0000_0000,
                    n == (2 * q + 1) * w,
            ;
            assert(2 * n <= (v + u) * 2);
        }
    }
    assert(crate::binary64::magnitude_value(0) == 0);
}

impl Binary64 {
    /// The square root, rounded to the nearest number.
    pub open spec fn root(self) -> Binary64 {
        if self.nan() {
            Binary64::quiet_nan()
        } else if self.zero() {
            self
        } else if self.negative() {
            Binary64::quiet_nan()
        } else if self.infinite() {
            self
        } else {
            Binary64::signed(
                false,
                rounded_root(
                    crate::binary64::magnitude_value(self.magnitude()) * pow2(UNIT_EXPONENT as nat),
                ),
            )
        }
    }

    /// The square root.
    #[verifier::allow_in_spec]
    #[verifier::spinoff_prover]
    #[verifier::rlimit(40)]
    pub fn sqrt(self) -> (r: Binary64)
        ensures
            r == self.root(),
        returns
            self.root(),
    {
        if self.is_nan() {
            return Binary64 { bits: QUIET_NAN };
        }
        if self.mag() == 0 {
            return self;
        }
        if self.is_negative() {
            return Binary64 { bits: QUIET_NAN };
        }
        if !self.is_finite() {
            return self;
        }
        let (m0, e0) = self.parts();
        let (m, a) = crate::binary64::widened(m0, e0);
        let ghost s = crate::binary64::magnitude_value(self.magnitude()) * pow2(
            UNIT_EXPONENT as nat,
        );
        proof {
            lemma_pow2_adds(e0 as nat, 1074);
            let pa = pow2(e0 as nat);
            let pu = pow2(1074);
            assert(s == m * pow2(a as nat)) by (nonlinear_arith)
                requires
                    s == (m0 * pa) * pu,
                    m * pow2(a as nat) == m0 * pow2((e0 + 1074) as nat),
                    pow2((e0 + 1074) as nat) == pa * pu,
            ;
        }
        let shift: u64 = if a % 2 == 0 { 66 } else { 67 };
        let square: u128 = crate::binary64::scaled_up(m as u128, shift);
        let e: u64 = (a - shift) / 2;
        let ghost w = pow2(e as nat);
        proof {
            lemma2_to64();
            lemma2_to64_rest();
            lemma_pow2_adds(64, 3);
            lemma_pow2_unfold(67);
            lemma_pow2_adds(shift as nat, (a - shift) as nat);
            lemma_pow2_adds(e as nat, e as nat);
            lemma_pow2_pos(e as nat);
            let p = pow2(shift as nat);
            assert(square < 0x100_0000_0000_0000_0000_0000_0000_0000
                && square >= 0x40_0000_0000_0000_0000_0000_0000_0000) by (nonlinear_arith)
                requires
                    square == m * p,
                    0x10_0000_0000_0000 <= m < 0x20_0000_0000_0000,
                    0x4_0000_0000_0000_0000 <= p <= 0x8_0000_0000_0000_0000,
            ;
            assert(s == square * (w * w)) by (nonlinear_arith)
                requires
                    s == m * pow2(a as nat),
                    pow2(a as nat) == p * (w * w),
                    square == m * p,
            ;
        }
        let q: u128 = integer_root(square);
        proof {
            assert(q >= 0x400_0000_0000_0000) by (nonlinear_arith)
                requires
                    square < (q + 1) * (q + 1),
                    square >= 0x40_0000_0000_0000_0000_0000_0000_0000,
                    q >= 0,
            ;
            assert(q * q <= u128::MAX) by (nonlinear_arith)
                requires
                    0 <= q < 0x1000_0000_0000_0000,
            ;
            assert((q * w) * (q * w) == (q * q) * (w * w)) by (nonlinear_arith);
            assert(((q + 1) * w) * ((q + 1) * w) == ((q + 1) * (q + 1)) * (w * w))
                by (nonlinear_arith);
            assert(w * w > 0) by (nonlinear_arith)
                requires
                    w > 0,
            ;
            assert((q * q) * (w * w) <= s && s < ((q + 1) * (q + 1)) * (w * w) && (q * q == square
                <==> s == (q * q) * (w * w))) by (nonlinear_arith)
                requires
                    s == square * (w * w),
                    q * q <= square < (q + 1) * (q + 1),
                    w * w > 0,
            ;
        }
        let sticky: bool = q * q != square;
        let ghost n: nat = (2 * q as nat + (if sticky { 1nat } else { 0 })) * w;
        proof {
            let v = w * 2;
            assert(q as nat * v <= n && n < (q as nat + 1) * v && (sticky <==> n != q as nat * v))
                by (nonlinear_arith)
                requires
                    v == w * 2,
                    w > 0,
                    n == (2 * q as nat + (if sticky { 1nat } else { 0 })) * w,
            ;
        }
        let mag: u64 = crate::binary64::round_units(
            q,
            e as i64,
            sticky,
            Ghost(n),
            Ghost(2),
            Ghost(w * 2),
        );
        proof {
            lemma_root_from_bracket(mag as nat, q as nat, e as nat, sticky, s);
        }
        Binary64::compose(false, mag)
    }
}

} // verus!
