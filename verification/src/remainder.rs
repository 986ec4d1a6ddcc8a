//! Exact remainders of binary64 numbers.
use crate::binary64::{Binary64, QUIET_NAN};
use vstd::arithmetic::power2::*;
use vstd::prelude::*;

verus! {

impl Binary64 {
    /// The remainder of a division towards zero: exact, with the sign of
    /// `self`.
    pub open spec fn remainder(self, other: Binary64) -> Binary64 {
        if self.nan() || other.nan() || self.infinite() || other.zero() {
            Binary64::quiet_nan()
        } else if other.infinite() {
            self
        } else {
            let r = crate::binary64::magnitude_value(self.magnitude())
                % crate::binary64::magnitude_value(other.magnitude());
            Binary64::nearest(if self.negative() { -(r as int) } else { r as int }, self.negative())
        }
    }

    /// The remainder that is not negative.
    pub open spec fn euclidean_remainder(self, other: Binary64) -> Binary64 {
        let r = self.remainder(other);
        if r.below(Binary64 { bits: 0 }) {
            r.sum(other.absolute())
        } else {
            r
        }
    }

    /// The remainder of a division towards zero.
    #[verifier::allow_in_spec]
    #[verifier::spinoff_prover]
    #[verifier::rlimit(40)]
    pub fn rem(self, other: Binary64) -> (r: Binary64)
        ensures
            r == self.remainder(other),
        returns
            self.remainder(other),
    {
        if self.is_nan() || other.is_nan() || !self.is_finite() || other.mag() == 0 {
            return Binary64 { bits: QUIET_NAN };
        }
        if !other.is_finite() {
            return self;
        }
        let (ma, ea) = self.parts();
        let (mb, eb) = other.parts();
        let ghost x = crate::binary64::magnitude_value(self.magnitude());
        let ghost y = crate::binary64::magnitude_value(other.magnitude());
        proof {
            lemma_pow2_pos(ea as nat);
            lemma_pow2_pos(eb as nat);
        }
        if ea < eb {
            proof {
                lemma_pow2_unfold((ea + 1) as nat);
                if ea + 1 < eb {
                    lemma_pow2_strictly_increases((ea + 1) as nat, eb as nat);
                }
                assert(x < y) by (nonlinear_arith)
                    requires
                        x == ma * pow2(ea as nat),
                        y == mb * pow2(eb as nat),
                        ma < 0x20_0000_0000_0000,
                        mb >= 0x10_0000_0000_0000,
                        2 * pow2(ea as nat) <= pow2(eb as nat),
                        pow2(ea as nat) > 0,
                ;
                vstd::arithmetic::div_mod::lemma_small_mod(x, y);
                crate::binary64::numbers_are_kept(self);
            }
            return self;
        }
        let mut r: u64 = ma % mb;
        let mut i: u64 = eb;
        let ghost mut whole: nat = ma as nat;
        proof {
            lemma2_to64();
            assert(ma as nat * 1 == ma as nat);
        }
        while i < ea
            invariant
                eb <= i <= ea,
                0 < mb < 0x20_0000_0000_0000,
                ma < 0x20_0000_0000_0000,
                whole == ma * pow2((i - eb) as nat),
                r == whole % (mb as nat),
                r < mb,
            decreases ea - i,
        {
            proof {
                lemma_pow2_unfold((i + 1 - eb) as nat);
                vstd::arithmetic::div_mod::lemma_mul_mod_noop_right(2, whole as int, mb as int);
                let p = pow2((i - eb) as nat);
                assert(ma * (2 * p) == 2 * (ma * p)) by (nonlinear_arith);
                whole = 2 * whole;
            }
            let doubled: u64 = r * 2;
            r = doubled % mb;
            i = i + 1;
        }
        let ghost b = pow2(eb as nat);
        proof {
            lemma_pow2_adds((ea - eb) as nat, eb as nat);
            assert(x == whole * b) by (nonlinear_arith)
                requires
                    x == ma * pow2(ea as nat),
                    pow2(ea as nat) == pow2((ea - eb) as nat) * b,
                    whole == ma * pow2((ea - eb) as nat),
            ;
            vstd::arithmetic::div_mod::lemma_truncate_middle(whole as int, b as int, mb as int);
            assert(b * whole == whole * b) by (nonlinear_arith);
            assert(b * mb == mb * b) by (nonlinear_arith);
            assert(b * (whole % (mb as nat)) == r * b) by (nonlinear_arith)
                requires
                    r == whole % (mb as nat),
            ;
            assert(x % y == r * b);
        }
        if r == 0 {
            proof {
                assert(r * b == 0) by (nonlinear_arith)
                    requires
                        r == 0,
                ;
            }
            return Binary64::compose(self.is_negative(), 0);
        }
        proof {
            assert(r * b > 0) by (nonlinear_arith)
                requires
                    r > 0,
                    b > 0,
            ;
            assert(r as nat * b < (r as nat + 1) * b) by (nonlinear_arith)
                requires
                    b > 0,
            ;
        }
        let mag: u64 = crate::binary64::round_units(
            r as u128,
            eb as i64,
            false,
            Ghost((r * b) as nat),
            Ghost(1),
            Ghost(b),
        );
        Binary64::compose(self.is_negative(), mag)
    }

    /// The remainder that is not negative.
    #[verifier::allow_in_spec]
    pub fn rem_euclid(self, other: Binary64) -> (r: Binary64)
        ensures
            r == self.euclidean_remainder(other),
        returns
            self.euclidean_remainder(other),
    {
        let r: Binary64 = self.rem(other);
        if r.lt(Binary64 { bits: 0 }) {
            r.plus(other.abs())
        } else {
            r
        }
    }
}

} // verus!
