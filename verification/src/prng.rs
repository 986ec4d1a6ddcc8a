//! A seeded generator of uniform numbers (xorshift64*).
//!
//! Turbulence and sensor noise are drawn from it, so that a seed fixes every
//! draw.
use crate::binary64::{Binary64, UNIT_EXPONENT};
use crate::literal::{num, D0, D0_999999999, D1, D1EM12};
use vstd::arithmetic::power2::*;
use vstd::prelude::*;

verus! {

/// The state from which a generator starts that was given no seed.
pub const DEFAULT_STATE: u64 = 0x9E37_79B9_7F4A_7C15;

/// The multiplier that scrambles the state into a draw.
pub const SCRAMBLE: u64 = 0x2545_F491_4F6C_DD1D;

/// 2 to the power 53: the number of draws in the unit interval.
pub const UNIT_STEPS: u64 = 0x20_0000_0000_0000;

/// The state after one draw.
pub open spec fn next_state(x: u64) -> u64 {
    let a = x ^ (x >> 12);
    let b = a ^ (a << 25);
    b ^ (b >> 27)
}

/// The state after `n` draws.
pub open spec fn state_after(x: u64, n: nat) -> u64
    decreases n,
{
    if n == 0 {
        x
    } else {
        next_state(state_after(x, (n - 1) as nat))
    }
}

/// The draw that a state gives, as a count of unit steps.
pub open spec fn steps_of(x: u64) -> u64 {
    x.wrapping_mul(SCRAMBLE) >> 11
}

/// The draw that a state gives, as a number in the unit interval.
pub open spec fn uniform_of(x: u64) -> Binary64 {
    Binary64::integer(steps_of(x) as nat).quotient(Binary64::integer(UNIT_STEPS as nat))
}

/// The seed that a generator keeps: zero is replaced, since it would never
/// change.
pub open spec fn kept_seed(seed: u64) -> u64 {
    if seed == 0 {
        1
    } else {
        seed
    }
}

/// A generator of uniform numbers. Its state is never zero.
#[derive(Clone, Copy, Debug, PartialEq, Eq, Structural)]
pub struct Prng {
    pub state: u64,
}

impl Prng {
    pub open spec fn wf(self) -> bool {
        self.state != 0
    }

    /// A generator with a seed.
    pub fn new(seed: u64) -> (r: Self)
        ensures
            r.state == kept_seed(seed),
            r.wf(),
    {
        Prng { state: if seed == 0 { 1 } else { seed } }
    }

    /// Draws a number from the unit interval, one excluded.
    pub fn next_f64(&mut self) -> (r: Binary64)
        ensures
            final(self).state == next_state(old(self).state),
            r == uniform_of(final(self).state),
            old(self).wf() ==> final(self).wf(),
    {
        let mut x: u64 = self.state;
        x = x ^ (x >> 12);
        x = x ^ (x << 25);
        x = x ^ (x >> 27);
        proof {
            states_stay_nonzero(self.state);
        }
        self.state = x;
        let w: u64 = x.wrapping_mul(SCRAMBLE);
        Binary64::from_u64(w >> 11).over(Binary64::from_u64(UNIT_STEPS))
    }

    /// Draws the two numbers from which a normal draw is made: the first keeps
    /// clear of zero and one, the second of zero.
    pub fn next_pair(&mut self) -> (r: (Binary64, Binary64))
        ensures
            final(self).state == state_after(old(self).state, 2),
            r.0 == uniform_of(next_state(old(self).state)).sum(num(D1EM12)).smaller(
                num(D0_999999999),
            ),
            r.1 == uniform_of(state_after(old(self).state, 2)).larger(num(D1EM12)),
            old(self).wf() ==> final(self).wf(),
    {
        proof {
            reveal_with_fuel(state_after, 3);
        }
        let u1: Binary64 = self.next_f64().plus(num(D1EM12)).min(num(D0_999999999));
        let u2: Binary64 = self.next_f64().max(num(D1EM12));
        (u1, u2)
    }
}

/// A state that is not zero is followed by one that is not zero.
pub proof fn states_stay_nonzero(x: u64)
    ensures
        x != 0 ==> next_state(x) != 0,
{
    let a = x ^ (x >> 12);
    let b = a ^ (a << 25);
    let c = b ^ (b >> 27);
    assert(x != 0 ==> x ^ (x >> 12) != 0) by (bit_vector);
    assert(a != 0 ==> a ^ (a << 25) != 0) by (bit_vector);
    assert(b != 0 ==> b ^ (b >> 27) != 0) by (bit_vector);
}

/// Different states are followed by different states: no two generators ever
/// run into each other.
pub proof fn states_stay_apart(x: u64, y: u64)
    ensures
        x != y ==> next_state(x) != next_state(y),
{
    let a = x ^ (x >> 12);
    let c = y ^ (y >> 12);
    let b = a ^ (a << 25);
    let d = c ^ (c << 25);
    assert(x != y ==> x ^ (x >> 12) != y ^ (y >> 12)) by (bit_vector);
    assert(a != c ==> a ^ (a << 25) != c ^ (c << 25)) by (bit_vector);
    assert(b != d ==> b ^ (b >> 27) != d ^ (d >> 27)) by (bit_vector);
}

/// The same holds after any number of draws, and a generator with a seed never
/// comes to rest at zero.
pub proof fn seeds_fix_the_stream(x: u64, y: u64, n: nat)
    ensures
        x != y ==> state_after(x, n) != state_after(y, n),
        x != 0 ==> state_after(x, n) != 0,
    decreases n,
{
    if n > 0 {
        seeds_fix_the_stream(x, y, (n - 1) as nat);
        states_stay_apart(state_after(x, (n - 1) as nat), state_after(y, (n - 1) as nat));
        states_stay_nonzero(state_after(x, (n - 1) as nat));
    }
}

/// A draw is at least zero and below one.
pub proof fn draws_stay_in_the_unit_interval(x: u64)
    ensures
        steps_of(x) < UNIT_STEPS,
        num(D0).not_above(uniform_of(x)),
        uniform_of(x).below(num(D1)),
{
    let w = x.wrapping_mul(SCRAMBLE);
    assert(w >> 11 < 0x20_0000_0000_0000u64) by (bit_vector);
    let k = steps_of(x) as nat;
    crate::rounding::small_integers_are_exact(k);
    crate::rounding::small_integers_are_exact(UNIT_STEPS as nat);
    let a = Binary64::integer(k);
    let b = Binary64::integer(UNIT_STEPS as nat);
    let u = pow2(UNIT_EXPONENT as nat);
    lemma_pow2_pos(UNIT_EXPONENT as nat);
    assert(crate::binary64::magnitude_value(0) == 0);
    crate::binary64::magnitudes_order_as_values(a.magnitude(), 0);
    crate::binary64::magnitudes_order_as_values(b.magnitude(), 0);
    assert(UNIT_STEPS as nat * u > 0) by (nonlinear_arith)
        requires
            u > 0,
    ;
    if k > 0 {
        assert(k * u > 0) by (nonlinear_arith)
            requires
                u > 0,
                k > 0,
        ;
        // The last magnitude before that of one.
        let last: nat = 1021 * 0x10_0000_0000_0000 + 0x1F_FFFF_FFFF_FFFF;
        crate::binary64::lemma_canonical_value(0x1F_FFFF_FFFF_FFFF, 1021);
        let v = crate::binary64::magnitude_value(last);
        let p = pow2(1021);
        lemma2_to64_rest();
        lemma_pow2_adds(1021, 53);
        let n = (k * u) * u;
        let d = UNIT_STEPS as nat * u;
        assert(n <= v * d) by (nonlinear_arith)
            requires
                n == (k * u) * u,
                d == 0x20_0000_0000_0000 * u,
                v == 0x1F_FFFF_FFFF_FFFF * p,
                u == p * 0x20_0000_0000_0000,
                k <= 0x1F_FFFF_FFFF_FFFF,
        ;
        crate::rounding::rounding_keeps_limits(n, d, last);
    }
}

} // verus!
