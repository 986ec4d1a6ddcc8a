//! Running limits that scale observations to the unit interval.
use crate::binary64::Binary64;
use crate::literal::{num, D0, D1, D1EM9, D20, D30, M20, M30};
use vstd::prelude::*;

verus! {

/// Channels of the weather observation.
pub const WEATHER_OBS_DIM: usize = 12;

/// The documented lower limit of a channel: winds reach 30 m/s, updrafts
/// 20 m/s, everything else starts at zero.
pub open spec fn lower_limit(channel: int) -> Binary64 {
    if channel < 3 {
        num(M30)
    } else if channel == 7 {
        num(M20)
    } else {
        num(D0)
    }
}

/// The documented upper limit of a channel.
pub open spec fn upper_limit(channel: int) -> Binary64 {
    if channel < 3 {
        num(D30)
    } else if channel == 7 {
        num(D20)
    } else {
        num(D1)
    }
}

/// A channel scaled between its limits; zero where the limits coincide.
pub open spec fn scaled(x: Binary64, lo: Binary64, hi: Binary64) -> Binary64 {
    if hi.difference(lo).absolute().below(num(D1EM9)) {
        num(D0)
    } else {
        x.difference(lo).quotient(hi.difference(lo)).clamped(num(D0), num(D1))
    }
}

/// The least and greatest value seen on every channel.
#[derive(Clone, Copy, Debug)]
pub struct ObservationNormalizer {
    pub min: [Binary64; 12],
    pub max: [Binary64; 12],
}

impl ObservationNormalizer {
    /// Whether the limits are the documented ones.
    pub open spec fn documented(self) -> bool {
        forall|i: int|
            0 <= i < 12 ==> #[trigger] self.min@[i] == lower_limit(i) && self.max@[i]
                == upper_limit(i)
    }

    /// Starts with the documented limits.
    pub fn from_default_bounds() -> (r: Self)
        ensures
            r.documented(),
    {
        let a: Binary64 = num(M30);
        let b: Binary64 = num(D30);
        let z: Binary64 = num(D0);
        let o: Binary64 = num(D1);
        ObservationNormalizer {
            min: [a, a, a, z, z, z, z, num(M20), z, z, z, z],
            max: [b, b, b, o, o, o, o, num(D20), o, o, o, o],
        }
    }

    /// Starts with given limits.
    pub fn from_bounds(min: [Binary64; 12], max: [Binary64; 12]) -> (r: Self)
        ensures
            r.min == min,
            r.max == max,
    {
        ObservationNormalizer { min, max }
    }

    /// Widens the limits to hold an observation.
    pub fn update(&mut self, obs: &[Binary64; 12])
        ensures
            forall|i: int|
                0 <= i < 12 ==> #[trigger] final(self).min@[i] == old(self).min@[i].smaller(obs@[i]),
            forall|i: int|
                0 <= i < 12 ==> #[trigger] final(self).max@[i] == old(self).max@[i].larger(obs@[i]),
    {
        let mut i: usize = 0;
        while i < 12
            invariant
                i <= 12,
                forall|j: int|
                    0 <= j < i ==> #[trigger] self.min@[j] == old(self).min@[j].smaller(obs@[j]),
                forall|j: int|
                    0 <= j < i ==> #[trigger] self.max@[j] == old(self).max@[j].larger(obs@[j]),
                forall|j: int| i <= j < 12 ==> #[trigger] self.min@[j] == old(self).min@[j],
                forall|j: int| i <= j < 12 ==> #[trigger] self.max@[j] == old(self).max@[j],
            decreases 12 - i,
        {
            let lo: Binary64 = self.min[i].min(obs[i]);
            let hi: Binary64 = self.max[i].max(obs[i]);
            self.min[i] = lo;
            self.max[i] = hi;
            i = i + 1;
        }
    }

    /// Scales an observation to the unit interval, channel by channel.
    pub fn normalize(&self, obs: &[Binary64; 12]) -> (r: [Binary64; 12])
        ensures
            forall|i: int|
                0 <= i < 12 ==> #[trigger] r@[i] == scaled(obs@[i], self.min@[i], self.max@[i]),
    {
        let z: Binary64 = num(D0);
        let mut out: [Binary64; 12] = [z, z, z, z, z, z, z, z, z, z, z, z];
        let mut i: usize = 0;
        while i < 12
            invariant
                i <= 12,
                forall|j: int|
                    0 <= j < i ==> #[trigger] out@[j] == scaled(
                        obs@[j],
                        self.min@[j],
                        self.max@[j],
                    ),
            decreases 12 - i,
        {
            let lo: Binary64 = self.min[i];
            let hi: Binary64 = self.max[i];
            let span: Binary64 = hi.minus(lo);
            let x: Binary64 = if span.abs().lt(num(D1EM9)) {
                num(D0)
            } else {
                obs[i].minus(lo).over(span).clamp(num(D0), num(D1))
            };
            out[i] = x;
            i = i + 1;
        }
        out
    }

    pub fn min(&self) -> (r: &[Binary64; 12])
        ensures
            *r == self.min,
    {
        &self.min
    }

    pub fn max(&self) -> (r: &[Binary64; 12])
        ensures
            *r == self.max,
    {
        &self.max
    }

    /// Goes back to the documented limits.
    pub fn reset(&mut self)
        ensures
            final(self).documented(),
    {
        *self = ObservationNormalizer::from_default_bounds();
    }
}

/// A channel whose limits are finite and not too far apart is scaled to a
/// fraction.
pub proof fn normalized_channels_are_fractions(x: Binary64, lo: Binary64, hi: Binary64)
    requires
        x.finite(),
        lo.finite(),
        hi.difference(lo).finite(),
    ensures
        crate::rounding::is_fraction(scaled(x, lo, hi)),
{
    let span = hi.difference(lo);
    let part = x.difference(lo);
    if !span.absolute().below(num(D1EM9)) {
        let n = x.exact() + lo.negated().exact();
        crate::rounding::rounding_is_total(if n < 0 { (-n) as nat } else { n as nat }, 1);
        if part.finite() {
            crate::rounding::quotients_are_numbers(part, span);
        }
    }
}

/// An observation lies within the limits that were widened for it, and limits
/// never narrow.
pub proof fn updated_limits_hold_the_observation(lo: Binary64, hi: Binary64, x: Binary64)
    requires
        !lo.nan(),
        !hi.nan(),
        !x.nan(),
    ensures
        lo.smaller(x).not_above(x),
        x.not_above(hi.larger(x)),
        lo.smaller(x).not_above(lo),
        hi.not_above(hi.larger(x)),
{
}

/// Normalizing keeps the order: the lower limit becomes zero, and nothing that
/// is more becomes less.
pub proof fn normalizing_keeps_order(x: Binary64, y: Binary64, lo: Binary64, hi: Binary64)
    requires
        x.finite() && y.finite() && lo.finite() && hi.finite(),
        x.not_above(y),
        lo.not_above(hi),
        hi.difference(lo).finite(),
    ensures
        scaled(x, lo, hi).not_above(scaled(y, lo, hi)),
        x.not_above(lo) ==> scaled(x, lo, hi).zero(),
{
    let d = hi.difference(lo);
    crate::rounding::differences_tell_the_order(hi, lo);
    crate::rounding::differences_tell_the_order(x, lo);
    crate::rounding::sums_are_numbers(y, lo.negated());
    crate::rounding::sums_keep_order(x, y, lo.negated());
    if !d.absolute().below(num(D1EM9)) {
        crate::rounding::divisors_keep_order(x.difference(lo), y.difference(lo), d);
        if x.not_above(lo) {
            crate::rounding::divisors_keep_order(x.difference(lo), num(D0), d);
        }
    }
}

} // verus!
